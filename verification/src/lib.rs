//! Photo Rotate and Convert to 1080: the logic of a small GTK tool that
//! corrects the rotation of photos from their Exif orientation and converts
//! them to 1920×1080.
//!
//! - `text`: decimal numbers, reading an entry as `i32`.
//! - `sorting`: the order of file names, and sorting them.
//! - `notice`: the lines shown in the message area.
//! - `groups`: the number entries of the icon view and the group buttons.
//! - `listing`: which files are images, the group of icons drawn, icon sizes.
//! - `orientation`: the Exif orientation of a file, and the two list views.
//! - `rotation`: "Rotate All" and the three turn buttons.
//! - `copying`: converting the listed files into the output directory.
//! - `launch`: how the external commands are started.
//! - `dialog`: the directory choosers, and the window title.

pub mod copying;
pub mod dialog;
pub mod groups;
pub mod launch;
pub mod listing;
pub mod notice;
pub mod orientation;
pub mod rotation;
pub mod sorting;
pub mod text;
