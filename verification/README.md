# photorotate

A small GTK 4 tool for a directory of photos:

- **Rotation Correction** lists the files whose Exif orientation is 3, 6 or 8
  and runs a GIMP script on each ("Rotate All");
- **Individual Rotation** shows a group of the images as icons (positions
  "From" to "To", icons of "Icon Size" pixels), moves from group to group,
  and turns the selected images clockwise, counterclockwise or by 180°;
- **Convert to 1080** lists every file with its orientation and converts each
  with ImageMagick into an empty output directory, fitted to 1920×1080.

`src/` is the library, verified with Verus: reading the entries, choosing and
sorting the files, reading the orientation (with the `exif` crate), the
labels and messages, the order in which the external commands are started,
and the answers to the directory choosers. `app/` is the GTK window around it:
widgets, file system, processes. `tests/` runs the library on concrete cases.
