//! The Exif orientation of the images: reading it from a file's bytes with
//! the `exif` crate, the labels the two list views show for it, and which
//! files need their rotation corrected.

use vstd::prelude::*;
use crate::notice::{Notice, alert, alert_notice, join, plain};
use crate::text::{decimal, decimal_text};

verus! {

/// Whether `exif::Reader::read_from_container` finds and parses Exif
/// attributes in an image file whose content is `data`.
pub uninterp spec fn exif_container_parses(data: Seq<u8>) -> bool;

/// What the Exif attributes of an image file whose content is `data` hold
/// for the orientation of the primary image: `None` where there is no such
/// attribute (`Exif::get_field(Tag::Orientation, In::PRIMARY)`), otherwise
/// the first unsigned integer of its value, if it has one
/// (`Value::get_uint(0)`).
pub uninterp spec fn exif_primary_orientation(data: Seq<u8>) -> Option<Option<u32>>;

/// The text (`Display`) of the error `exif::Reader::read_from_container`
/// gives on an image file whose content is `data`.
pub uninterp spec fn exif_error_message(data: Seq<u8>) -> Seq<char>;

/// Reads the orientation of the primary image from an image file held in
/// memory, with the `exif` crate: `Reader::new().read_from_container` over
/// an in-memory cursor, then `Exif::get_field(Tag::Orientation,
/// In::PRIMARY)`, then `Value::get_uint(0)` of the field's value; an error
/// is given as its `Display` text. Everything it reads is the bytes, so the
/// contract names the outcome by the bytes alone: whether the reader
/// succeeds, the orientation it finds, and the error's text.
#[verifier::external_body]
fn read_orientation_field(data: Vec<u8>) -> (r: Result<Option<Option<u32>>, String>)
    ensures
        r is Ok <==> exif_container_parses(data@),
        r matches Ok(v) ==> v == exif_primary_orientation(data@),
        r matches Err(e) ==> e@ == exif_error_message(data@),
{
    match exif::Reader::new().read_from_container(&mut std::io::Cursor::new(data)) {
        Err(e) => Err(format!("{}", e)),
        Ok(exif) => Ok(exif.get_field(exif::Tag::Orientation, exif::In::PRIMARY).map(|f| f.value.get_uint(0))),
    }
}

/// What a file's orientation attribute turned out to be.
pub enum OrientationTag {
    /// The file could not be opened, or holds no readable Exif attributes;
    /// the text says why.
    Unreadable(String),
    /// The Exif attributes have no orientation for the primary image.
    Missing,
    /// The orientation attribute holds no unsigned integer.
    NotUnsigned,
    /// The orientation: 1 is upright; 3, 6 and 8 ask for a turn by 180°,
    /// 90° clockwise and 90° counterclockwise.
    Value(u32),
}

/// Reads the orientation of the primary image from a file's content: the
/// reader's error where it fails on the file, otherwise whether the primary
/// image has an orientation attribute and what unsigned integer it holds.
pub fn read_orientation(data: Vec<u8>) -> (r: OrientationTag)
    ensures
        r is Unreadable <==> !exif_container_parses(data@),
        r matches OrientationTag::Unreadable(e) ==> e@ == exif_error_message(data@),
        exif_container_parses(data@) ==> match exif_primary_orientation(data@) {
            None => r is Missing,
            Some(None) => r is NotUnsigned,
            Some(Some(v)) => r == OrientationTag::Value(v),
        },
{
    match read_orientation_field(data) {
        Err(e) => OrientationTag::Unreadable(e),
        Ok(None) => OrientationTag::Missing,
        Ok(Some(None)) => OrientationTag::NotUnsigned,
        Ok(Some(Some(v))) => OrientationTag::Value(v),
    }
}

/// The orientations whose image is shown turned: 3, 6 and 8.
pub open spec fn spec_needs_rotation(tag: OrientationTag) -> bool {
    match tag {
        OrientationTag::Value(n) => n == 3 || n == 6 || n == 8,
        _ => false,
    }
}

/// Tells whether a file's image needs its rotation corrected.
pub fn needs_rotation(tag: &OrientationTag) -> (r: bool)
    ensures
        r == spec_needs_rotation(*tag),
{
    match tag {
        OrientationTag::Value(n) => *n == 3 || *n == 6 || *n == 8,
        _ => false,
    }
}

/// The label of an orientation value, as the list views show it.
pub open spec fn orientation_label(n: nat) -> Seq<char> {
    "Orientation: "@ + decimal(n)
}

/// The label the "Convert to 1080" list shows for a file.
pub open spec fn conversion_label(name: Seq<char>, tag: OrientationTag) -> Seq<char> {
    match tag {
        OrientationTag::Unreadable(e) => "Meta error : "@ + e@,
        OrientationTag::Value(n) => orientation_label(n as nat),
        OrientationTag::NotUnsigned => "no Value: "@ + name,
        OrientationTag::Missing => "error getting Value: "@ + name,
    }
}

/// Writes the label of an orientation value.
pub fn orientation_text(n: u32) -> (r: String)
    ensures
        r@ == orientation_label(n as nat),
{
    join("Orientation: ", decimal_text(n as u64).as_str())
}

/// Writes the label the "Convert to 1080" list shows for a file.
pub fn conversion_text(name: &str, tag: &OrientationTag) -> (r: String)
    ensures
        r@ == conversion_label(name@, *tag),
{
    match tag {
        OrientationTag::Unreadable(e) => join("Meta error : ", e.as_str()),
        OrientationTag::Value(n) => orientation_text(*n),
        OrientationTag::NotUnsigned => join("no Value: ", name),
        OrientationTag::Missing => join("error getting Value: ", name),
    }
}

/// A regular file of the directory, with what its orientation turned out to be.
pub struct TaggedFile {
    pub name: String,
    pub tag: OrientationTag,
}

/// One row of a list view: a file name and its label.
pub struct Row {
    pub name: String,
    pub label: String,
}

/// The rows of a list view, and the line shown once it is filled.
pub struct Listing {
    pub rows: Vec<Row>,
    pub notice: Notice,
}

/// The names and labels of a list of rows.
pub open spec fn row_texts(rows: Seq<Row>) -> Seq<(Seq<char>, Seq<char>)> {
    rows.map_values(|r: Row| (r.name@, r.label@))
}

/// The rows of the "Rotation Correction" list: the files whose image needs
/// turning, in the order given, each with its orientation label.
pub open spec fn rotation_rows(files: Seq<TaggedFile>) -> Seq<(Seq<char>, Seq<char>)>
    decreases files.len(),
{
    if files.len() == 0 {
        Seq::empty()
    } else {
        let f = files.last();
        let rest = rotation_rows(files.drop_last());
        match f.tag {
            OrientationTag::Value(n) => if n == 3 || n == 6 || n == 8 {
                rest.push((f.name@, orientation_label(n as nat)))
            } else {
                rest
            },
            _ => rest,
        }
    }
}

/// The rows of the "Convert to 1080" list: every file, in the order given,
/// each with its label.
pub open spec fn conversion_rows(files: Seq<TaggedFile>) -> Seq<(Seq<char>, Seq<char>)> {
    files.map_values(|f: TaggedFile| (f.name@, conversion_label(f.name@, f.tag)))
}

/// The rows of the "Rotation Correction" list are the files whose
/// orientation is 3, 6 or 8, whatever their name or place, kept in order,
/// each with its name and its orientation label.
pub proof fn lemma_rotation_rows_are_the_turned_files(files: Seq<TaggedFile>)
    ensures
        rotation_rows(files) == files.filter(|f: TaggedFile| f.tag matches OrientationTag::Value(n) && (n == 3 || n == 6 || n == 8)).map_values(
            |f: TaggedFile| (f.name@, conversion_label(f.name@, f.tag)),
        ),
    decreases files.len(),
{
    let pred = |f: TaggedFile| f.tag matches OrientationTag::Value(n) && (n == 3 || n == 6 || n == 8);
    let g = |f: TaggedFile| (f.name@, conversion_label(f.name@, f.tag));
    if files.len() == 0 {
        assert(files.filter(pred) =~= Seq::<TaggedFile>::empty()) by {
            reveal(Seq::filter);
        }
    } else {
        let rest = files.drop_last();
        let f = files.last();
        lemma_rotation_rows_are_the_turned_files(rest);
        assert(files =~= rest.push(f));
        rest.lemma_filter_push(f, pred);
        if pred(f) {
            rest.filter(pred).lemma_push_map_commute(g, f);
        }
    }
}

proof fn lemma_rotation_rows_len(files: Seq<TaggedFile>)
    ensures
        rotation_rows(files).len() <= files.len(),
    decreases files.len(),
{
    if files.len() > 0 {
        lemma_rotation_rows_len(files.drop_last());
    }
}

/// The line shown once the "Rotation Correction" list is filled.
pub open spec fn rotation_message(count: nat) -> (bool, Seq<char>) {
    if count > 0 {
        (false, decimal(count) + " files need rotation correction"@)
    } else {
        (true, alert("List Orientation: directory has no images to rotate"@))
    }
}

/// The line shown once the "Convert to 1080" list is filled.
pub open spec fn conversion_message(count: nat) -> (bool, Seq<char>) {
    if count > 0 {
        (false, decimal(count) + " files in directory"@)
    } else {
        (true, alert("List for convert: directory has no images"@))
    }
}

/// Fills the "Rotation Correction" list ("List Orientation"): the files
/// whose orientation is 3, 6 or 8, with their label, and a line that counts
/// them.
pub fn list_rotations(files: &Vec<TaggedFile>) -> (r: Listing)
    requires
        files@.len() <= i32::MAX,
    ensures
        row_texts(r.rows@) == rotation_rows(files@),
        row_texts(r.rows@) == files@.filter(|f: TaggedFile| f.tag matches OrientationTag::Value(n) && (n == 3 || n == 6 || n == 8)).map_values(
            |f: TaggedFile| (f.name@, conversion_label(f.name@, f.tag)),
        ),
        r.rows@.len() == files@.filter(|f: TaggedFile| f.tag matches OrientationTag::Value(n) && (n == 3 || n == 6 || n == 8)).len(),
        (r.notice.markup, r.notice.text@) == rotation_message(r.rows@.len()),
{
    let mut rows: Vec<Row> = Vec::new();
    let mut i: usize = 0;
    while i < files.len()
        invariant
            i <= files@.len(),
            row_texts(rows@) == rotation_rows(files@.take(i as int)),
        decreases files@.len() - i,
    {
        let ghost before = rows@;
        assert(files@.take(i + 1).drop_last() =~= files@.take(i as int));
        assert(files@.take(i + 1).last() == files@[i as int]);
        if needs_rotation(&files[i].tag) {
            if let OrientationTag::Value(n) = &files[i].tag {
                rows.push(Row { name: files[i].name.clone(), label: orientation_text(*n) });
                assert(row_texts(rows@) =~= row_texts(before).push(
                    (files@[i as int].name@, orientation_label(*n as nat)),
                ));
            }
        }
        i = i + 1;
    }
    assert(files@.take(files@.len() as int) =~= files@);
    let count = rows.len();
    proof {
        lemma_rotation_rows_are_the_turned_files(files@);
        lemma_rotation_rows_len(files@);
        assert(row_texts(rows@).len() == rows@.len());
    }
    let notice = if count > 0 {
        let mut s = decimal_text(count as u64);
        s.append(" files need rotation correction");
        plain(s)
    } else {
        alert_notice("List Orientation: directory has no images to rotate")
    };
    Listing { rows, notice }
}

/// Fills the "Convert to 1080" list ("List"): every file with its label,
/// and a line that counts them.
pub fn list_conversions(files: &Vec<TaggedFile>) -> (r: Listing)
    requires
        files@.len() <= i32::MAX,
    ensures
        row_texts(r.rows@) == conversion_rows(files@),
        r.rows@.len() == files@.len(),
        forall|k: int|
            0 <= k < files@.len() ==> (#[trigger] r.rows@[k]).name@ == files@[k].name@
                && r.rows@[k].label@ == conversion_label(files@[k].name@, files@[k].tag),
        (r.notice.markup, r.notice.text@) == conversion_message(files@.len()),
{
    let mut rows: Vec<Row> = Vec::new();
    let mut i: usize = 0;
    while i < files.len()
        invariant
            i <= files@.len(),
            row_texts(rows@) == conversion_rows(files@.take(i as int)),
            rows@.len() == i,
        decreases files@.len() - i,
    {
        let ghost before = rows@;
        let label = conversion_text(files[i].name.as_str(), &files[i].tag);
        rows.push(Row { name: files[i].name.clone(), label });
        assert forall|j: int| 0 <= j < i + 1 implies #[trigger] row_texts(rows@)[j]
            == conversion_rows(files@.take(i + 1))[j] by {
            if j < i {
                assert(rows@[j] == before[j]);
                assert(row_texts(before)[j] == conversion_rows(files@.take(i as int))[j]);
                assert(files@.take(i + 1)[j] == files@.take(i as int)[j]);
            } else {
                assert(files@.take(i + 1)[j] == files@[i as int]);
            }
        }
        assert(row_texts(rows@) =~= conversion_rows(files@.take(i + 1)));
        i = i + 1;
    }
    assert(files@.take(files@.len() as int) =~= files@);
    assert forall|k: int| 0 <= k < files@.len() implies (#[trigger] rows@[k]).name@ == files@[k].name@
        && rows@[k].label@ == conversion_label(files@[k].name@, files@[k].tag) by {
        assert(row_texts(rows@)[k] == conversion_rows(files@)[k]);
    }
    let count = files.len();
    let notice = if count > 0 {
        let mut s = decimal_text(count as u64);
        s.append(" files in directory");
        plain(s)
    } else {
        alert_notice("List for convert: directory has no images")
    };
    Listing { rows, notice }
}

/// The two lists of the window that read the files' orientation.
#[derive(Clone, Copy, Debug, PartialEq, Eq, Structural)]
pub enum ListKind {
    /// "Rotation Correction" ("List Orientation").
    Rotation,
    /// "Convert to 1080" ("List").
    Conversion,
}

/// The error line a list shows when no directory is chosen.
pub fn no_directory_notice(kind: ListKind) -> (r: Notice)
    ensures
        r.markup,
        kind == ListKind::Rotation ==> r.text@ == alert(
            "List Orientation: ERROR GETTING DIRECTORY IN COMBOBOX"@,
        ),
        kind == ListKind::Conversion ==> r.text@ == alert(
            "List for convert: ERROR GETTING DIRECTORY IN COMBOBOX"@,
        ),
{
    match kind {
        ListKind::Rotation => alert_notice("List Orientation: ERROR GETTING DIRECTORY IN COMBOBOX"),
        ListKind::Conversion => alert_notice("List for convert: ERROR GETTING DIRECTORY IN COMBOBOX"),
    }
}

} // verus!
