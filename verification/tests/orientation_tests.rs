use photorotate::orientation::{
    conversion_text, list_conversions, list_rotations, needs_rotation, no_directory_notice, orientation_text,
    read_orientation, ListKind, OrientationTag, TaggedFile,
};

/// A JPEG holding only an Exif segment with one IFD entry.
fn jpeg_with_entry(tag: u16, typ: u16, count: u32, value: [u8; 4]) -> Vec<u8> {
    let mut tiff = vec![b'M', b'M', 0, 42, 0, 0, 0, 8, 0, 1];
    tiff.extend_from_slice(&tag.to_be_bytes());
    tiff.extend_from_slice(&typ.to_be_bytes());
    tiff.extend_from_slice(&count.to_be_bytes());
    tiff.extend_from_slice(&value);
    tiff.extend_from_slice(&[0, 0, 0, 0]);
    let mut seg = b"Exif\0\0".to_vec();
    seg.extend_from_slice(&tiff);
    let mut jpeg = vec![0xff, 0xd8, 0xff, 0xe1];
    jpeg.extend_from_slice(&((seg.len() + 2) as u16).to_be_bytes());
    jpeg.extend_from_slice(&seg);
    jpeg.extend_from_slice(&[0xff, 0xd9]);
    jpeg
}

#[test]
fn reads_the_orientation_of_a_jpeg() {
    match read_orientation(jpeg_with_entry(0x0112, 3, 1, [0, 6, 0, 0])) {
        OrientationTag::Value(v) => assert_eq!(v, 6),
        _ => panic!("expected an orientation"),
    }
    match read_orientation(jpeg_with_entry(0x0112, 3, 1, [0, 1, 0, 0])) {
        OrientationTag::Value(v) => assert_eq!(v, 1),
        _ => panic!("expected an orientation"),
    }
}

#[test]
fn orientation_missing() {
    match read_orientation(jpeg_with_entry(0x010f, 2, 4, *b"abc\0")) {
        OrientationTag::Missing => {}
        _ => panic!("expected no orientation"),
    }
}

#[test]
fn orientation_not_unsigned() {
    match read_orientation(jpeg_with_entry(0x0112, 2, 2, *b"6\0\0\0")) {
        OrientationTag::NotUnsigned => {}
        _ => panic!("expected a value that is no unsigned integer"),
    }
}

#[test]
fn unreadable_files() {
    match read_orientation(b"this is no image".to_vec()) {
        OrientationTag::Unreadable(e) => assert_eq!(e, "Unknown image format"),
        _ => panic!("expected an error"),
    }
    match read_orientation(vec![0xff, 0xd8, 0xff, 0xd9]) {
        OrientationTag::Unreadable(e) => assert_eq!(e, "No Exif data found in JPEG"),
        _ => panic!("expected an error"),
    }
}

#[test]
fn which_orientations_need_rotation() {
    for v in 0..10u32 {
        assert_eq!(needs_rotation(&OrientationTag::Value(v)), v == 3 || v == 6 || v == 8);
    }
    assert!(!needs_rotation(&OrientationTag::Missing));
    assert!(!needs_rotation(&OrientationTag::NotUnsigned));
    assert!(!needs_rotation(&OrientationTag::Unreadable("x".to_string())));
}

#[test]
fn labels() {
    assert_eq!(orientation_text(6), "Orientation: 6");
    assert_eq!(conversion_text("a.jpg", &OrientationTag::Value(8)), "Orientation: 8");
    assert_eq!(conversion_text("a.jpg", &OrientationTag::NotUnsigned), "no Value: a.jpg");
    assert_eq!(conversion_text("a.jpg", &OrientationTag::Missing), "error getting Value: a.jpg");
    assert_eq!(conversion_text("a.jpg", &OrientationTag::Unreadable("Broken JPEG file".to_string())), "Meta error : Broken JPEG file");
}

fn sample() -> Vec<TaggedFile> {
    vec![
        TaggedFile { name: "a.jpg".to_string(), tag: OrientationTag::Value(1) },
        TaggedFile { name: "b.jpg".to_string(), tag: OrientationTag::Value(6) },
        TaggedFile { name: "c.txt".to_string(), tag: OrientationTag::Unreadable("Unknown image format".to_string()) },
        TaggedFile { name: "d.jpg".to_string(), tag: OrientationTag::Value(3) },
        TaggedFile { name: "e.jpg".to_string(), tag: OrientationTag::Missing },
    ]
}

#[test]
fn rotation_listing() {
    let l = list_rotations(&sample());
    let rows: Vec<(String, String)> = l.rows.into_iter().map(|r| (r.name, r.label)).collect();
    assert_eq!(rows, vec![
        ("b.jpg".to_string(), "Orientation: 6".to_string()),
        ("d.jpg".to_string(), "Orientation: 3".to_string()),
    ]);
    assert!(!l.notice.markup);
    assert_eq!(l.notice.text, "2 files need rotation correction");
}

#[test]
fn rotation_listing_empty() {
    let l = list_rotations(&vec![TaggedFile { name: "a.jpg".to_string(), tag: OrientationTag::Value(1) }]);
    assert!(l.rows.is_empty());
    assert!(l.notice.markup);
    assert_eq!(l.notice.text, "<span color=\"#FF000000\">********* List Orientation: directory has no images to rotate **********</span>");
}

#[test]
fn conversion_listing() {
    let l = list_conversions(&sample());
    let labels: Vec<String> = l.rows.iter().map(|r| r.label.clone()).collect();
    assert_eq!(labels, vec![
        "Orientation: 1",
        "Orientation: 6",
        "Meta error : Unknown image format",
        "Orientation: 3",
        "error getting Value: e.jpg",
    ]);
    assert_eq!(l.notice.text, "5 files in directory");
    let empty = list_conversions(&Vec::new());
    assert!(empty.notice.markup);
    assert_eq!(empty.notice.text, "<span color=\"#FF000000\">********* List for convert: directory has no images **********</span>");
}

#[test]
fn no_directory_lines() {
    assert_eq!(no_directory_notice(ListKind::Rotation).text, "<span color=\"#FF000000\">********* List Orientation: ERROR GETTING DIRECTORY IN COMBOBOX **********</span>");
    assert_eq!(no_directory_notice(ListKind::Conversion).text, "<span color=\"#FF000000\">********* List for convert: ERROR GETTING DIRECTORY IN COMBOBOX **********</span>");
}
