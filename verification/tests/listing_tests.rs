use photorotate::groups::{GroupError, GroupRequest};
use photorotate::listing::{has_suffix, icon_dimensions, is_image_file_name, plan_page, DirFile};

fn files(names: &[&str]) -> Vec<DirFile> {
    names
        .iter()
        .map(|n| DirFile { name: n.to_string(), path: format!("/photos/{}", n) })
        .collect()
}

#[test]
fn image_names_by_extension() {
    for name in ["a.jpg", "a.JPG", "b.jpeg", "b.JPEG", "c.png", "c.PNG", ".png"] {
        assert!(is_image_file_name(name), "{}", name);
    }
    for name in ["a.Jpg", "a.gif", "jpg", "a.jpg.txt", "", "png", "a.tif"] {
        assert!(!is_image_file_name(name), "{}", name);
    }
}

#[test]
fn has_suffix_like_ends_with() {
    for (s, x) in [("abc", "bc"), ("abc", "abc"), ("abc", "abcd"), ("abc", ""), ("", ""), ("été", "té"), ("abc", "ab")] {
        assert_eq!(has_suffix(s, x), s.ends_with(x), "{:?} {:?}", s, x);
    }
}

#[test]
fn plan_page_sorts_and_clamps() {
    let page = plan_page(
        GroupRequest { from: 2, to: 16, icon: 160 },
        files(&["c.jpg", "notes.txt", "a.png", "b.JPEG"]),
    )
    .ok()
    .unwrap();
    assert_eq!(page.names, vec!["a.png", "b.JPEG", "c.jpg"]);
    assert_eq!(page.paths, vec!["/photos/a.png", "/photos/b.JPEG", "/photos/c.jpg"]);
    assert_eq!((page.start, page.end), (1, 3));
    assert!(!page.notice.markup);
    assert_eq!(page.notice.text, "files from 2 to 3 displayed of total files 3");
}

#[test]
fn plan_page_within_the_list() {
    let names: Vec<String> = (0..20).map(|i| format!("img{:02}.jpg", i)).collect();
    let refs: Vec<&str> = names.iter().map(|s| s.as_str()).collect();
    let page = plan_page(GroupRequest { from: 5, to: 8, icon: 100 }, files(&refs)).ok().unwrap();
    assert_eq!((page.start, page.end), (4, 8));
    assert_eq!(&page.names[page.start..page.end], &["img04.jpg", "img05.jpg", "img06.jpg", "img07.jpg"]);
    assert_eq!(page.notice.text, "files from 5 to 8 displayed of total files 20");
}

#[test]
fn plan_page_paths_sorted_on_their_own() {
    let list = vec![
        DirFile { name: "b.jpg".to_string(), path: "/x/1.jpg".to_string() },
        DirFile { name: "a.jpg".to_string(), path: "/x/2.jpg".to_string() },
    ];
    let page = plan_page(GroupRequest { from: 1, to: 2, icon: 100 }, list).ok().unwrap();
    assert_eq!(page.names, vec!["a.jpg", "b.jpg"]);
    assert_eq!(page.paths, vec!["/x/1.jpg", "/x/2.jpg"]);
}

#[test]
fn plan_page_from_beyond_count() {
    let r = plan_page(GroupRequest { from: 4, to: 10, icon: 100 }, files(&["a.jpg", "b.jpg", "c.txt", "d.png"]));
    match r {
        Err(e) => {
            assert_eq!(e, GroupError::FromBeyondCount { from: 4, count: 3 });
            assert_eq!(
                e.notice().text,
                "<span color=\"#FF000000\">********* List: From value 4 Greater than number of files of 3 **********</span>"
            );
        }
        Ok(_) => panic!("expected an error"),
    }
}

#[test]
fn plan_page_from_equal_to_count() {
    let page = plan_page(GroupRequest { from: 3, to: 3, icon: 100 }, files(&["a.jpg", "b.jpg", "c.jpg"])).ok().unwrap();
    assert_eq!((page.start, page.end), (2, 3));
}

#[test]
fn icon_dimensions_examples() {
    assert_eq!(icon_dimensions(160, 4000, 3000), (160, 120));
    assert_eq!(icon_dimensions(160, 3000, 4000), (120, 160));
    assert_eq!(icon_dimensions(100, 50, 50), (100, 100));
    assert_eq!(icon_dimensions(255, 1, 1000), (0, 255));
    assert_eq!(icon_dimensions(50, 7, 3), (50, 21));
}
