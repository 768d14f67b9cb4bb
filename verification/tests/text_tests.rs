use photorotate::sorting::{sort_names, text_le};
use photorotate::text::{decimal_text, parse_i32};

#[test]
fn parse_i32_accepts_plain_and_signed_integers() {
    assert_eq!(parse_i32("42"), Some(42));
    assert_eq!(parse_i32("+7"), Some(7));
    assert_eq!(parse_i32("-5"), Some(-5));
    assert_eq!(parse_i32("007"), Some(7));
    assert_eq!(parse_i32("0"), Some(0));
    assert_eq!(parse_i32("2147483647"), Some(i32::MAX));
    assert_eq!(parse_i32("-2147483648"), Some(i32::MIN));
    assert_eq!(parse_i32("00000000000000000016"), Some(16));
}

#[test]
fn parse_i32_rejects_what_str_parse_rejects() {
    for text in ["", "+", "-", "abc", "12a", " 1", "1 ", "2147483648", "-2147483649", "+-1", "1.5", "٣"] {
        assert_eq!(parse_i32(text), text.parse::<i32>().ok(), "text {:?}", text);
        assert_eq!(parse_i32(text), None);
    }
}

#[test]
fn parse_i32_agrees_with_str_parse() {
    for text in ["16", "160", "-99", "+0", "-0", "99999999999", "0x10", "1e3", "１"] {
        assert_eq!(parse_i32(text), text.parse::<i32>().ok(), "text {:?}", text);
    }
}

#[test]
fn decimal_text_writes_like_to_string() {
    for n in [0u64, 7, 10, 16, 255, 1000, 4294967295, u64::MAX] {
        assert_eq!(decimal_text(n), n.to_string());
    }
}

#[test]
fn decimal_text_reads_back() {
    for n in [0u64, 1, 17, 32, 65535, 2147483647] {
        assert_eq!(parse_i32(&decimal_text(n)), Some(n as i32));
    }
}

#[test]
fn text_le_orders_like_string() {
    let pairs = [("a", "b"), ("b", "a"), ("a", "a"), ("", "a"), ("a", ""), ("ab", "a"), ("IMG_2.jpg", "IMG_10.jpg"), ("Z", "a"), ("é", "z")];
    for (a, b) in pairs {
        assert_eq!(text_le(a, b), a.to_string() <= b.to_string(), "{:?} {:?}", a, b);
    }
}

#[test]
fn sort_names_sorts_like_vec_sort() {
    let names: Vec<String> = ["b.jpg", "a.png", "C.JPG", "a.png", "IMG_10.jpg", "IMG_2.jpg", "é.jpg", ""]
        .iter()
        .map(|s| s.to_string())
        .collect();
    let mut expected = names.clone();
    expected.sort();
    assert_eq!(sort_names(names), expected);
}

#[test]
fn sort_names_of_nothing() {
    assert_eq!(sort_names(Vec::new()), Vec::<String>::new());
}

#[test]
fn sorting_depends_on_the_names_only() {
    let a: Vec<String> = ["d.jpg", "a.jpg", "c.png", "b.jpg"].iter().map(|s| s.to_string()).collect();
    let b: Vec<String> = ["c.png", "b.jpg", "d.jpg", "a.jpg"].iter().map(|s| s.to_string()).collect();
    let sa = sort_names(a);
    assert_eq!(sa, sort_names(b));
    assert_eq!(sort_names(sa.clone()), sa);
}
