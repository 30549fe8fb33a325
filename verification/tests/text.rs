use gir::text::{
    decimal_string, extend_with, place_of, read_u16, split_at_dot, starts_with, str_eq, Place,
};

#[test]
fn str_eq_compares_characters() {
    assert!(str_eq("", ""));
    assert!(str_eq("copy", "copy"));
    assert!(!str_eq("copy", "Copy"));
    assert!(!str_eq("copy", "cop"));
    assert!(!str_eq("cop", "copy"));
    assert!(str_eq("grün", "grün"));
    assert!(!str_eq("grün", "grun"));
}

#[test]
fn place_of_orders_as_strings_do() {
    assert_eq!(place_of("a", "b"), Place::Before);
    assert_eq!(place_of("b", "a"), Place::After);
    assert_eq!(place_of("a", "a"), Place::Same);
    assert_eq!(place_of("", ""), Place::Same);
    assert_eq!(place_of("", "a"), Place::Before);
    assert_eq!(place_of("ab", "a"), Place::After);
    assert_eq!(place_of("Z", "a"), Place::Before);
    assert_eq!(place_of("a_b", "ab"), Place::Before);
    assert_eq!(place_of("é", "z"), Place::After);
    let mut names = vec!["g_b", "g_a", "G", "g", "ga", "g_"];
    names.sort();
    for i in 0..names.len() {
        for j in 0..names.len() {
            let expected = if i < j {
                Place::Before
            } else if i == j {
                Place::Same
            } else {
                Place::After
            };
            assert_eq!(place_of(names[i], names[j]), expected);
        }
    }
}

#[test]
fn decimal_string_writes_numbers() {
    assert_eq!(decimal_string(0), "0");
    assert_eq!(decimal_string(7), "7");
    assert_eq!(decimal_string(10), "10");
    assert_eq!(decimal_string(209), "209");
    assert_eq!(decimal_string(65535), "65535");
}

#[test]
fn read_u16_reads_what_std_reads() {
    assert_eq!(read_u16("0"), Some(0));
    assert_eq!(read_u16("12"), Some(12));
    assert_eq!(read_u16("007"), Some(7));
    assert_eq!(read_u16("+5"), Some(5));
    assert_eq!(read_u16("65535"), Some(65535));
    assert_eq!(read_u16("65536"), None);
    assert_eq!(read_u16("65540"), None);
    assert_eq!(read_u16("70000"), None);
    assert_eq!(read_u16("000065535"), Some(65535));
    assert_eq!(read_u16(""), None);
    assert_eq!(read_u16("+"), None);
    assert_eq!(read_u16("-1"), None);
    assert_eq!(read_u16("++1"), None);
    assert_eq!(read_u16("1a"), None);
    assert_eq!(read_u16("ff"), None);
    assert_eq!(read_u16(" 1"), None);
    for text in ["0", "12", "+5", "65535", "65536", "", "+", "-1", "1a", "99999x", "٣"] {
        assert_eq!(read_u16(text), text.parse::<u16>().ok());
    }
}

#[test]
fn split_at_dot_cuts_at_the_first_dot() {
    assert_eq!(split_at_dot("options.work_mode"), ("options", Some("work_mode")));
    assert_eq!(split_at_dot("a.b.c"), ("a", Some("b.c")));
    assert_eq!(split_at_dot("name"), ("name", None));
    assert_eq!(split_at_dot(""), ("", None));
    assert_eq!(split_at_dot("."), ("", Some("")));
    assert_eq!(split_at_dot("a."), ("a", Some("")));
    assert_eq!(split_at_dot(".a"), ("", Some("a")));
    assert_eq!(split_at_dot("é.ü"), ("é", Some("ü")));
}

#[test]
fn starts_with_tests_the_opening() {
    assert!(starts_with("sourceview-sys", "sourceview"));
    assert!(starts_with("sourceview", "sourceview"));
    assert!(!starts_with("sourcevie", "sourceview"));
    assert!(!starts_with("gtk-sourceview", "sourceview"));
    assert!(starts_with("anything", ""));
}

#[test]
fn extend_with_appends_copies() {
    let mut list = vec!["a".to_owned()];
    let more = vec!["b".to_owned(), "c".to_owned()];
    extend_with(&mut list, &more);
    assert_eq!(list, vec!["a", "b", "c"]);
    assert_eq!(more.len(), 2);
}
