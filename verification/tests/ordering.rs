use qc_analytics::text::{
    compare_bytes, copy_optional_text, copy_text, ends_with, optional_text_before_or_equal,
    text_before_or_equal,
};

const SAMPLES: [&str; 14] = [
    "",
    " ",
    "10",
    "2",
    "2024-10-21",
    "2024-10-21 09:00:00",
    "2024-10-22",
    "21/10/2024",
    "A",
    "a",
    "ab",
    "b",
    "\u{e9}t\u{e9}",
    "\u{1f600}",
];

#[test]
fn text_order_is_the_byte_order_of_strings() {
    for a in SAMPLES {
        for b in SAMPLES {
            assert_eq!(text_before_or_equal(a, b), a <= b, "{:?} {:?}", a, b);
            assert_eq!(compare_bytes(a.as_bytes(), b.as_bytes()), a.as_bytes() <= b.as_bytes());
        }
    }
}

#[test]
fn prefix_comes_first() {
    assert!(text_before_or_equal("2024-10-21", "2024-10-21 09:00:00"));
    assert!(!text_before_or_equal("2024-10-21 09:00:00", "2024-10-21"));
    assert!(text_before_or_equal("", ""));
    assert!(text_before_or_equal("", "a"));
    assert!(!text_before_or_equal("a", ""));
    assert!(compare_bytes(&[], &[0]));
    assert!(compare_bytes(&[1, 2], &[1, 2]));
    assert!(compare_bytes(&[1, 2], &[1, 3]));
    assert!(!compare_bytes(&[1, 3], &[1, 2, 9]));
    assert!(compare_bytes(&[0x7f], &[0x80]));
}

#[test]
fn absent_text_comes_before_every_text() {
    let none: Option<String> = None;
    let empty = Some(String::new());
    let a = Some("a".to_string());
    let b = Some("b".to_string());
    assert!(optional_text_before_or_equal(&none, &none));
    assert!(optional_text_before_or_equal(&none, &empty));
    assert!(optional_text_before_or_equal(&none, &a));
    assert!(!optional_text_before_or_equal(&empty, &none));
    assert!(!optional_text_before_or_equal(&a, &none));
    assert!(optional_text_before_or_equal(&a, &b));
    assert!(!optional_text_before_or_equal(&b, &a));
    assert!(optional_text_before_or_equal(&a, &a));
}

#[test]
fn text_ends_with_its_tail() {
    for a in SAMPLES {
        for b in SAMPLES {
            assert_eq!(ends_with(a, b), a.ends_with(b), "{:?} {:?}", a, b);
        }
    }
    assert!(ends_with("data/qc_analytics.sqlite", "qc_analytics.sqlite"));
    assert!(ends_with("qc_analytics.sqlite", "qc_analytics.sqlite"));
    assert!(ends_with("qc_analytics.sqlite", ""));
    assert!(ends_with("", ""));
    assert!(!ends_with("", "a"));
    assert!(!ends_with("analytics.sqlite", "qc_analytics.sqlite"));
    assert!(!ends_with("qc_analytics.sqlite-wal", "qc_analytics.sqlite"));
    assert!(!ends_with("qc_analytics.SQLITE", "qc_analytics.sqlite"));
    assert!(ends_with("caf\u{e9}", "f\u{e9}"));
    assert!(!ends_with("caf\u{e9}", "fe"));
    assert!(ends_with("a\u{1f600}b", "\u{1f600}b"));
}

#[test]
fn copies_are_equal() {
    assert_eq!(copy_text(&"\u{e9}t\u{e9} 1".to_string()), "\u{e9}t\u{e9} 1");
    assert_eq!(copy_text(&String::new()), "");
    assert_eq!(copy_optional_text(&Some("x".to_string())), Some("x".to_string()));
    assert_eq!(copy_optional_text(&None), None);
}
