use daedalus::text::{
    chars_of, contains, ends_with, find_name, joined, push_decimal, replace_all, text_of,
    to_ascii_lowercase,
};

#[test]
fn numbers_are_written_in_decimal() {
    let mut text = "n=".to_string();
    push_decimal(&mut text, 0);
    push_decimal(&mut text, 907);
    push_decimal(&mut text, u64::MAX);
    assert_eq!(text, "n=090718446744073709551615");
}

#[test]
fn texts_are_searched() {
    assert!(contains("abcabd", "abd"));
    assert!(contains("abc", ""));
    assert!(!contains("abc", "abcd"));
    assert!(ends_with("L_R_RED", "RED"));
    assert!(!ends_with("RED", "L_RED"));
    assert_eq!(joined("a", "b"), "ab");
    assert_eq!(to_ascii_lowercase("ÀBc-Ü"), "Àbc-Ü");
}

#[test]
fn replacing_goes_on_behind_the_replacement() {
    let replace = |text, pattern, with| {
        text_of(&replace_all(
            &chars_of(text),
            &chars_of(pattern),
            &chars_of(with),
        ))
    };
    assert_eq!(replace("aaa", "aa", "a"), "aa");
    assert_eq!(replace("x AM y AM", " AM", "!"), "x! y!");
    assert_eq!(replace("none", "zz", "!"), "none");
}

#[test]
fn the_last_of_equal_names_is_found() {
    let names = vec![
        ("a".to_string(), 1),
        ("b".to_string(), 2),
        ("a".to_string(), 3),
    ];
    assert_eq!(find_name(&names, "a"), Some(3));
    assert_eq!(find_name(&names, "c"), None);
}
