use manifester::text::{join, same_text, split_at_first, strip, trim};

#[test]
fn strip_leaves_out_both_characters() {
    assert_eq!(strip("a b_c", ' ', '_'), "abc");
    assert_eq!(strip("2019/07 trip", ' ', '/'), "201907trip");
    assert_eq!(strip("///", '/', '/'), "");
    assert_eq!(strip("", ' ', '_'), "");
    assert_eq!(strip("서 울", ' ', '_'), "서울");
}

#[test]
fn same_text_compares_contents() {
    assert!(same_text("", ""));
    assert!(same_text("Seoul", "Seoul"));
    assert!(!same_text("Seoul", "seoul"));
    assert!(!same_text("Seoul", "Seou"));
    assert!(!same_text("Seoul", "Seoul "));
    assert!(same_text("서울", "서울"));
    assert!(!same_text("서울", "서운"));
}

#[test]
fn split_at_first_keeps_the_separator_in_the_tail() {
    assert_eq!(
        split_at_first("2019/07", '/'),
        Some(("2019".to_string(), "/07".to_string()))
    );
    assert_eq!(
        split_at_first("2019/07/01", '/'),
        Some(("2019".to_string(), "/07/01".to_string()))
    );
    assert_eq!(
        split_at_first("/07", '/'),
        Some(("".to_string(), "/07".to_string()))
    );
    assert_eq!(
        split_at_first("2019/", '/'),
        Some(("2019".to_string(), "/".to_string()))
    );
    assert_eq!(split_at_first("201907", '/'), None);
    assert_eq!(split_at_first("", '/'), None);
}

#[test]
fn join_puts_the_separator_between_parts() {
    assert_eq!(join(&Vec::new(), ", "), "");
    assert_eq!(join(&vec!["a".to_string()], ", "), "a");
    assert_eq!(
        join(&vec!["a".to_string(), "b".to_string(), "c".to_string()], ", "),
        "a, b, c"
    );
    assert_eq!(join(&vec!["".to_string(), "".to_string()], "&"), "&");
}

#[test]
fn trim_removes_white_space_around_the_text() {
    assert_eq!(trim("  a b \n"), "a b");
    assert_eq!(trim("\t\r\n x"), "x");
    assert_eq!(trim("x"), "x");
    assert_eq!(trim(""), "");
    assert_eq!(trim(" \n\t "), "");
    assert_eq!(trim("\u{a0}\u{3000}wide\u{2003}"), "wide");
    assert_eq!(trim(" 서울 "), "서울");
}

#[test]
fn trim_agrees_with_the_standard_library() {
    let samples = [
        "", " ", "a", " a", "a ", " a b ", "\n\na\n\n", "\u{85}x\u{85}", "x\u{200b}", "\u{1680}y",
    ];
    for sample in samples {
        assert_eq!(trim(sample), sample.trim());
    }
}
