use termchat::text::{eq_ignore_ascii_case, is_whitespace, space_string, split_once_space, str_equal, trim};

#[test]
fn trim_removes_unicode_white_space() {
    assert_eq!(trim("  lodge\n"), "lodge");
    assert_eq!(trim("\u{3000}a b\u{2003}\t"), "a b");
    assert_eq!(trim(" \n\t "), "");
    assert_eq!(trim(""), "");
    assert_eq!(trim("x"), "x");
}

#[test]
fn whitespace_agrees_with_std() {
    for c in ['\t', '\n', ' ', '\u{85}', '\u{a0}', '\u{1680}', '\u{2000}', '\u{200a}', '\u{2028}', '\u{3000}', 'a', '\u{200b}', '\u{feff}', '┌'] {
        assert_eq!(is_whitespace(c), c.is_whitespace(), "{c:?}");
    }
}

#[test]
fn split_at_first_space() {
    assert_eq!(split_once_space("/join a b\n"), ("/join", "a b\n"));
    assert_eq!(split_once_space("/quit\n"), ("/quit\n", ""));
    assert_eq!(split_once_space(" x"), ("", "x"));
    assert_eq!(split_once_space("é ü"), ("é", "ü"));
}

#[test]
fn ascii_case_comparison() {
    assert!(eq_ignore_ascii_case("/LEAVE", "/leave"));
    assert!(!eq_ignore_ascii_case("/leav", "/leave"));
    assert!(eq_ignore_ascii_case("ÉA", "Éa"));
    assert!(!eq_ignore_ascii_case("É", "é"));
}

#[test]
fn equality_and_spaces() {
    assert!(str_equal("abc", "abc"));
    assert!(!str_equal("abc", "abd"));
    assert_eq!(space_string(3), "   ");
    assert_eq!(space_string(0), "");
}
