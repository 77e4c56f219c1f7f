use deckery_auth::{contains, is_known_controller, is_whitespace, trim};

#[test]
fn trim_removes_surrounding_white_space() {
    assert_eq!(trim("  abc \n"), "abc");
    assert_eq!(trim("abc"), "abc");
    assert_eq!(trim("\t\u{3000}a b\u{85}"), "a b");
    assert_eq!(trim(" \n\t "), "");
    assert_eq!(trim(""), "");
}

#[test]
fn trim_agrees_with_std() {
    for s in ["  x", "x  ", "\u{a0}\u{2028}y z\u{205f}", "\r\n", "é ", " ü"] {
        assert_eq!(trim(s), s.trim());
    }
}

#[test]
fn whitespace_agrees_with_std() {
    for c in ['\t', '\n', ' ', '\u{85}', '\u{a0}', '\u{1680}', '\u{2000}', '\u{200a}', '\u{2028}', '\u{3000}', 'a', '\u{200b}', '0'] {
        assert_eq!(is_whitespace(c), c.is_whitespace(), "{:?}", c);
    }
}

#[test]
fn contains_finds_substrings() {
    assert!(contains("Steam Deck Controller", "Deck"));
    assert!(contains("abc", ""));
    assert!(contains("", ""));
    assert!(!contains("", "a"));
    assert!(!contains("ab", "abc"));
    assert!(contains("aab", "ab"));
    assert!(!contains("abd", "abc"));
}

#[test]
fn known_controllers() {
    assert!(is_known_controller("Steam Deck Controller"));
    assert!(is_known_controller("Valve Software Steam Controller"));
    assert!(is_known_controller("Microsoft X-Box 360 pad 0"));
    assert!(is_known_controller("Xbox Wireless Controller"));
    assert!(!is_known_controller("AT Translated Set 2 keyboard"));
    assert!(!is_known_controller(""));
}
