use mind_tree::node::path_iter;
use mind_tree::text::{blank, trimmed, trimmed_start};

#[test]
fn trimming() {
    assert_eq!(trimmed("  a b  "), "a b");
    assert_eq!(trimmed("a"), "a");
    assert_eq!(trimmed(""), "");
    assert_eq!(trimmed(" \t\r\n"), "");
    assert_eq!(trimmed_start("  a b  "), "a b  ");
    assert_eq!(trimmed_start("   "), "");
    assert_eq!(trimmed_start("x "), "x ");
}

#[test]
fn trimming_knows_the_white_space_of_unicode() {
    assert_eq!(trimmed("\u{a0}\u{2003}é t\u{3000}\u{2028}"), "é t");
    assert_eq!(trimmed_start("\u{1680}x\u{1680}"), "x\u{1680}");
    // a zero width space is no white space
    assert_eq!(trimmed("\u{200b}x\u{200b}"), "\u{200b}x\u{200b}");
}

#[test]
fn blank_texts() {
    assert!(blank(""));
    assert!(blank(" \t \u{a0}"));
    assert!(!blank(" . "));
    assert!(!blank("\u{200b}"));
}

#[test]
fn segments_of_paths() {
    assert_eq!(path_iter("a"), ["a"]);
    assert_eq!(path_iter("a/b"), ["a", "b"]);
    assert_eq!(path_iter("/a//b/"), ["a", "b"]);
    assert_eq!(path_iter("/ a / \t /b c/"), [" a ", "b c"]);
    assert_eq!(path_iter("///"), Vec::<&str>::new());
    assert_eq!(path_iter("  "), Vec::<&str>::new());
    assert_eq!(path_iter("/é/ü x"), ["é", "ü x"]);
}
