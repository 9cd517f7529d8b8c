use gdd::scan::{count, find, is_match, rfind, strip_comment};

#[test]
fn is_match_compares_the_word_at_a_position() {
    assert!(is_match(b"a duck", b"duck", 2));
    assert!(!is_match(b"a duck", b"duck", 1));
    assert!(!is_match(b"a duck", b"duck", 3));
    assert!(!is_match(b"duc", b"duck", 0));
    assert!(!is_match(b"duck", b"duck", 7));
    assert!(is_match(b"duck", b"", 4));
}

#[test]
fn find_gives_the_first_match() {
    assert_eq!(find(b"goose duck goose", b"goose"), Some(0));
    assert_eq!(find(b"duck goose goose", b"goose"), Some(5));
    assert_eq!(find(b"duck duck", b"goose"), None);
    assert_eq!(find(b"", b"goose"), None);
    assert_eq!(find(b"goos", b"goose"), None);
}

#[test]
fn rfind_gives_the_last_match() {
    assert_eq!(rfind(b"duck goose duck", b"duck"), Some(11));
    assert_eq!(rfind(b"duck goose", b"duck"), Some(0));
    assert_eq!(rfind(b"goose", b"duck"), None);
    assert_eq!(rfind(b"", b"duck"), None);
}

#[test]
fn count_skips_each_match_whole() {
    assert_eq!(count(b"duck duck duck", b"duck"), 3);
    assert_eq!(count(b"duckduckduck", b"duck"), 3);
    assert_eq!(count(b"aaaa", b"aa"), 2);
    assert_eq!(count(b"aaa", b"aa"), 1);
    assert_eq!(count(b"", b"duck"), 0);
    assert_eq!(count(b"duc", b"duck"), 0);
}

#[test]
fn count_is_case_sensitive() {
    assert_eq!(count(b"Duck DUCK duck", b"duck"), 1);
    assert_eq!(count(b"Goose gOOse", b"goose"), 0);
}

#[test]
fn strip_comment_cuts_at_the_first_hash() {
    assert_eq!(strip_comment(b"duck # goose # duck"), b"duck ");
    assert_eq!(strip_comment(b"# all comment"), b"");
    assert_eq!(strip_comment(b"no comment"), b"no comment");
    assert_eq!(strip_comment(b""), b"");
}
