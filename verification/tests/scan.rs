use clip_upload::scan::{remove, replace, split_at, starts_with};
use clip_upload::text::{chars_of, string_of};

fn c(s: &str) -> Vec<char> {
    s.chars().collect()
}

#[test]
fn chars_and_back() {
    assert_eq!(chars_of("a\u{e9}\u{1f600}"), vec!['a', '\u{e9}', '\u{1f600}']);
    assert_eq!(chars_of(""), Vec::<char>::new());
    assert_eq!(string_of(&vec!['h', 'i', '\u{1f600}']), "hi\u{1f600}".to_string());
    assert_eq!(string_of(&Vec::new()), String::new());
}

#[test]
fn replace_is_left_to_right_without_overlap() {
    assert_eq!(replace(&c("aaaa"), &c("aa"), &c("b")), c("bb"));
    assert_eq!(replace(&c("aaa"), &c("aa"), &c("b")), c("ba"));
    assert_eq!(replace(&c("abcabc"), &c("bc"), &c("")), c("aa"));
    assert_eq!(replace(&c("abc"), &c("x"), &c("y")), c("abc"));
    assert_eq!(replace(&c("a-b"), &c("-"), &c("--")), c("a--b"));
    assert_eq!(replace(&c(""), &c("x"), &c("y")), c(""));
}

#[test]
fn replace_agrees_with_std() {
    for (s, pat, to) in [
        ("file:///tmp/a", "file://", ""),
        ("a%20b%20", "%20", " "),
        ("%%2020", "%20", " "),
        ("xxxxx", "xx", "xy"),
    ] {
        assert_eq!(string_of(&replace(&c(s), &c(pat), &c(to))), s.replace(pat, to));
    }
}

#[test]
fn empty_pattern_changes_nothing() {
    assert_eq!(replace(&c("abc"), &c(""), &c("-")), c("abc"));
}

#[test]
fn split_keeps_empty_pieces() {
    assert_eq!(split_at(&c("a,b"), ','), vec![c("a"), c("b")]);
    assert_eq!(split_at(&c(""), ','), vec![c("")]);
    assert_eq!(split_at(&c(","), ','), vec![c(""), c("")]);
    assert_eq!(split_at(&c("a,,b,"), ','), vec![c("a"), c(""), c("b"), c("")]);
    assert_eq!(split_at(&c("abc"), ','), vec![c("abc")]);
}

#[test]
fn split_agrees_with_std() {
    for s in ["", "\r", "a\rb", "\ra\r\rb\r", "no separator"] {
        let ours: Vec<String> = split_at(&c(s), '\r').iter().map(string_of).collect();
        let theirs: Vec<String> = s.split('\r').map(|p| p.to_string()).collect();
        assert_eq!(ours, theirs);
    }
}

#[test]
fn remove_drops_every_occurrence() {
    assert_eq!(remove(&c("\na\n\nb\n"), '\n'), c("ab"));
    assert_eq!(remove(&c("ab"), '\n'), c("ab"));
    assert_eq!(remove(&c(""), '\n'), c(""));
}

#[test]
fn prefix_is_found() {
    assert!(starts_with(&c("image/png"), &c("image/")));
    assert!(starts_with(&c("image/"), &c("image/")));
    assert!(!starts_with(&c("image"), &c("image/")));
    assert!(starts_with(&c("anything"), &c("")));
    assert!(!starts_with(&c(""), &c("a")));
    assert!(!starts_with(&c("xab"), &c("ab")));
}
