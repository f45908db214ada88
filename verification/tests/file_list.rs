use clip_upload::file_list::{file_paths, first_file_path};

#[test]
fn first_of_two_files_is_taken() {
    assert_eq!(
        first_file_path("file:///tmp/a.txt\r\nfile:///tmp/b.txt"),
        Some("/tmp/a.txt".to_string())
    );
}

#[test]
fn every_file_is_listed_in_order() {
    assert_eq!(
        file_paths("file:///tmp/a.txt\r\nfile:///tmp/b.txt\r\n"),
        vec!["/tmp/a.txt".to_string(), "/tmp/b.txt".to_string()]
    );
}

#[test]
fn escaped_spaces_are_spaces() {
    assert_eq!(
        first_file_path("file:///home/me/my%20holiday%20photo.jpg\r\n"),
        Some("/home/me/my holiday photo.jpg".to_string())
    );
}

#[test]
fn other_escapes_stay() {
    assert_eq!(
        first_file_path("file:///tmp/100%25.txt"),
        Some("/tmp/100%25.txt".to_string())
    );
}

#[test]
fn empty_list_names_no_file() {
    assert_eq!(first_file_path(""), None);
    assert_eq!(first_file_path("\r\n\r\n"), None);
    assert_eq!(first_file_path("file://"), None);
    assert_eq!(file_paths("file://\r\nfile://\r\n"), Vec::<String>::new());
}

#[test]
fn empty_entries_are_passed_over() {
    assert_eq!(
        first_file_path("\r\n\r\nfile:///tmp/late.bin\r\n"),
        Some("/tmp/late.bin".to_string())
    );
}

#[test]
fn scheme_is_taken_out_wherever_it_stands() {
    assert_eq!(
        first_file_path("/tmp/file://x/file://y"),
        Some("/tmp/x/y".to_string())
    );
    assert_eq!(first_file_path("fifile://le:///tmp/z"), Some("file:///tmp/z".to_string()));
}

#[test]
fn line_feed_goes_before_spaces_are_read() {
    assert_eq!(first_file_path("file:///a%\n20b"), Some("/a b".to_string()));
    assert_eq!(first_file_path("file:///a\nb"), Some("/ab".to_string()));
}

#[test]
fn entry_without_scheme_is_a_path() {
    assert_eq!(first_file_path("/tmp/plain"), Some("/tmp/plain".to_string()));
}

#[test]
fn path_keeps_characters_beyond_ascii() {
    assert_eq!(
        first_file_path("file:///tmp/\u{e9}t\u{e9}%20\u{1f600}.png"),
        Some("/tmp/\u{e9}t\u{e9} \u{1f600}.png".to_string())
    );
}
