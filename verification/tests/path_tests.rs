use fractal_shell::paths::{check_path_safe, split_path, strip_leading_slashes};

#[test]
fn split_simple_path() {
    let segs = split_path(b"a/b.js");
    assert_eq!(segs, vec![b"a".to_vec(), b"b.js".to_vec()]);
}

#[test]
fn split_empty_path() {
    let segs = split_path(b"");
    assert_eq!(segs, vec![b"".to_vec()]);
}

#[test]
fn split_keeps_empty_segments() {
    let segs = split_path(b"/a//b/");
    assert_eq!(
        segs,
        vec![b"".to_vec(), b"a".to_vec(), b"".to_vec(), b"b".to_vec(), b"".to_vec()],
    );
}

#[test]
fn parent_segments_are_unsafe() {
    assert!(!check_path_safe(b"../../etc/passwd"));
    assert!(!check_path_safe(b".."));
    assert!(!check_path_safe(b"a/../b"));
    assert!(!check_path_safe(b"classes/.."));
}

#[test]
fn ordinary_paths_are_safe() {
    assert!(check_path_safe(b"classes/app.js"));
    assert!(check_path_safe(b"images/logo.png"));
    assert!(check_path_safe(b""));
}

#[test]
fn dots_inside_names_are_safe() {
    assert!(check_path_safe(b"..."));
    assert!(check_path_safe(b"a.."));
    assert!(check_path_safe(b"..a/b"));
    assert!(check_path_safe(b"a/./b"));
}

#[test]
fn encoded_traversal_is_one_harmless_segment() {
    assert!(check_path_safe(b"..%2f..%2fsecrets.txt"));
}

#[test]
fn strip_leading_removes_all_leading_separators() {
    assert_eq!(strip_leading_slashes(b"///a/b"), b"a/b".to_vec());
    assert_eq!(strip_leading_slashes(b"/"), b"".to_vec());
    assert_eq!(strip_leading_slashes(b"a/"), b"a/".to_vec());
    assert_eq!(strip_leading_slashes(b""), b"".to_vec());
}
