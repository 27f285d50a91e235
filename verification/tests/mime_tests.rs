use fractal_shell::mime::{get_mime_type, mime_for_extension};

#[test]
fn html_extension() {
    assert_eq!(get_mime_type(b"index.html"), "text/html");
}

#[test]
fn css_extension() {
    assert_eq!(get_mime_type(b"style/site.css"), "text/css");
}

#[test]
fn js_extension() {
    assert_eq!(get_mime_type(b"classes/app.js"), "application/javascript");
}

#[test]
fn json_extension() {
    assert_eq!(get_mime_type(b"data.json"), "application/json");
}

#[test]
fn png_extension() {
    assert_eq!(get_mime_type(b"images/logo.png"), "image/png");
}

#[test]
fn jpg_and_jpeg_extensions() {
    assert_eq!(get_mime_type(b"photo.jpg"), "image/jpeg");
    assert_eq!(get_mime_type(b"photo.jpeg"), "image/jpeg");
}

#[test]
fn gif_extension() {
    assert_eq!(get_mime_type(b"anim.gif"), "image/gif");
}

#[test]
fn svg_extension() {
    assert_eq!(get_mime_type(b"icon.svg"), "image/svg+xml");
}

#[test]
fn unknown_extension_is_binary() {
    assert_eq!(get_mime_type(b"archive.zip"), "application/octet-stream");
}

#[test]
fn missing_extension_is_binary() {
    assert_eq!(get_mime_type(b"Makefile"), "application/octet-stream");
}

#[test]
fn hidden_file_has_no_extension() {
    assert_eq!(get_mime_type(b".gitignore"), "application/octet-stream");
    assert_eq!(get_mime_type(b"conf/.html"), "application/octet-stream");
}

#[test]
fn trailing_dot_is_empty_extension() {
    assert_eq!(get_mime_type(b"notes."), "application/octet-stream");
}

#[test]
fn extension_comes_from_file_name_only() {
    assert_eq!(get_mime_type(b"bundle.js/readme"), "application/octet-stream");
    assert_eq!(get_mime_type(b"a.css/b.png"), "image/png");
}

#[test]
fn mapping_is_case_sensitive() {
    assert_eq!(get_mime_type(b"INDEX.HTML"), "application/octet-stream");
}

#[test]
fn mapping_is_stable_across_calls() {
    let first = get_mime_type(b"classes/app.js");
    let second = get_mime_type(b"classes/app.js");
    assert_eq!(first, second);
}

#[test]
fn extension_table_directly() {
    assert_eq!(mime_for_extension(b"png"), "image/png");
    assert_eq!(mime_for_extension(b"pngx"), "application/octet-stream");
    assert_eq!(mime_for_extension(b""), "application/octet-stream");
}

#[test]
fn empty_path_is_binary() {
    assert_eq!(get_mime_type(b""), "application/octet-stream");
}
