use siteproxy::urls::{get_url_path, resolve};

#[test]
fn anchors_of_page() {
    let (cur, base) = get_url_path(b"https://ex.com/dir/page.html").unwrap();
    assert_eq!(cur, b"https://ex.com/dir".to_vec());
    assert_eq!(base, b"https://ex.com".to_vec());
}

#[test]
fn anchors_drop_query_and_fragment() {
    let (cur, base) = get_url_path(b"https://ex.com/a/b/c.png?x=1#frag").unwrap();
    assert_eq!(cur, b"https://ex.com/a/b".to_vec());
    assert_eq!(base, b"https://ex.com".to_vec());
}

#[test]
fn anchors_without_path() {
    let (cur, base) = get_url_path(b"https://ex.com").unwrap();
    assert_eq!(cur, b"https://ex.com".to_vec());
    assert_eq!(base, b"https://ex.com".to_vec());
}

#[test]
fn anchors_of_root_slash() {
    let (cur, base) = get_url_path(b"http://ex.com/").unwrap();
    assert_eq!(cur, b"http://ex.com".to_vec());
    assert_eq!(base, b"http://ex.com".to_vec());
}

#[test]
fn anchors_of_top_level_file() {
    let (cur, base) = get_url_path(b"http://ex.com/index.html").unwrap();
    assert_eq!(cur, b"http://ex.com".to_vec());
    assert_eq!(base, b"http://ex.com".to_vec());
}

#[test]
fn anchors_with_consecutive_slashes() {
    let (cur, base) = get_url_path(b"https://ex.com//x").unwrap();
    assert_eq!(cur, b"https://ex.com".to_vec());
    assert_eq!(base, b"https://ex.com".to_vec());
    let (cur, base) = get_url_path(b"https://ex.com/x//").unwrap();
    assert_eq!(cur, b"https://ex.com/x".to_vec());
    assert_eq!(base, b"https://ex.com".to_vec());
    let (cur, _) = get_url_path(b"https://ex.com/a//b").unwrap();
    assert_eq!(cur, b"https://ex.com/a".to_vec());
}

#[test]
fn anchors_reject_malformed() {
    assert!(get_url_path(b"notaurl").is_err());
    assert!(get_url_path(b"://host/x").is_err());
    assert!(get_url_path(b"https://").is_err());
    assert!(get_url_path(b"1http://x/").is_err());
    assert!(get_url_path(b"").is_err());
}

#[test]
fn resolve_absolute_unchanged() {
    assert_eq!(resolve(b"https://a/b", b"https://c/d", b"https://c"), b"https://a/b".to_vec());
    assert_eq!(resolve(b"http://a/b", b"https://c/d", b"https://c"), b"http://a/b".to_vec());
}

#[test]
fn resolve_protocol_relative() {
    assert_eq!(
        resolve(b"//cdn.example.com/x.js", b"https://base/path", b"https://base"),
        b"https://cdn.example.com/x.js".to_vec()
    );
    assert_eq!(
        resolve(b"//cdn.example.com/x.js", b"https://base/path", b"http://base"),
        b"http://cdn.example.com/x.js".to_vec()
    );
}

#[test]
fn resolve_root_relative() {
    assert_eq!(
        resolve(b"/a/b.css", b"https://ex.com/dir", b"https://ex.com"),
        b"https://ex.com/a/b.css".to_vec()
    );
}

#[test]
fn resolve_document_relative() {
    assert_eq!(
        resolve(b"img/x.png", b"https://ex.com/dir", b"https://ex.com"),
        b"https://ex.com/dir/img/x.png".to_vec()
    );
}
