use siteproxy::html::rewrite_html;

fn proxied(attr: &str, endpoint: &str, resolved: &str) -> String {
    let tok = hex::encode(resolved);
    let cur = hex::encode("https://ex.com/dir");
    let base = hex::encode("https://ex.com");
    format!(
        r#"{}="{}?url={}&current_path={}&base_path={}""#,
        attr, endpoint, tok, cur, base
    )
}

#[test]
fn html_document_rewrite() {
    let url = b"https://ex.com/dir/page.html";
    let html = r#"<html><head><link rel="stylesheet" href="/s.css"><link rel="icon" href="/i.ico"><script src="app.js"></script></head><body><img src="//cdn.ex.com/p.jpg"><a href="https://other.com/q">x</a></body></html>"#;
    let out = rewrite_html(url, html.as_bytes()).unwrap();
    let expected = html
        .replace(
            r#"src="//cdn.ex.com/p.jpg""#,
            &proxied("src", "img", "https://cdn.ex.com/p.jpg"),
        )
        .replace(
            r#"href="/s.css""#,
            &proxied("href", "css", "https://ex.com/s.css"),
        )
        .replace(
            r#"src="app.js""#,
            &proxied("src", "js", "https://ex.com/dir/app.js"),
        )
        .replace(
            r#"href="https://other.com/q""#,
            &proxied("href", "html", "https://other.com/q"),
        );
    assert_eq!(String::from_utf8(out).unwrap(), expected);
}

#[test]
fn html_link_without_rel_is_stylesheet() {
    let url = b"https://ex.com/dir/page.html";
    let html = r#"<link href="/s.css">"#;
    let out = rewrite_html(url, html.as_bytes()).unwrap();
    let expected = html.replace(
        r#"href="/s.css""#,
        &proxied("href", "css", "https://ex.com/s.css"),
    );
    assert_eq!(String::from_utf8(out).unwrap(), expected);
}

#[test]
fn html_non_stylesheet_link_untouched() {
    let url = b"https://ex.com/dir/page.html";
    let html = r#"<head><link rel="preload" href="/f.woff"></head>"#;
    let out = rewrite_html(url, html.as_bytes()).unwrap();
    assert_eq!(out, html.as_bytes().to_vec());
}

#[test]
fn html_inline_style_urls_rewritten() {
    let url = b"https://ex.com/dir/page.html";
    let html = "<style>p{background:url(/x.png)}</style>";
    let out = rewrite_html(url, html.as_bytes()).unwrap();
    let tok = hex::encode("https://ex.com/x.png");
    assert_eq!(
        String::from_utf8(out).unwrap(),
        format!("<style>p{{background:url(/img?url={})}}</style>", tok)
    );
}

#[test]
fn html_malformed_url_errors() {
    assert!(rewrite_html(b"junk", b"<p>x</p>").is_err());
}
