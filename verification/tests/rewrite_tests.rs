use siteproxy::rewrite::{replace_css, replace};

#[test]
fn css_data_uri_unchanged() {
    let css = b"a{background:url(data:image/png;base64,AAAA)}";
    assert_eq!(replace_css(css, b"https://ex.com/dir", b"https://ex.com"), css.to_vec());
}

#[test]
fn css_unquoted_rewrites() {
    let tok = hex::encode("https://ex.com/x.png");
    let out = replace_css(b"a{background:url(/x.png)}", b"https://ex.com/dir", b"https://ex.com");
    assert_eq!(out, format!("a{{background:url(/img?url={})}}", tok).into_bytes());
}

#[test]
fn css_quoted_rewrites_keeping_quotes() {
    let tok = hex::encode("https://ex.com/x.png");
    let out = replace_css(
        b"a{background:url('/x.png')}",
        b"https://ex.com/dir",
        b"https://ex.com",
    );
    assert_eq!(out, format!("a{{background:url('/img?url={}')}}", tok).into_bytes());
}

#[test]
fn css_document_relative_reference() {
    let tok = hex::encode("https://ex.com/dir/img/x.png");
    let out = replace_css(b"b{c:url(img/x.png)}", b"https://ex.com/dir", b"https://ex.com");
    assert_eq!(out, format!("b{{c:url(/img?url={})}}", tok).into_bytes());
}

#[test]
fn css_protocol_relative_reference() {
    let tok = hex::encode("http://cdn.ex.com/f.woff");
    let out = replace_css(b"@font-face{src:url(//cdn.ex.com/f.woff)}", b"http://ex.com/a", b"http://ex.com");
    assert_eq!(out, format!("@font-face{{src:url(/img?url={})}}", tok).into_bytes());
}

#[test]
fn css_rewrites_every_occurrence() {
    let tok = hex::encode("https://ex.com/x.png");
    let out = replace_css(
        b"a{b:url(/x.png)}c{d:url(/x.png)}",
        b"https://ex.com/dir",
        b"https://ex.com",
    );
    assert_eq!(
        out,
        format!("a{{b:url(/img?url={})}}c{{d:url(/img?url={})}}", tok, tok).into_bytes()
    );
}

#[test]
fn css_unclosed_reference_left_alone() {
    let css = b"a{b:url(x.png";
    assert_eq!(replace_css(css, b"https://ex.com/d", b"https://ex.com"), css.to_vec());
}

#[test]
fn css_absolute_reference_token() {
    let tok = hex::encode("https://other.com/bg.gif");
    let out = replace_css(b"e{f:url(https://other.com/bg.gif)}", b"https://ex.com/d", b"https://ex.com");
    assert_eq!(out, format!("e{{f:url(/img?url={})}}", tok).into_bytes());
}

#[test]
fn attr_rewrite_double_quoted() {
    let url = b"https://ex.com/dir/page.html";
    let html = br#"<a href="/x">go</a>"#;
    let out = replace(url, html, b"/x", b"href", b"html").unwrap();
    let tok = hex::encode("https://ex.com/x");
    let cur = hex::encode("https://ex.com/dir");
    let base = hex::encode("https://ex.com");
    assert_eq!(
        out,
        format!(
            r#"<a href="html?url={}&current_path={}&base_path={}">go</a>"#,
            tok, cur, base
        )
        .into_bytes()
    );
}

#[test]
fn attr_rewrite_single_quoted_becomes_double() {
    let url = b"https://ex.com/dir/page.html";
    let html = b"<a href='/x'>go</a>";
    let out = replace(url, html, b"/x", b"href", b"html").unwrap();
    let tok = hex::encode("https://ex.com/x");
    let cur = hex::encode("https://ex.com/dir");
    let base = hex::encode("https://ex.com");
    assert_eq!(
        out,
        format!(
            r#"<a href="html?url={}&current_path={}&base_path={}">go</a>"#,
            tok, cur, base
        )
        .into_bytes()
    );
}

#[test]
fn attr_rewrite_touches_every_occurrence() {
    let url = b"https://ex.com/p";
    let html = br#"<img src="/i.png"><img src="/i.png">"#;
    let out = replace(url, html, b"/i.png", b"src", b"img").unwrap();
    let tok = hex::encode("https://ex.com/i.png");
    let cur = hex::encode("https://ex.com");
    let base = hex::encode("https://ex.com");
    let one = format!(r#"<img src="img?url={}&current_path={}&base_path={}">"#, tok, cur, base);
    assert_eq!(out, format!("{}{}", one, one).into_bytes());
}

#[test]
fn attr_rewrite_malformed_url_errors() {
    assert!(replace(b"nota url", b"<p>x</p>", b"/x", b"href", b"html").is_err());
}
