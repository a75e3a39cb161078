//! The document scanner: what the HTML parser reports of a document.
//!
//! The four reference roles the proxy rewrites are enumerated by the scraper
//! crate's HTML parser, an outside collaborator. Each scan is a function of
//! the document text alone, so its result bears a name that the wrappers'
//! contracts share; the rewriting that follows is verified against those
//! names.
use vstd::prelude::*;

verus! {

/// The view of an optional attribute value.
pub open spec fn view_opt(o: Option<Vec<u8>>) -> Option<Seq<u8>> {
    match o {
        Some(v) => Some(v@),
        None => None,
    }
}

/// The views of a list of optional attribute values.
pub open spec fn refs_view(s: Seq<Option<Vec<u8>>>) -> Seq<Option<Seq<u8>>> {
    s.map_values(|o: Option<Vec<u8>>| view_opt(o))
}

/// The views of a list of attribute pairs.
pub open spec fn pairs_view(s: Seq<(Option<Vec<u8>>, Option<Vec<u8>>)>) -> Seq<
    (Option<Seq<u8>>, Option<Seq<u8>>),
> {
    s.map_values(|p: (Option<Vec<u8>>, Option<Vec<u8>>)| (view_opt(p.0), view_opt(p.1)))
}

/// The src attribute of each img element of the document, in document order.
pub uninterp spec fn img_srcs(html: Seq<u8>) -> Seq<Option<Seq<u8>>>;

/// The rel and href attributes of each link element of the document, in
/// document order.
pub uninterp spec fn link_attrs(html: Seq<u8>) -> Seq<(Option<Seq<u8>>, Option<Seq<u8>>)>;

/// The src attribute of each script element of the document, in document
/// order.
pub uninterp spec fn script_srcs(html: Seq<u8>) -> Seq<Option<Seq<u8>>>;

/// The href attribute of each a element of the document, in document order.
pub uninterp spec fn anchor_hrefs(html: Seq<u8>) -> Seq<Option<Seq<u8>>>;

/// Relies on scraper's Html::parse_document and Html::select: the src
/// attribute of each img element, in document order. The "img" selector is a
/// constant that Selector::parse accepts.
#[verifier::external_body]
pub fn scrape_img_srcs(html: &[u8]) -> (r: Vec<Option<Vec<u8>>>)
    ensures
        refs_view(r@) == img_srcs(html@),
{
    let text = String::from_utf8_lossy(html);
    let doc = scraper::Html::parse_document(&text);
    let sel = scraper::Selector::parse("img").unwrap();
    doc.select(&sel).map(|el| el.attr("src").map(|s| s.as_bytes().to_vec())).collect()
}

/// Relies on scraper's Html::parse_document and Html::select: the rel and
/// href attributes of each link element, in document order. The "link"
/// selector is a constant that Selector::parse accepts.
#[verifier::external_body]
pub fn scrape_link_attrs(html: &[u8]) -> (r: Vec<(Option<Vec<u8>>, Option<Vec<u8>>)>)
    ensures
        pairs_view(r@) == link_attrs(html@),
{
    let text = String::from_utf8_lossy(html);
    let doc = scraper::Html::parse_document(&text);
    let sel = scraper::Selector::parse("link").unwrap();
    doc.select(&sel).map(
        |el|
            (
                el.attr("rel").map(|s| s.as_bytes().to_vec()),
                el.attr("href").map(|s| s.as_bytes().to_vec()),
            ),
    ).collect()
}

/// Relies on scraper's Html::parse_document and Html::select: the src
/// attribute of each script element, in document order. The "script"
/// selector is a constant that Selector::parse accepts.
#[verifier::external_body]
pub fn scrape_script_srcs(html: &[u8]) -> (r: Vec<Option<Vec<u8>>>)
    ensures
        refs_view(r@) == script_srcs(html@),
{
    let text = String::from_utf8_lossy(html);
    let doc = scraper::Html::parse_document(&text);
    let sel = scraper::Selector::parse("script").unwrap();
    doc.select(&sel).map(|el| el.attr("src").map(|s| s.as_bytes().to_vec())).collect()
}

/// Relies on scraper's Html::parse_document and Html::select: the href
/// attribute of each a element, in document order. The "a" selector is a
/// constant that Selector::parse accepts.
#[verifier::external_body]
pub fn scrape_anchor_hrefs(html: &[u8]) -> (r: Vec<Option<Vec<u8>>>)
    ensures
        refs_view(r@) == anchor_hrefs(html@),
{
    let text = String::from_utf8_lossy(html);
    let doc = scraper::Html::parse_document(&text);
    let sel = scraper::Selector::parse("a").unwrap();
    doc.select(&sel).map(|el| el.attr("href").map(|s| s.as_bytes().to_vec())).collect()
}

} // verus!
