//! The whole-document HTML rewrite: each reference role the proxy handles is
//! enumerated from the document, resolved, and substituted throughout the
//! text, and CSS rewriting is applied to the document as well, so inline
//! `url()` references are routed too.
use vstd::prelude::*;
use vstd::slice::slice_to_vec;
use crate::bytes::bytes_eq;
use crate::urls::{parses, current_path_spec, base_path_spec, get_url_path, MalformedUrlError};
use crate::rewrite::{replace_attr_spec, replace_css_spec, replace, replace_css};
use crate::scrape::{img_srcs, link_attrs, script_srcs, anchor_hrefs, refs_view, pairs_view,
    view_opt, scrape_img_srcs, scrape_link_attrs, scrape_script_srcs, scrape_anchor_hrefs};
use crate::lit::{spec_attr_src, attr_src_bytes, spec_attr_href, attr_href_bytes, spec_ep_img,
    ep_img_bytes, spec_ep_css, ep_css_bytes, spec_ep_js, ep_js_bytes, spec_ep_html, ep_html_bytes,
    spec_rel_stylesheet, rel_stylesheet_bytes};

verus! {

/// One optional reference rewritten throughout the text; an absent attribute
/// changes nothing.
pub open spec fn apply_ref(
    html: Seq<u8>,
    r: Option<Seq<u8>>,
    attr: Seq<u8>,
    ime: Seq<u8>,
    cur: Seq<u8>,
    base: Seq<u8>,
) -> Seq<u8> {
    match r {
        Some(href) => replace_attr_spec(html, href, attr, ime, cur, base),
        None => html,
    }
}

/// The references of one pass applied in document order.
pub open spec fn fold_refs(
    html: Seq<u8>,
    refs: Seq<Option<Seq<u8>>>,
    attr: Seq<u8>,
    ime: Seq<u8>,
    cur: Seq<u8>,
    base: Seq<u8>,
) -> Seq<u8>
    decreases refs.len(),
{
    if refs.len() == 0 {
        html
    } else {
        fold_refs(apply_ref(html, refs[0], attr, ime, cur, base), refs.skip(1), attr, ime, cur, base)
    }
}

/// One link element: a link whose rel is present and not "stylesheet" is
/// skipped; any other link with an href is rewritten to the css endpoint.
pub open spec fn apply_link(
    html: Seq<u8>,
    rel: Option<Seq<u8>>,
    href: Option<Seq<u8>>,
    cur: Seq<u8>,
    base: Seq<u8>,
) -> Seq<u8> {
    match rel {
        Some(r) => if r != spec_rel_stylesheet() {
            html
        } else {
            apply_ref(html, href, spec_attr_href(), spec_ep_css(), cur, base)
        },
        None => apply_ref(html, href, spec_attr_href(), spec_ep_css(), cur, base),
    }
}

/// The link elements applied in document order.
pub open spec fn fold_links(
    html: Seq<u8>,
    links: Seq<(Option<Seq<u8>>, Option<Seq<u8>>)>,
    cur: Seq<u8>,
    base: Seq<u8>,
) -> Seq<u8>
    decreases links.len(),
{
    if links.len() == 0 {
        html
    } else {
        fold_links(apply_link(html, links[0].0, links[0].1, cur, base), links.skip(1), cur, base)
    }
}

/// The whole HTML rewrite of a fetched document, in the order the passes
/// run: img references, then CSS rewriting of the document text, then
/// stylesheet links, scripts and anchors. Every pass enumerates the original
/// document but substitutes in the accumulated text.
pub open spec fn rewrite_html_spec(url: Seq<u8>, html: Seq<u8>) -> Seq<u8>
    recommends
        parses(url),
{
    let cur = current_path_spec(url);
    let base = base_path_spec(url);
    let h1 = fold_refs(html, img_srcs(html), spec_attr_src(), spec_ep_img(), cur, base);
    let h2 = replace_css_spec(h1, cur, base);
    let h3 = fold_links(h2, link_attrs(html), cur, base);
    let h4 = fold_refs(h3, script_srcs(html), spec_attr_src(), spec_ep_js(), cur, base);
    fold_refs(h4, anchor_hrefs(html), spec_attr_href(), spec_ep_html(), cur, base)
}

/// Applies one pass of attribute rewriting for the given role.
fn apply_pass(url: &[u8], h: Vec<u8>, refs: &Vec<Option<Vec<u8>>>, attr: &[u8], ime: &[u8]) -> (r:
    Vec<u8>)
    requires
        parses(url@),
    ensures
        r@ == fold_refs(
            h@,
            refs_view(refs@),
            attr@,
            ime@,
            current_path_spec(url@),
            base_path_spec(url@),
        ),
{
    let ghost rs = refs_view(refs@);
    let ghost cur = current_path_spec(url@);
    let ghost base = base_path_spec(url@);
    let ghost h0 = h@;
    let mut out = h;
    let n = refs.len();
    let mut k: usize = 0;
    proof {
        assert(rs.skip(0) =~= rs);
    }
    while k < n
        invariant
            parses(url@),
            n == refs@.len(),
            rs == refs_view(refs@),
            0 <= k <= n,
            fold_refs(h0, rs, attr@, ime@, cur, base) == fold_refs(
                out@,
                rs.skip(k as int),
                attr@,
                ime@,
                cur,
                base,
            ),
            cur == current_path_spec(url@),
            base == base_path_spec(url@),
        decreases n - k,
    {
        let ghost out0 = out@;
        let item: &Option<Vec<u8>> = &refs[k];
        match item {
            Some(href) => {
                let res = replace(url, out.as_slice(), href.as_slice(), attr, ime);
                match res {
                    Ok(next) => {
                        out = next;
                    },
                    Err(_) => {
                        proof {
                            assert(false);
                        }
                    },
                }
            },
            None => {},
        }
        proof {
            assert(rs[k as int] == view_opt(refs@[k as int]));
            assert(out@ == apply_ref(out0, rs[k as int], attr@, ime@, cur, base));
            assert(rs.skip(k as int).skip(1) =~= rs.skip(k + 1));
            assert(rs.skip(k as int)[0] == rs[k as int]);
            assert(fold_refs(out0, rs.skip(k as int), attr@, ime@, cur, base) == fold_refs(
                out@,
                rs.skip(k + 1),
                attr@,
                ime@,
                cur,
                base,
            ));
        }
        k += 1;
    }
    proof {
        assert(rs.skip(k as int).len() == 0);
    }
    out
}

/// Applies the stylesheet-link pass.
fn apply_link_pass(url: &[u8], h: Vec<u8>, links: &Vec<(Option<Vec<u8>>, Option<Vec<u8>>)>) -> (r:
    Vec<u8>)
    requires
        parses(url@),
    ensures
        r@ == fold_links(h@, pairs_view(links@), current_path_spec(url@), base_path_spec(url@)),
{
    let ghost ls = pairs_view(links@);
    let ghost cur = current_path_spec(url@);
    let ghost base = base_path_spec(url@);
    let ghost h0 = h@;
    let attr = attr_href_bytes();
    let ime = ep_css_bytes();
    let stylesheet = rel_stylesheet_bytes();
    let mut out = h;
    let n = links.len();
    let mut k: usize = 0;
    proof {
        assert(ls.skip(0) =~= ls);
    }
    while k < n
        invariant
            parses(url@),
            n == links@.len(),
            ls == pairs_view(links@),
            0 <= k <= n,
            attr@ == spec_attr_href(),
            ime@ == spec_ep_css(),
            stylesheet@ == spec_rel_stylesheet(),
            fold_links(h0, ls, cur, base) == fold_links(out@, ls.skip(k as int), cur, base),
            cur == current_path_spec(url@),
            base == base_path_spec(url@),
        decreases n - k,
    {
        let ghost out0 = out@;
        let item: &(Option<Vec<u8>>, Option<Vec<u8>>) = &links[k];
        let skip_link = match &item.0 {
            Some(rel) => !bytes_eq(rel.as_slice(), stylesheet.as_slice()),
            None => false,
        };
        if !skip_link {
            match &item.1 {
                Some(href) => {
                    let res = replace(
                        url,
                        out.as_slice(),
                        href.as_slice(),
                        attr.as_slice(),
                        ime.as_slice(),
                    );
                    match res {
                        Ok(next) => {
                            out = next;
                        },
                        Err(_) => {
                            proof {
                                assert(false);
                            }
                        },
                    }
                },
                None => {},
            }
        }
        proof {
            assert(ls[k as int] == (view_opt(links@[k as int].0), view_opt(
                links@[k as int].1,
            )));
            assert(out@ == apply_link(out0, ls[k as int].0, ls[k as int].1, cur, base));
            assert(ls.skip(k as int).skip(1) =~= ls.skip(k + 1));
            assert(ls.skip(k as int)[0] == ls[k as int]);
            assert(fold_links(out0, ls.skip(k as int), cur, base) == fold_links(
                out@,
                ls.skip(k + 1),
                cur,
                base,
            ));
        }
        k += 1;
    }
    proof {
        assert(ls.skip(k as int).len() == 0);
    }
    out
}

/// Rewrites a whole HTML document so every img, stylesheet link, script and
/// anchor reference, and every CSS `url()` reference in its text, routes
/// through the proxy, using anchors derived from the document's own URL. A
/// URL with no parseable scheme or authority is the one error.
pub fn rewrite_html(url: &[u8], html: &[u8]) -> (r: Result<Vec<u8>, MalformedUrlError>)
    ensures
        r is Ok <==> parses(url@),
        r matches Ok(out) ==> out@ == rewrite_html_spec(url@, html@),
{
    let anchors = match get_url_path(url) {
        Ok(p) => p,
        Err(e) => {
            return Err(e);
        },
    };
    let (cur, base) = anchors;
    let imgs = scrape_img_srcs(html);
    let links = scrape_link_attrs(html);
    let scripts = scrape_script_srcs(html);
    let anchors_list = scrape_anchor_hrefs(html);
    let h0 = slice_to_vec(html);
    let h1 = apply_pass(url, h0, &imgs, attr_src_bytes().as_slice(), ep_img_bytes().as_slice());
    let h2 = replace_css(h1.as_slice(), cur.as_slice(), base.as_slice());
    let h3 = apply_link_pass(url, h2, &links);
    let h4 = apply_pass(url, h3, &scripts, attr_src_bytes().as_slice(), ep_js_bytes().as_slice());
    let h5 = apply_pass(
        url,
        h4,
        &anchors_list,
        attr_href_bytes().as_slice(),
        ep_html_bytes().as_slice(),
    );
    Ok(h5)
}

} // verus!
