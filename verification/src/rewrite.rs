//! The rewrite engine: pure text transforms that point every rewritable
//! reference of a CSS or HTML document at a proxy endpoint.
//!
//! CSS rewriting scans the text for `url(` occurrences, resolves each raw
//! reference against the document's anchors, and substitutes every literal
//! occurrence of the original `url(...)` form with a proxied one carrying the
//! encoded target. HTML attribute rewriting substitutes every literal
//! `attr="value"` and `attr='value'` occurrence of a matched element's
//! attribute with a double-quoted proxied form carrying the encoded target
//! and both anchors.
use vstd::prelude::*;
use vstd::slice::slice_to_vec;
use crate::bytes::{find_spec, find_byte_spec, find, find_byte_in, has_prefix, has_suffix,
    starts_with, ends_with, subvec, concat3, push_all, replace_all, replace_all_spec,
    lemma_find_spec};
use crate::codec::{hex_encode_spec, encode};
use crate::urls::{resolve_spec, resolve, parses, current_path_spec, base_path_spec, get_url_path,
    MalformedUrlError};
use crate::lit::{spec_https_scheme, spec_http_scheme, spec_url_open, url_open_bytes,
    spec_close_paren, close_paren_bytes,
    spec_data_colon, data_colon_bytes, spec_quote, quote_bytes, spec_url_open_quote,
    url_open_quote_bytes, spec_quote_close, quote_close_bytes, spec_img_proxy_open,
    img_proxy_open_bytes, spec_img_proxy_open_quote, img_proxy_open_quote_bytes, spec_eq_dquote,
    eq_dquote_bytes, spec_dquote, dquote_bytes, spec_eq_quote, eq_quote_bytes, spec_qmark_url,
    qmark_url_bytes, spec_amp_current, amp_current_bytes, spec_amp_base, amp_base_bytes};

verus! {

/// `s` with every leading and trailing single quote removed.
pub open spec fn trim_quotes(s: Seq<u8>) -> Seq<u8>
    decreases s.len(),
{
    if s.len() > 0 && s[0] == 39 {
        trim_quotes(s.skip(1))
    } else if s.len() > 0 && s[s.len() - 1] == 39 {
        trim_quotes(s.take(s.len() - 1))
    } else {
        s
    }
}

/// `s` with every leading and trailing single quote removed.
pub fn trim_quotes_exec(s: &[u8]) -> (r: Vec<u8>)
    ensures
        r@ == trim_quotes(s@),
{
    let mut a: usize = 0;
    let mut b: usize = s.len();
    proof {
        assert(s@.subrange(0, s@.len() as int) =~= s@);
    }
    while a < b && s[a] == 39
        invariant
            0 <= a <= b <= s@.len(),
            trim_quotes(s@) == trim_quotes(s@.subrange(a as int, b as int)),
        decreases b - a,
    {
        proof {
            let sub = s@.subrange(a as int, b as int);
            assert(sub[0] == s@[a as int]);
            assert(sub.skip(1) =~= s@.subrange(a + 1, b as int));
        }
        a += 1;
    }
    while b > a && s[b - 1] == 39
        invariant
            0 <= a <= b <= s@.len(),
            trim_quotes(s@) == trim_quotes(s@.subrange(a as int, b as int)),
            a == b || s@[a as int] != 39,
        decreases b,
    {
        proof {
            let sub = s@.subrange(a as int, b as int);
            assert(sub[sub.len() - 1] == s@[b - 1]);
            assert(sub.take(sub.len() - 1) =~= s@.subrange(a as int, b - 1));
            if sub.len() > 0 && sub[0] == 39 {
                assert(s@[a as int] == 39);
            }
        }
        b -= 1;
    }
    proof {
        let sub = s@.subrange(a as int, b as int);
        if sub.len() > 0 {
            assert(sub[0] == s@[a as int]);
            assert(sub[sub.len() - 1] == s@[b - 1]);
        }
        assert(trim_quotes(sub) == sub);
    }
    subvec(s, a, b)
}

/// One scanned CSS reference applied to the output text so far: a `data:`
/// reference is left alone; otherwise the reference is resolved and encoded,
/// and every occurrence of its exact original `url(...)` form (with its
/// quoting) is replaced by the proxied form.
pub open spec fn css_apply_spec(out: Seq<u8>, url: Seq<u8>, cur: Seq<u8>, base: Seq<u8>) -> Seq<
    u8,
> {
    if has_prefix(url, spec_data_colon()) {
        out
    } else if has_prefix(url, spec_quote()) && has_suffix(url, spec_quote()) {
        let inner = trim_quotes(url);
        let tok = hex_encode_spec(resolve_spec(inner, cur, base));
        replace_all_spec(
            out,
            spec_url_open_quote() + inner + spec_quote_close(),
            spec_img_proxy_open_quote() + tok + spec_quote_close(),
        )
    } else {
        let tok = hex_encode_spec(resolve_spec(url, cur, base));
        replace_all_spec(
            out,
            spec_url_open() + url + spec_close_paren(),
            spec_img_proxy_open() + tok + spec_close_paren(),
        )
    }
}

/// One scanned CSS reference applied to the output text so far.
fn css_apply(out: &[u8], url: &[u8], cur: &[u8], base: &[u8]) -> (r: Vec<u8>)
    ensures
        r@ == css_apply_spec(out@, url@, cur@, base@),
{
    if starts_with(url, data_colon_bytes().as_slice()) {
        return slice_to_vec(out);
    }
    let quote = quote_bytes();
    if starts_with(url, quote.as_slice()) && ends_with(url, quote.as_slice()) {
        let inner = trim_quotes_exec(url);
        let resolved = resolve(inner.as_slice(), cur, base);
        let tok = encode(resolved.as_slice());
        let pat = concat3(
            url_open_quote_bytes().as_slice(),
            inner.as_slice(),
            quote_close_bytes().as_slice(),
        );
        let rep = concat3(
            img_proxy_open_quote_bytes().as_slice(),
            tok.as_slice(),
            quote_close_bytes().as_slice(),
        );
        replace_all(out, pat.as_slice(), rep.as_slice())
    } else {
        let resolved = resolve(url, cur, base);
        let tok = encode(resolved.as_slice());
        let pat = concat3(url_open_bytes().as_slice(), url, close_paren_bytes().as_slice());
        let rep = concat3(
            img_proxy_open_bytes().as_slice(),
            tok.as_slice(),
            close_paren_bytes().as_slice(),
        );
        replace_all(out, pat.as_slice(), rep.as_slice())
    }
}

/// The CSS rewriting scan. From position `pos` of the original text it finds
/// the next `url(`, reads the raw reference up to the following ')' (never
/// beyond the next `url(`, where the scan will resume), applies it to the
/// output so far, and goes on behind the `url(` just handled.
pub open spec fn rewrite_css_from(
    css: Seq<u8>,
    pos: int,
    out: Seq<u8>,
    cur: Seq<u8>,
    base: Seq<u8>,
) -> Seq<u8>
    decreases css.len() - pos,
    when pos >= 0
    via rewrite_css_from_decreases
{
    match find_spec(css, spec_url_open(), pos) {
        None => out,
        Some(i) => {
            let seg_start = i + 4;
            let seg_end = match find_spec(css, spec_url_open(), seg_start) {
                Some(e) => e,
                None => css.len() as int,
            };
            let url_end = match find_byte_spec(css, 41, seg_start, seg_end) {
                Some(c) => c,
                None => seg_end,
            };
            let url = css.subrange(seg_start, url_end);
            rewrite_css_from(css, seg_start, css_apply_spec(out, url, cur, base), cur, base)
        },
    }
}

#[via_fn]
proof fn rewrite_css_from_decreases(css: Seq<u8>, pos: int, out: Seq<u8>, cur: Seq<u8>, base: Seq<
    u8,
>) {
    lemma_find_spec(css, spec_url_open(), pos);
}

/// CSS rewriting: every `url(...)` reference of the text, except `data:`
/// ones, is resolved against the anchors and replaced by a proxied form
/// carrying the encoded resolved target.
pub open spec fn replace_css_spec(css: Seq<u8>, cur: Seq<u8>, base: Seq<u8>) -> Seq<u8> {
    rewrite_css_from(css, 0, css, cur, base)
}

/// Rewrites every `url(...)` reference of a stylesheet (or of any text) to
/// route through the img proxy endpoint. `data:` references stay unchanged.
pub fn replace_css(css: &[u8], current_path: &[u8], base_path: &[u8]) -> (r: Vec<u8>)
    ensures
        r@ == replace_css_spec(css@, current_path@, base_path@),
{
    let n = css.len();
    let url_open = url_open_bytes();
    let mut out: Vec<u8> = slice_to_vec(css);
    let mut pos: usize = 0;
    let mut next = find(css, url_open.as_slice(), 0);
    while next.is_some()
        invariant
            n == css@.len(),
            url_open@ == spec_url_open(),
            0 <= pos <= n,
            match next {
                Some(i) => find_spec(css@, spec_url_open(), pos as int) == Some(i as int),
                None => find_spec(css@, spec_url_open(), pos as int) is None,
            },
            replace_css_spec(css@, current_path@, base_path@) == rewrite_css_from(
                css@,
                pos as int,
                out@,
                current_path@,
                base_path@,
            ),
        decreases n - pos,
    {
        let i = match next {
            Some(i) => i,
            None => {
                return out;  // unreachable under the loop condition
            },
        };
        proof {
            lemma_find_spec(css@, spec_url_open(), pos as int);
        }
        let seg_start = i + 4;
        let seg_end = match find(css, url_open.as_slice(), seg_start) {
            Some(e) => e,
            None => n,
        };
        proof {
            lemma_find_spec(css@, spec_url_open(), seg_start as int);
        }
        let url_end = match find_byte_in(css, 41, seg_start, seg_end) {
            Some(c) => c,
            None => seg_end,
        };
        proof {
            crate::bytes::lemma_find_byte_spec(css@, 41, seg_start as int, seg_end as int);
        }
        let url = subvec(css, seg_start, url_end);
        let out2 = css_apply(out.as_slice(), url.as_slice(), current_path, base_path);
        out = out2;
        pos = seg_start;
        next = find(css, url_open.as_slice(), pos);
    }
    out
}

/// A `data:` reference is never rewritten: applying it to the output text
/// leaves the text as it stands.
pub proof fn lemma_data_ref_skipped(out: Seq<u8>, url: Seq<u8>, cur: Seq<u8>, base: Seq<u8>)
    requires
        has_prefix(url, spec_data_colon()),
    ensures
        css_apply_spec(out, url, cur, base) == out,
{
}

/// Every reference the CSS scan reads from position `pos` on is a `data:`
/// URI.
pub open spec fn all_refs_data_from(css: Seq<u8>, pos: int) -> bool
    decreases css.len() - pos,
    when pos >= 0
    via all_refs_data_from_decreases
{
    match find_spec(css, spec_url_open(), pos) {
        None => true,
        Some(i) => {
            let seg_start = i + 4;
            let seg_end = match find_spec(css, spec_url_open(), seg_start) {
                Some(e) => e,
                None => css.len() as int,
            };
            let url_end = match find_byte_spec(css, 41, seg_start, seg_end) {
                Some(c) => c,
                None => seg_end,
            };
            has_prefix(css.subrange(seg_start, url_end), spec_data_colon()) && all_refs_data_from(
                css,
                seg_start,
            )
        },
    }
}

#[via_fn]
proof fn all_refs_data_from_decreases(css: Seq<u8>, pos: int) {
    lemma_find_spec(css, spec_url_open(), pos);
}

proof fn lemma_css_scan_data_unchanged(css: Seq<u8>, pos: int, out: Seq<u8>, cur: Seq<u8>, base:
    Seq<u8>)
    requires
        pos >= 0,
        all_refs_data_from(css, pos),
    ensures
        rewrite_css_from(css, pos, out, cur, base) == out,
    decreases css.len() - pos,
{
    lemma_find_spec(css, spec_url_open(), pos);
    match find_spec(css, spec_url_open(), pos) {
        None => {},
        Some(i) => {
            lemma_css_scan_data_unchanged(css, i + 4, out, cur, base);
        },
    }
}

/// A stylesheet whose every scanned reference is a `data:` URI is returned
/// unchanged by CSS rewriting, whatever the anchors.
pub proof fn lemma_css_all_data_unchanged(css: Seq<u8>, cur: Seq<u8>, base: Seq<u8>)
    requires
        all_refs_data_from(css, 0),
    ensures
        replace_css_spec(css, cur, base) == css,
{
    lemma_css_scan_data_unchanged(css, 0, css, cur, base);
}

/// An already-absolute CSS reference resolves to itself: its occurrences are
/// replaced by the proxied form carrying the hex encoding of the reference
/// unchanged, whatever the anchors.
pub proof fn lemma_css_absolute_ref(out: Seq<u8>, url: Seq<u8>, cur: Seq<u8>, base: Seq<u8>)
    requires
        has_prefix(url, spec_https_scheme()) || has_prefix(url, spec_http_scheme()),
    ensures
        css_apply_spec(out, url, cur, base) == replace_all_spec(
            out,
            spec_url_open() + url + spec_close_paren(),
            spec_img_proxy_open() + hex_encode_spec(url) + spec_close_paren(),
        ),
{
    if has_prefix(url, spec_https_scheme()) {
        assert(url.subrange(0, 8)[0] == url[0]);
    } else {
        assert(url.subrange(0, 7)[0] == url[0]);
    }
    assert(url[0] == 104);
    if has_prefix(url, spec_data_colon()) {
        assert(url.subrange(0, 5)[0] == url[0]);
        assert(false);
    }
    if has_prefix(url, spec_quote()) {
        assert(url.subrange(0, 1)[0] == url[0]);
        assert(false);
    }
    assert(resolve_spec(url, cur, base) == url);
}

/// Every reference the CSS scan reads from position `pos` on is already
/// absolute, or a `data:` URI (which is skipped).
pub open spec fn all_refs_absolute_from(css: Seq<u8>, pos: int) -> bool
    decreases css.len() - pos,
    when pos >= 0
    via all_refs_absolute_from_decreases
{
    match find_spec(css, spec_url_open(), pos) {
        None => true,
        Some(i) => {
            let seg_start = i + 4;
            let seg_end = match find_spec(css, spec_url_open(), seg_start) {
                Some(e) => e,
                None => css.len() as int,
            };
            let url_end = match find_byte_spec(css, 41, seg_start, seg_end) {
                Some(c) => c,
                None => seg_end,
            };
            let url = css.subrange(seg_start, url_end);
            (has_prefix(url, spec_https_scheme()) || has_prefix(url, spec_http_scheme())
                || has_prefix(url, spec_data_colon())) && all_refs_absolute_from(css, seg_start)
        },
    }
}

#[via_fn]
proof fn all_refs_absolute_from_decreases(css: Seq<u8>, pos: int) {
    lemma_find_spec(css, spec_url_open(), pos);
}

proof fn lemma_css_scan_absolute_anchors(
    css: Seq<u8>,
    pos: int,
    out: Seq<u8>,
    cur1: Seq<u8>,
    base1: Seq<u8>,
    cur2: Seq<u8>,
    base2: Seq<u8>,
)
    requires
        pos >= 0,
        all_refs_absolute_from(css, pos),
    ensures
        rewrite_css_from(css, pos, out, cur1, base1) == rewrite_css_from(
            css,
            pos,
            out,
            cur2,
            base2,
        ),
    decreases css.len() - pos,
{
    lemma_find_spec(css, spec_url_open(), pos);
    match find_spec(css, spec_url_open(), pos) {
        None => {},
        Some(i) => {
            let seg_start = i + 4;
            let seg_end = match find_spec(css, spec_url_open(), seg_start) {
                Some(e) => e,
                None => css.len() as int,
            };
            let url_end = match find_byte_spec(css, 41, seg_start, seg_end) {
                Some(c) => c,
                None => seg_end,
            };
            let url = css.subrange(seg_start, url_end);
            if !has_prefix(url, spec_data_colon()) {
                lemma_css_absolute_ref(out, url, cur1, base1);
                lemma_css_absolute_ref(out, url, cur2, base2);
            }
            lemma_css_scan_absolute_anchors(
                css,
                seg_start,
                css_apply_spec(out, url, cur1, base1),
                cur1,
                base1,
                cur2,
                base2,
            );
        },
    }
}

/// Anchors are irrelevant to a stylesheet whose every reference is already
/// absolute or a `data:` URI: CSS rewriting gives the same text for any two
/// anchor pairs.
pub proof fn lemma_css_absolute_anchors_irrelevant(
    css: Seq<u8>,
    cur1: Seq<u8>,
    base1: Seq<u8>,
    cur2: Seq<u8>,
    base2: Seq<u8>,
)
    requires
        all_refs_absolute_from(css, 0),
    ensures
        replace_css_spec(css, cur1, base1) == replace_css_spec(css, cur2, base2),
{
    lemma_css_scan_absolute_anchors(css, 0, css, cur1, base1, cur2, base2);
}

/// Quoted and unquoted CSS references rewrite alike: each replaces every
/// occurrence of its exact original `url(...)` form with the proxied form
/// carrying the hex-encoded resolved reference; the quoted form keeps its
/// single quotes.
pub proof fn lemma_css_quoting(out: Seq<u8>, inner: Seq<u8>, cur: Seq<u8>, base: Seq<u8>)
    requires
        inner.len() > 0,
        inner[0] != 39,
        inner[inner.len() - 1] != 39,
        !has_prefix(inner, spec_data_colon()),
    ensures
        css_apply_spec(out, inner, cur, base) == replace_all_spec(
            out,
            spec_url_open() + inner + spec_close_paren(),
            spec_img_proxy_open() + hex_encode_spec(resolve_spec(inner, cur, base))
                + spec_close_paren(),
        ),
        css_apply_spec(out, seq![39u8] + inner + seq![39u8], cur, base) == replace_all_spec(
            out,
            spec_url_open_quote() + inner + spec_quote_close(),
            spec_img_proxy_open_quote() + hex_encode_spec(resolve_spec(inner, cur, base))
                + spec_quote_close(),
        ),
{
    if has_prefix(inner, spec_quote()) {
        assert(inner.subrange(0, 1)[0] == inner[0]);
        assert(false);
    }
    let q = seq![39u8];
    let quoted = q + inner + q;
    assert(quoted.len() == inner.len() + 2);
    assert(quoted[0] == 39);
    assert(quoted[quoted.len() - 1] == 39);
    if has_prefix(quoted, spec_data_colon()) {
        assert(quoted.subrange(0, 5)[0] == quoted[0]);
        assert(false);
    }
    assert(quoted.subrange(0, 1) =~= spec_quote());
    assert(quoted.subrange(quoted.len() - 1, quoted.len() as int) =~= spec_quote());
    assert(has_prefix(quoted, spec_quote()));
    assert(has_suffix(quoted, spec_quote()));
    assert(trim_quotes(quoted) == inner) by {
        let s2 = inner + q;
        assert(trim_quotes(quoted) == trim_quotes(quoted.skip(1)));
        assert(quoted.skip(1) =~= s2);
        assert(s2[0] == inner[0]);
        assert(s2[s2.len() - 1] == 39);
        assert(trim_quotes(s2) == trim_quotes(s2.take(s2.len() - 1)));
        assert(s2.take(s2.len() - 1) =~= inner);
        assert(trim_quotes(inner) == inner);
    }
}

/// The rewritten attribute-value literal: the endpoint, the encoded resolved
/// target and the two encoded anchors, in double quotes.
pub open spec fn attr_replacement(
    attr: Seq<u8>,
    ime: Seq<u8>,
    href: Seq<u8>,
    cur: Seq<u8>,
    base: Seq<u8>,
) -> Seq<u8> {
    attr + spec_eq_dquote() + ime + spec_qmark_url() + hex_encode_spec(
        resolve_spec(href, cur, base),
    ) + spec_amp_current() + hex_encode_spec(cur) + spec_amp_base() + hex_encode_spec(base)
        + spec_dquote()
}

/// HTML attribute rewriting: every literal `attr="href"` occurrence, and then
/// every literal `attr='href'` occurrence, is replaced by the proxied
/// double-quoted form.
pub open spec fn replace_attr_spec(
    html: Seq<u8>,
    href: Seq<u8>,
    attr: Seq<u8>,
    ime: Seq<u8>,
    cur: Seq<u8>,
    base: Seq<u8>,
) -> Seq<u8> {
    let rep = attr_replacement(attr, ime, href, cur, base);
    let p1 = attr + spec_eq_dquote() + href + spec_dquote();
    let p2 = attr + spec_eq_quote() + href + spec_quote();
    replace_all_spec(replace_all_spec(html, p1, rep), p2, rep)
}

/// Builds the rewritten attribute-value literal.
fn build_attr_replacement(attr: &[u8], ime: &[u8], href: &[u8], cur: &[u8], base: &[u8]) -> (r:
    Vec<u8>)
    ensures
        r@ == attr_replacement(attr@, ime@, href@, cur@, base@),
{
    let resolved = resolve(href, cur, base);
    let tok = encode(resolved.as_slice());
    let cur_tok = encode(cur);
    let base_tok = encode(base);
    let mut v: Vec<u8> = Vec::new();
    push_all(&mut v, attr);
    push_all(&mut v, eq_dquote_bytes().as_slice());
    push_all(&mut v, ime);
    push_all(&mut v, qmark_url_bytes().as_slice());
    push_all(&mut v, tok.as_slice());
    push_all(&mut v, amp_current_bytes().as_slice());
    push_all(&mut v, cur_tok.as_slice());
    push_all(&mut v, amp_base_bytes().as_slice());
    push_all(&mut v, base_tok.as_slice());
    push_all(&mut v, dquote_bytes().as_slice());
    proof {
        assert(v@ =~= attr_replacement(attr@, ime@, href@, cur@, base@));
    }
    v
}

/// Rewrites one attribute reference throughout an HTML document. The anchors
/// are derived from the document's own URL; a URL with no parseable scheme or
/// authority is the one error. Every literal `attr="href"` and `attr='href'`
/// occurrence in the text is replaced, not only the element the reference was
/// found on.
pub fn replace(url: &[u8], html: &[u8], href: &[u8], attr: &[u8], ime: &[u8]) -> (r: Result<
    Vec<u8>,
    MalformedUrlError,
>)
    ensures
        r is Ok <==> parses(url@),
        r matches Ok(out) ==> out@ == replace_attr_spec(
            html@,
            href@,
            attr@,
            ime@,
            current_path_spec(url@),
            base_path_spec(url@),
        ),
{
    let (cur, base) = match get_url_path(url) {
        Ok(p) => p,
        Err(e) => {
            return Err(e);
        },
    };
    let rep = build_attr_replacement(attr, ime, href, cur.as_slice(), base.as_slice());
    let mut p1: Vec<u8> = Vec::new();
    push_all(&mut p1, attr);
    push_all(&mut p1, eq_dquote_bytes().as_slice());
    push_all(&mut p1, href);
    push_all(&mut p1, dquote_bytes().as_slice());
    let mut p2: Vec<u8> = Vec::new();
    push_all(&mut p2, attr);
    push_all(&mut p2, eq_quote_bytes().as_slice());
    push_all(&mut p2, href);
    push_all(&mut p2, quote_bytes().as_slice());
    proof {
        assert(p1@ =~= attr@ + spec_eq_dquote() + href@ + spec_dquote());
        assert(p2@ =~= attr@ + spec_eq_quote() + href@ + spec_quote());
    }
    let step1 = replace_all(html, p1.as_slice(), rep.as_slice());
    let step2 = replace_all(step1.as_slice(), p2.as_slice(), rep.as_slice());
    Ok(step2)
}

} // verus!
