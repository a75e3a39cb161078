//! The URL resolver and the reference classifier.
//!
//! From a document's absolute URL the resolver derives two anchors: the
//! document-relative base (`current_path`, the URL with its last path segment
//! dropped) and the root-relative base (`base_path`, scheme and authority
//! only), both without a trailing slash. The classifier then resolves a raw
//! reference against those anchors: already-absolute references stay as they
//! are, protocol-relative ones take a scheme from the literal prefix of
//! `base_path`, root-relative ones are joined to `base_path`, and everything
//! else is joined to `current_path`.
use vstd::prelude::*;
use crate::bytes::{find_spec, find, has_prefix, has_suffix, starts_with, subvec, concat2, concat3};
use crate::lit::{spec_scheme_sep, scheme_sep_bytes, spec_https_scheme, https_scheme_bytes,
    spec_http_scheme, http_scheme_bytes, spec_slash_slash, slash_slash_bytes, spec_slash,
    slash_bytes, spec_http_colon, http_colon_bytes, spec_https_colon, https_colon_bytes};

verus! {

/// The URL has no parseable scheme or authority.
#[derive(Clone, Copy, Debug, PartialEq, Eq, Structural)]
pub struct MalformedUrlError;

pub open spec fn is_alpha(c: u8) -> bool {
    65 <= c <= 90 || 97 <= c <= 122
}

/// Characters a scheme may hold: letters, digits, '+', '-' and '.'.
pub open spec fn is_scheme_char(c: u8) -> bool {
    is_alpha(c) || 48 <= c <= 57 || c == 43 || c == 45 || c == 46
}

/// Where the scheme separator stands, if anywhere.
pub open spec fn sep_pos(url: Seq<u8>) -> Option<int> {
    find_spec(url, spec_scheme_sep(), 0)
}

/// A nonempty scheme of scheme characters, starting with a letter, stands
/// before the separator.
pub open spec fn scheme_ok(url: Seq<u8>) -> bool {
    match sep_pos(url) {
        Some(i) => i >= 1 && is_alpha(url[0]) && forall|j: int|
            0 <= j < i ==> is_scheme_char(#[trigger] url[j]),
        None => false,
    }
}

/// First position at or after `i` where the authority ends: a '/', '?' or '#',
/// or the end of the URL.
pub open spec fn authority_end_from(url: Seq<u8>, i: int) -> int
    decreases url.len() - i,
{
    if i < 0 || i >= url.len() {
        url.len() as int
    } else if url[i] == 47 || url[i] == 63 || url[i] == 35 {
        i
    } else {
        authority_end_from(url, i + 1)
    }
}

/// First position at or after `i` where the path ends: a '?' or '#', or the
/// end of the URL.
pub open spec fn path_end_from(url: Seq<u8>, i: int) -> int
    decreases url.len() - i,
{
    if i < 0 || i >= url.len() {
        url.len() as int
    } else if url[i] == 63 || url[i] == 35 {
        i
    } else {
        path_end_from(url, i + 1)
    }
}

/// The rightmost '/' in `url[from..to]`, if any.
pub open spec fn last_slash_before(url: Seq<u8>, from: int, to: int) -> Option<int>
    decreases to - from,
{
    if from < 0 || to <= from || to > url.len() {
        None
    } else if url[to - 1] == 47 {
        Some(to - 1)
    } else {
        last_slash_before(url, from, to - 1)
    }
}

/// The URL parses: a well-formed scheme, the separator, and a nonempty
/// authority.
pub open spec fn parses(url: Seq<u8>) -> bool {
    &&& scheme_ok(url)
    &&& authority_end_from(url, sep_pos(url)->Some_0 + 3) > sep_pos(url)->Some_0 + 3
}

/// Scheme and authority only: the URL up to the end of its authority.
pub open spec fn base_path_spec(url: Seq<u8>) -> Seq<u8>
    recommends
        parses(url),
{
    url.take(authority_end_from(url, sep_pos(url)->Some_0 + 3))
}

/// The end of `url[..e]` once every trailing '/' is dropped.
pub open spec fn trim_slashes_end(url: Seq<u8>, e: int) -> int
    decreases e,
{
    if 0 < e <= url.len() && url[e - 1] == 47 {
        trim_slashes_end(url, e - 1)
    } else {
        e
    }
}

/// The URL with query and fragment dropped and its last path segment removed,
/// without any trailing slash.
pub open spec fn current_path_spec(url: Seq<u8>) -> Seq<u8>
    recommends
        parses(url),
{
    let ae = authority_end_from(url, sep_pos(url)->Some_0 + 3);
    let pe = path_end_from(url, ae);
    let cut = match last_slash_before(url, ae, pe) {
        Some(j) => j,
        None => ae,
    };
    url.take(trim_slashes_end(url, cut))
}

/// First position at or after `from` holding '/', '?' or '#', or the end.
fn scan_authority_end(url: &[u8], from: usize) -> (r: usize)
    requires
        from <= url@.len(),
    ensures
        r == authority_end_from(url@, from as int),
        from <= r <= url@.len(),
{
    let n = url.len();
    let mut i: usize = from;
    while i < n
        invariant
            n == url@.len(),
            from <= i <= n,
            authority_end_from(url@, from as int) == authority_end_from(url@, i as int),
        decreases n - i,
    {
        let c = url[i];
        if c == 47 || c == 63 || c == 35 {
            return i;
        }
        i += 1;
    }
    n
}

/// First position at or after `from` holding '?' or '#', or the end.
fn scan_path_end(url: &[u8], from: usize) -> (r: usize)
    requires
        from <= url@.len(),
    ensures
        r == path_end_from(url@, from as int),
        from <= r <= url@.len(),
{
    let n = url.len();
    let mut i: usize = from;
    while i < n
        invariant
            n == url@.len(),
            from <= i <= n,
            path_end_from(url@, from as int) == path_end_from(url@, i as int),
        decreases n - i,
    {
        let c = url[i];
        if c == 63 || c == 35 {
            return i;
        }
        i += 1;
    }
    n
}

/// The rightmost '/' in `url[from..to]`, if any.
fn scan_last_slash(url: &[u8], from: usize, to: usize) -> (r: Option<usize>)
    requires
        to <= url@.len(),
    ensures
        match r {
            Some(j) => last_slash_before(url@, from as int, to as int) == Some(j as int),
            None => last_slash_before(url@, from as int, to as int) is None,
        },
{
    let mut k: usize = to;
    while k > from
        invariant
            k <= to <= url@.len(),
            last_slash_before(url@, from as int, to as int) == last_slash_before(
                url@,
                from as int,
                k as int,
            ),
        decreases k,
    {
        if url[k - 1] == 47 {
            return Some(k - 1);
        }
        k -= 1;
    }
    None
}

/// Derives the two anchors of a document from its absolute URL: its
/// `current_path` (last path segment dropped) and its `base_path` (scheme and
/// authority only), both without a trailing slash.
pub fn get_url_path(url: &[u8]) -> (r: Result<(Vec<u8>, Vec<u8>), MalformedUrlError>)
    ensures
        r is Ok <==> parses(url@),
        r matches Ok(pair) ==> pair.0@ == current_path_spec(url@) && pair.1@ == base_path_spec(
            url@,
        ),
{
    let n = url.len();
    let sep_b = scheme_sep_bytes();
    let sep = find(url, sep_b.as_slice(), 0);
    let i = match sep {
        Some(i) => i,
        None => {
            return Err(MalformedUrlError);
        },
    };
    proof {
        crate::bytes::lemma_find_spec(url@, spec_scheme_sep(), 0);
    }
    if i < 1 {
        return Err(MalformedUrlError);
    }
    let c0 = url[0];
    if !(65 <= c0 && c0 <= 90 || 97 <= c0 && c0 <= 122) {
        return Err(MalformedUrlError);
    }
    let mut j: usize = 0;
    while j < i
        invariant
            i + 3 <= n == url@.len(),
            sep_pos(url@) == Some(i as int),
            1 <= i,
            is_alpha(url@[0]),
            0 <= j <= i,
            forall|k: int| 0 <= k < j ==> is_scheme_char(#[trigger] url@[k]),
        decreases i - j,
    {
        let c = url[j];
        if !(65 <= c && c <= 90 || 97 <= c && c <= 122 || 48 <= c && c <= 57 || c == 43 || c == 45
            || c == 46) {
            return Err(MalformedUrlError);
        }
        j += 1;
    }
    let ae = scan_authority_end(url, i + 3);
    if ae == i + 3 {
        return Err(MalformedUrlError);
    }
    let pe = scan_path_end(url, ae);
    let base = subvec(url, 0, ae);
    let mut cur_end = match scan_last_slash(url, ae, pe) {
        Some(j) => j,
        None => ae,
    };
    proof {
        if last_slash_before(url@, ae as int, pe as int) is Some {
            lemma_last_slash_bounds(url@, ae as int, pe as int);
        }
    }
    let ghost cut0 = cur_end as int;
    while cur_end > 0 && url[cur_end - 1] == 47
        invariant
            n == url@.len(),
            0 <= cur_end <= n,
            trim_slashes_end(url@, cut0) == trim_slashes_end(url@, cur_end as int),
        decreases cur_end,
    {
        cur_end -= 1;
    }
    let cur = subvec(url, 0, cur_end);
    proof {
        assert(url@.subrange(0, ae as int) =~= url@.take(ae as int));
        assert(url@.subrange(0, cur_end as int) =~= url@.take(cur_end as int));
    }
    Ok((cur, base))
}

/// A found slash lies inside the searched range.
proof fn lemma_last_slash_bounds(url: Seq<u8>, from: int, to: int)
    requires
        last_slash_before(url, from, to) is Some,
    ensures
        from <= last_slash_before(url, from, to)->Some_0 < to,
    decreases to - from,
{
    if from < 0 || to <= from || to > url.len() {
    } else if url[to - 1] == 47 {
    } else {
        lemma_last_slash_bounds(url, from, to - 1);
    }
}

/// The authority runs to its end without meeting a delimiter.
proof fn lemma_authority_chars(url: Seq<u8>, i: int)
    requires
        0 <= i <= url.len(),
    ensures
        i <= authority_end_from(url, i) <= url.len(),
        forall|j: int|
            i <= j < authority_end_from(url, i) ==> #[trigger] url[j] != 47 && url[j] != 63
                && url[j] != 35,
    decreases url.len() - i,
{
    if i < url.len() && !(url[i] == 47 || url[i] == 63 || url[i] == 35) {
        lemma_authority_chars(url, i + 1);
    }
}

/// The path end lies between its start and the end of the URL.
proof fn lemma_path_end_bounds(url: Seq<u8>, i: int)
    requires
        0 <= i <= url.len(),
    ensures
        i <= path_end_from(url, i) <= url.len(),
    decreases url.len() - i,
{
    if i < url.len() && !(url[i] == 63 || url[i] == 35) {
        lemma_path_end_bounds(url, i + 1);
    }
}

/// Trimming trailing slashes from `url[..e]` stays at or above `p` when the
/// byte before `p` is no slash, and leaves no slash at the end.
proof fn lemma_trim_bounds(url: Seq<u8>, p: int, e: int)
    requires
        0 <= p <= e <= url.len(),
        p == 0 || url[p - 1] != 47,
    ensures
        p <= trim_slashes_end(url, e) <= e,
        trim_slashes_end(url, e) == 0 || url[trim_slashes_end(url, e) - 1] != 47,
    decreases e,
{
    if 0 < e && url[e - 1] == 47 {
        lemma_trim_bounds(url, p, e - 1);
    }
}

/// The anchors' shape: for every URL that parses, `base_path` is a prefix of
/// `current_path`, and neither anchor ends with a slash.
pub proof fn lemma_anchor_shape(url: Seq<u8>)
    requires
        parses(url),
    ensures
        has_prefix(current_path_spec(url), base_path_spec(url)),
        !has_suffix(current_path_spec(url), spec_slash()),
        !has_suffix(base_path_spec(url), spec_slash()),
{
    crate::bytes::lemma_find_spec(url, spec_scheme_sep(), 0);
    let i = sep_pos(url)->Some_0;
    let ae = authority_end_from(url, i + 3);
    lemma_authority_chars(url, i + 3);
    assert(url[ae - 1] != 47);
    let pe = path_end_from(url, ae);
    lemma_path_end_bounds(url, ae);
    let cut = match last_slash_before(url, ae, pe) {
        Some(j) => j,
        None => ae,
    };
    if last_slash_before(url, ae, pe) is Some {
        lemma_last_slash_bounds(url, ae, pe);
    }
    lemma_trim_bounds(url, ae, cut);
    let t = trim_slashes_end(url, cut);
    let base = base_path_spec(url);
    let cur = current_path_spec(url);
    assert(base == url.take(ae));
    assert(cur == url.take(t));
    assert(cur.subrange(0, ae) =~= base);
    assert(has_prefix(cur, base));
    if has_suffix(base, spec_slash()) {
        assert(base.subrange(ae - 1, ae)[0] == base[ae - 1]);
        assert(url[ae - 1] == 47);
    }
    if has_suffix(cur, spec_slash()) {
        assert(cur.subrange(t - 1, t)[0] == cur[t - 1]);
        assert(url[t - 1] == 47);
    }
}

/// The classification and resolution of a raw reference against a document's
/// anchors. First match wins: an absolute reference is returned unchanged; a
/// protocol-relative one gets "http:" where `base_path` literally starts with
/// "http://" and "https:" otherwise; a root-relative one is appended to
/// `base_path`; anything else is appended to `current_path` after a '/'.
pub open spec fn resolve_spec(reference: Seq<u8>, current_path: Seq<u8>, base_path: Seq<u8>) -> Seq<
    u8,
> {
    if has_prefix(reference, spec_https_scheme()) || has_prefix(
        reference,
        spec_http_scheme(),
    ) {
        reference
    } else if has_prefix(reference, spec_slash_slash()) {
        (if has_prefix(base_path, spec_http_scheme()) {
            spec_http_colon()
        } else {
            spec_https_colon()
        }) + reference
    } else if has_prefix(reference, spec_slash()) {
        base_path + reference
    } else {
        current_path + spec_slash() + reference
    }
}

/// Resolves a raw reference to an absolute URL. Total: unrecognized forms fall
/// through to document-relative resolution.
pub fn resolve(reference: &[u8], current_path: &[u8], base_path: &[u8]) -> (r: Vec<u8>)
    ensures
        r@ == resolve_spec(reference@, current_path@, base_path@),
        has_prefix(reference@, spec_https_scheme()) || has_prefix(
            reference@,
            spec_http_scheme(),
        ) ==> r@ == reference@,
        !has_prefix(reference@, spec_https_scheme()) && !has_prefix(
            reference@,
            spec_http_scheme(),
        ) && has_prefix(reference@, spec_slash_slash()) ==> r@ == (if has_prefix(
            base_path@,
            spec_http_scheme(),
        ) {
            spec_http_colon()
        } else {
            spec_https_colon()
        }) + reference@,
        !has_prefix(reference@, spec_https_scheme()) && !has_prefix(
            reference@,
            spec_http_scheme(),
        ) && !has_prefix(reference@, spec_slash_slash()) && has_prefix(
            reference@,
            spec_slash(),
        ) ==> r@ == base_path@ + reference@,
        !has_prefix(reference@, spec_https_scheme()) && !has_prefix(
            reference@,
            spec_http_scheme(),
        ) && !has_prefix(reference@, spec_slash_slash()) && !has_prefix(
            reference@,
            spec_slash(),
        ) ==> r@ == current_path@ + spec_slash() + reference@,
{
    let https_b = https_scheme_bytes();
    let http_b = http_scheme_bytes();
    if starts_with(reference, https_b.as_slice()) || starts_with(reference, http_b.as_slice()) {
        let mut v: Vec<u8> = Vec::new();
        crate::bytes::push_all(&mut v, reference);
        proof {
            assert(v@ =~= reference@);
        }
        v
    } else if starts_with(reference, slash_slash_bytes().as_slice()) {
        let prefix: Vec<u8> = if starts_with(base_path, http_scheme_bytes().as_slice()) {
            http_colon_bytes()
        } else {
            https_colon_bytes()
        };
        concat2(prefix.as_slice(), reference)
    } else if starts_with(reference, slash_bytes().as_slice()) {
        concat2(base_path, reference)
    } else {
        concat3(current_path, slash_bytes().as_slice(), reference)
    }
}

} // verus!
