//! Verified building blocks for working with byte strings: prefix and suffix
//! tests, substring search, and global (leftmost, non-overlapping) replacement.
use vstd::prelude::*;

verus! {

/// The pattern `p` occurs in `t` at position `i`.
pub open spec fn match_at(t: Seq<u8>, p: Seq<u8>, i: int) -> bool {
    &&& 0 <= i
    &&& i + p.len() <= t.len()
    &&& t.subrange(i, i + p.len() as int) == p
}

/// `t` begins with `p`.
pub open spec fn has_prefix(t: Seq<u8>, p: Seq<u8>) -> bool {
    match_at(t, p, 0)
}

/// `t` ends with `p`.
pub open spec fn has_suffix(t: Seq<u8>, p: Seq<u8>) -> bool {
    match_at(t, p, t.len() - p.len())
}

/// Position of the leftmost occurrence of `p` in `t` at or after `from`.
pub open spec fn find_spec(t: Seq<u8>, p: Seq<u8>, from: int) -> Option<int>
    decreases t.len() - from,
{
    if from < 0 || from + p.len() > t.len() {
        None
    } else if p.len() == 0 || match_at(t, p, from) {
        Some(from)
    } else {
        find_spec(t, p, from + 1)
    }
}

/// Position of the leftmost occurrence of the byte `b` in `t[from..to]`.
pub open spec fn find_byte_spec(t: Seq<u8>, b: u8, from: int, to: int) -> Option<int>
    decreases to - from,
{
    if from < 0 || from >= to || to > t.len() {
        None
    } else if t[from] == b {
        Some(from)
    } else {
        find_byte_spec(t, b, from + 1, to)
    }
}

/// What a successful or failed search says about the text.
pub proof fn lemma_find_spec(t: Seq<u8>, p: Seq<u8>, from: int)
    requires
        0 <= from,
        p.len() > 0,
    ensures
        match find_spec(t, p, from) {
            Some(i) => from <= i && i + p.len() <= t.len() && match_at(t, p, i) && forall|j: int|
                from <= j < i ==> !match_at(t, p, j),
            None => forall|j: int| from <= j ==> !match_at(t, p, j),
        },
    decreases t.len() - from,
{
    if from + p.len() > t.len() {
    } else if match_at(t, p, from) {
    } else {
        lemma_find_spec(t, p, from + 1);
    }
}

/// What a successful or failed byte search says about the text.
pub proof fn lemma_find_byte_spec(t: Seq<u8>, b: u8, from: int, to: int)
    requires
        0 <= from,
        to <= t.len(),
    ensures
        match find_byte_spec(t, b, from, to) {
            Some(i) => from <= i < to && t[i] == b && forall|j: int| from <= j < i ==> t[j] != b,
            None => forall|j: int| from <= j < to ==> t[j] != b,
        },
    decreases to - from,
{
    if from >= to {
    } else if t[from] == b {
    } else {
        lemma_find_byte_spec(t, b, from + 1, to);
    }
}

/// Equality of `t[i..i + p.len()]` with `p`.
fn eq_at(t: &[u8], p: &[u8], i: usize) -> (r: bool)
    requires
        i + p@.len() <= t@.len(),
    ensures
        r == match_at(t@, p@, i as int),
{
    let t_len = t.len();
    let p_len = p.len();
    let mut j: usize = 0;
    while j < p_len
        invariant
            t_len == t@.len(),
            p_len == p@.len(),
            i + p@.len() <= t@.len(),
            0 <= j <= p@.len(),
            forall|k: int| 0 <= k < j ==> t@[i + k] == p@[k],
        decreases p@.len() - j,
    {
        if t[i + j] != p[j] {
            proof {
                assert(t@.subrange(i as int, i + p@.len() as int)[j as int] == t@[i + j]);
            }
            return false;
        }
        j += 1;
    }
    proof {
        assert(t@.subrange(i as int, i + p@.len() as int) =~= p@);
    }
    true
}

/// Are two byte strings equal?
pub fn bytes_eq(a: &[u8], b: &[u8]) -> (r: bool)
    ensures
        r == (a@ == b@),
{
    if a.len() != b.len() {
        return false;
    }
    let r = eq_at(a, b, 0);
    proof {
        assert(a@.subrange(0, a@.len() as int) =~= a@);
    }
    r
}

/// Does `t` begin with `p`?
pub fn starts_with(t: &[u8], p: &[u8]) -> (r: bool)
    ensures
        r == has_prefix(t@, p@),
{
    if p.len() > t.len() {
        return false;
    }
    eq_at(t, p, 0)
}

/// Does `t` end with `p`?
pub fn ends_with(t: &[u8], p: &[u8]) -> (r: bool)
    ensures
        r == has_suffix(t@, p@),
{
    if p.len() > t.len() {
        return false;
    }
    eq_at(t, p, t.len() - p.len())
}

/// Leftmost occurrence of `p` in `t` at or after `from`.
pub fn find(t: &[u8], p: &[u8], from: usize) -> (r: Option<usize>)
    requires
        p@.len() > 0,
    ensures
        match r {
            Some(i) => find_spec(t@, p@, from as int) == Some(i as int),
            None => find_spec(t@, p@, from as int) is None,
        },
{
    let t_len = t.len();
    let p_len = p.len();
    if p_len > t_len || from > t_len - p_len {
        return None;
    }
    let mut i: usize = from;
    while i <= t_len - p_len
        invariant
            t_len == t@.len(),
            p_len == p@.len(),
            0 < p_len <= t_len,
            from <= i <= t_len - p_len + 1,
            find_spec(t@, p@, from as int) == find_spec(t@, p@, i as int),
        decreases t@.len() - i,
    {
        if eq_at(t, p, i) {
            return Some(i);
        }
        i += 1;
    }
    None
}

/// Leftmost occurrence of the byte `b` in `t[from..to]`.
pub fn find_byte_in(t: &[u8], b: u8, from: usize, to: usize) -> (r: Option<usize>)
    requires
        to <= t@.len(),
    ensures
        match r {
            Some(i) => find_byte_spec(t@, b, from as int, to as int) == Some(i as int),
            None => find_byte_spec(t@, b, from as int, to as int) is None,
        },
{
    if from >= to {
        return None;
    }
    let mut i: usize = from;
    while i < to
        invariant
            from <= i <= to <= t@.len(),
            find_byte_spec(t@, b, from as int, to as int) == find_byte_spec(
                t@,
                b,
                i as int,
                to as int,
            ),
        decreases to - i,
    {
        if t[i] == b {
            return Some(i);
        }
        i += 1;
    }
    None
}

/// Appends all of `s` to `out`.
pub fn push_all(out: &mut Vec<u8>, s: &[u8])
    ensures
        final(out)@ == old(out)@ + s@,
{
    out.extend_from_slice(s);
    proof {
        assert(out@ =~= old(out)@ + s@);
    }
}

/// Concatenation of two byte strings.
pub fn concat2(a: &[u8], b: &[u8]) -> (r: Vec<u8>)
    ensures
        r@ == a@ + b@,
{
    let mut v: Vec<u8> = Vec::new();
    push_all(&mut v, a);
    push_all(&mut v, b);
    proof {
        assert(v@ =~= a@ + b@);
    }
    v
}

/// Concatenation of three byte strings.
pub fn concat3(a: &[u8], b: &[u8], c: &[u8]) -> (r: Vec<u8>)
    ensures
        r@ == a@ + b@ + c@,
{
    let mut v = concat2(a, b);
    push_all(&mut v, c);
    v
}

/// The bytes `t[from..to]` as a fresh vector.
pub fn subvec(t: &[u8], from: usize, to: usize) -> (r: Vec<u8>)
    requires
        from <= to <= t@.len(),
    ensures
        r@ == t@.subrange(from as int, to as int),
{
    let mut v: Vec<u8> = Vec::new();
    let mut i: usize = from;
    proof {
        assert(v@ =~= t@.subrange(from as int, from as int));
    }
    while i < to
        invariant
            from <= i <= to <= t@.len(),
            v@ == t@.subrange(from as int, i as int),
        decreases to - i,
    {
        let c = t[i];
        v.push(c);
        proof {
            assert(v@ =~= t@.subrange(from as int, i + 1));
        }
        i += 1;
    }
    v
}

/// `t` with every occurrence of `p` replaced by `r`, scanning left to right
/// over non-overlapping occurrences.
pub open spec fn replace_all_spec(t: Seq<u8>, p: Seq<u8>, r: Seq<u8>) -> Seq<u8>
    decreases t.len(),
{
    if p.len() == 0 || t.len() < p.len() {
        t
    } else if match_at(t, p, 0) {
        r + replace_all_spec(t.skip(p.len() as int), p, r)
    } else {
        seq![t[0]] + replace_all_spec(t.skip(1), p, r)
    }
}

/// Shifting the scan by `i` commutes with dropping `i` bytes of text.
proof fn lemma_match_at_skip(t: Seq<u8>, p: Seq<u8>, i: int, j: int)
    requires
        0 <= i <= t.len(),
        0 <= j,
    ensures
        match_at(t, p, i + j) == match_at(t.skip(i), p, j),
{
    if i + j + p.len() <= t.len() {
        assert(t.skip(i).subrange(j, j + p.len() as int) =~= t.subrange(
            i + j,
            i + j + p.len() as int,
        ));
    }
}

/// `t` with every occurrence of `p` replaced by `r`.
pub fn replace_all(t: &[u8], p: &[u8], r: &[u8]) -> (out: Vec<u8>)
    requires
        p@.len() > 0,
    ensures
        out@ == replace_all_spec(t@, p@, r@),
{
    let t_len = t.len();
    let p_len = p.len();
    let mut out: Vec<u8> = Vec::new();
    let mut i: usize = 0;
    proof {
        assert(t@.skip(0) =~= t@);
        assert(out@ + replace_all_spec(t@, p@, r@) =~= replace_all_spec(t@, p@, r@));
    }
    if p_len <= t_len {
        while i <= t_len - p_len
            invariant
                t_len == t@.len(),
                p_len == p@.len(),
                0 < p_len <= t_len,
                0 <= i <= t_len,
                replace_all_spec(t@, p@, r@) == out@ + replace_all_spec(
                    t@.skip(i as int),
                    p@,
                    r@,
                ),
            decreases t@.len() - i,
        {
            let ghost rest = t@.skip(i as int);
            let ghost out0 = out@;
            if eq_at(t, p, i) {
                push_all(&mut out, r);
                proof {
                    lemma_match_at_skip(t@, p@, i as int, 0);
                    assert(match_at(rest, p@, 0));
                    assert(rest.skip(p@.len() as int) =~= t@.skip(i + p@.len()));
                    assert(replace_all_spec(rest, p@, r@) == r@ + replace_all_spec(
                        t@.skip(i + p@.len()),
                        p@,
                        r@,
                    ));
                    assert(out0 + (r@ + replace_all_spec(t@.skip(i + p@.len()), p@, r@)) =~= (out0
                        + r@) + replace_all_spec(t@.skip(i + p@.len()), p@, r@));
                }
                i += p_len;
            } else {
                let c = t[i];
                out.push(c);
                proof {
                    lemma_match_at_skip(t@, p@, i as int, 0);
                    assert(!match_at(rest, p@, 0));
                    assert(rest.len() >= p@.len());
                    assert(rest.skip(1) =~= t@.skip(i + 1));
                    assert(rest[0] == t@[i as int]);
                    assert(replace_all_spec(rest, p@, r@) == seq![t@[i as int]]
                        + replace_all_spec(t@.skip(i + 1), p@, r@));
                    assert(out0 + (seq![t@[i as int]] + replace_all_spec(t@.skip(i + 1), p@, r@))
                        =~= (out0 + seq![t@[i as int]]) + replace_all_spec(t@.skip(i + 1), p@, r@));
                    assert(out@ == out0 + seq![t@[i as int]]);
                }
                i += 1;
            }
        }
    }
    proof {
        assert(t@.skip(i as int).len() < p@.len());
        assert(replace_all_spec(t@.skip(i as int), p@, r@) == t@.skip(i as int));
    }
    while i < t_len
        invariant
            t_len == t@.len(),
            0 <= i <= t_len,
            replace_all_spec(t@, p@, r@) == out@ + t@.skip(i as int),
        decreases t@.len() - i,
    {
        let ghost out0 = out@;
        let c = t[i];
        out.push(c);
        proof {
            assert(t@.skip(i as int) =~= seq![t@[i as int]] + t@.skip(i + 1));
            assert(out0 + (seq![t@[i as int]] + t@.skip(i + 1)) =~= (out0 + seq![t@[i as int]])
                + t@.skip(i + 1));
            assert(out@ == out0 + seq![t@[i as int]]);
        }
        i += 1;
    }
    proof {
        assert(out@ + t@.skip(i as int) =~= out@);
    }
    out
}

} // verus!
