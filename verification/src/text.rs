//! Verified byte-text utilities: pattern search, left-to-right replacement,
//! prefix handling and range copies. The header patcher, the rename pass and
//! the synthesis engine are all built on these.

use vstd::prelude::*;

verus! {

/// `pat` occurs in `s` starting at position `i`.
pub open spec fn match_at(s: Seq<u8>, pat: Seq<u8>, i: int) -> bool {
    0 <= i && i + pat.len() <= s.len() && s.subrange(i, i + pat.len()) == pat
}

/// `pat` occurs somewhere in `s`.
pub open spec fn contains_pat(s: Seq<u8>, pat: Seq<u8>) -> bool {
    exists|i: int| match_at(s, pat, i)
}

/// `i` is the first position at which `pat` occurs in `s`.
pub open spec fn first_match_at(s: Seq<u8>, pat: Seq<u8>, i: int) -> bool {
    match_at(s, pat, i) && (forall|j: int| 0 <= j < i ==> !match_at(s, pat, j))
}

/// `pat` is a prefix of `s`.
pub open spec fn has_prefix(s: Seq<u8>, pat: Seq<u8>) -> bool {
    pat.len() <= s.len() && s.take(pat.len() as int) == pat
}

/// An occurrence at `i` is the same thing as a prefix of the suffix at `i`.
pub proof fn lemma_match_at_skip(s: Seq<u8>, pat: Seq<u8>, i: int)
    requires
        0 <= i <= s.len(),
    ensures
        match_at(s, pat, i) <==> has_prefix(s.skip(i), pat),
{
    if i + pat.len() <= s.len() {
        assert(s.skip(i).take(pat.len() as int) =~= s.subrange(i, i + pat.len()));
    }
}

/// The result of replacing every occurrence of `pat` in `s` by `rep`,
/// scanning left to right without overlap.
pub open spec fn replace_all(s: Seq<u8>, pat: Seq<u8>, rep: Seq<u8>) -> Seq<u8>
    decreases s.len(),
{
    if pat.len() == 0 || s.len() == 0 {
        s
    } else if has_prefix(s, pat) {
        rep + replace_all(s.skip(pat.len() as int), pat, rep)
    } else {
        seq![s[0]] + replace_all(s.skip(1), pat, rep)
    }
}

/// An occurrence that lies wholly inside the left part of a concatenation is
/// an occurrence in that part.
pub proof fn lemma_match_in_concat_left(a: Seq<u8>, b: Seq<u8>, pat: Seq<u8>, p: int)
    requires
        match_at(a + b, pat, p),
        p + pat.len() <= a.len(),
    ensures
        match_at(a, pat, p),
{
    assert(a.subrange(p, p + pat.len()) =~= (a + b).subrange(p, p + pat.len()));
}

/// An occurrence that lies wholly inside the right part of a concatenation is
/// an occurrence in that part.
pub proof fn lemma_match_in_concat_right(a: Seq<u8>, b: Seq<u8>, pat: Seq<u8>, p: int)
    requires
        match_at(a + b, pat, p),
        p >= a.len(),
    ensures
        match_at(b, pat, p - a.len()),
{
    assert(b.subrange(p - a.len(), p - a.len() + pat.len()) =~= (a + b).subrange(p, p + pat.len()));
}

/// If the replaced text starts with a proper suffix of `pat`, and no proper
/// suffix of `pat` starts with the first byte of `rep`, then the original
/// text already started with that suffix.
proof fn lemma_replace_all_prefix_chain(s: Seq<u8>, pat: Seq<u8>, rep: Seq<u8>, k: int)
    requires
        pat.len() > 0,
        rep.len() > 0,
        1 <= k < pat.len(),
        forall|k2: int| 1 <= k2 < pat.len() ==> #[trigger] pat[k2] != rep[0],
        has_prefix(replace_all(s, pat, rep), pat.skip(k)),
    ensures
        has_prefix(s, pat.skip(k)),
    decreases s.len(),
{
    let r = replace_all(s, pat, rep);
    let t = pat.skip(k);
    assert(t.len() == pat.len() - k);
    assert(r.take(t.len() as int)[0] == r[0]);
    assert(t[0] == pat[k]);
    if s.len() == 0 {
        assert(false);
    } else if has_prefix(s, pat) {
        assert(r == rep + replace_all(s.skip(pat.len() as int), pat, rep));
        assert(r[0] == rep[0]);
        assert(false);
    } else {
        let s2 = s.skip(1);
        let r2 = replace_all(s2, pat, rep);
        assert(r == seq![s[0]] + r2);
        assert(r[0] == s[0]);
        if k == pat.len() - 1 {
            assert(s.take(1) =~= t);
        } else {
            assert(r.skip(1) =~= r2);
            assert forall|m: int| 0 <= m < pat.len() - k - 1 implies #[trigger] r2.take(
                pat.len() - k - 1,
            )[m] == pat.skip(k + 1)[m] by {
                assert(r.take(t.len() as int)[m + 1] == r[m + 1]);
                assert(t[m + 1] == pat[k + 1 + m]);
                assert(r[m + 1] == r2[m]);
            }
            assert(r2.take(pat.len() - k - 1) =~= pat.skip(k + 1));
            lemma_replace_all_prefix_chain(s2, pat, rep, k + 1);
            assert forall|m: int| 0 <= m < pat.len() - k implies #[trigger] s.take(
                pat.len() - k,
            )[m] == t[m] by {
                if m == 0 {
                } else {
                    assert(s2.take(pat.len() - k - 1)[m - 1] == pat.skip(k + 1)[m - 1]);
                    assert(s[m] == s2[m - 1]);
                }
            }
            assert(s.take(pat.len() - k) =~= t);
        }
    }
}

/// After `replace_all`, no occurrence of `pat` remains, provided `rep` does
/// not contain `pat`, no suffix of `rep` is a proper prefix of `pat`, and no
/// proper suffix of `pat` starts with the first byte of `rep`.
pub proof fn lemma_replace_all_free_of_pat(s: Seq<u8>, pat: Seq<u8>, rep: Seq<u8>)
    requires
        pat.len() > 0,
        rep.len() > 0,
        !contains_pat(rep, pat),
        forall|p: int|
            0 <= p < rep.len() && rep.len() - p < pat.len() ==> #[trigger] rep.skip(p) != pat.take(
                rep.len() - p,
            ),
        forall|k: int| 1 <= k < pat.len() ==> #[trigger] pat[k] != rep[0],
    ensures
        !contains_pat(replace_all(s, pat, rep), pat),
    decreases s.len(),
{
    let r = replace_all(s, pat, rep);
    if s.len() == 0 {
        assert(forall|p: int| !match_at(r, pat, p));
    } else if has_prefix(s, pat) {
        let s2 = s.skip(pat.len() as int);
        lemma_replace_all_free_of_pat(s2, pat, rep);
        let r2 = replace_all(s2, pat, rep);
        assert(r == rep + r2);
        assert forall|p: int| !match_at(r, pat, p) by {
            if match_at(r, pat, p) {
                if p + pat.len() <= rep.len() {
                    lemma_match_in_concat_left(rep, r2, pat, p);
                    assert(contains_pat(rep, pat));
                } else if p >= rep.len() {
                    lemma_match_in_concat_right(rep, r2, pat, p);
                    assert(contains_pat(r2, pat));
                } else {
                    let l = rep.len() - p;
                    assert forall|m: int| 0 <= m < l implies #[trigger] rep.skip(p)[m] == pat.take(
                        l,
                    )[m] by {
                        assert(r.subrange(p, p + pat.len())[m] == pat[m]);
                        assert(r[p + m] == rep[p + m]);
                    }
                    assert(rep.skip(p) =~= pat.take(l));
                    assert(rep.skip(p) != pat.take(l));
                }
            }
        }
    } else {
        let s2 = s.skip(1);
        lemma_replace_all_free_of_pat(s2, pat, rep);
        let r2 = replace_all(s2, pat, rep);
        assert(r == seq![s[0]] + r2);
        assert forall|p: int| !match_at(r, pat, p) by {
            if match_at(r, pat, p) {
                if p >= 1 {
                    lemma_match_in_concat_right(seq![s[0]], r2, pat, p);
                    assert(contains_pat(r2, pat));
                } else {
                    assert(p == 0);
                    assert(r.subrange(0, pat.len() as int)[0] == r[0]);
                    assert(r[0] == s[0]);
                    assert(s[0] == pat[0]);
                    if pat.len() == 1 {
                        assert(s.take(1) =~= pat);
                        assert(has_prefix(s, pat));
                    } else {
                        assert(r.skip(1) =~= r2);
                        assert forall|m: int| 0 <= m < pat.len() - 1 implies #[trigger] r2.take(
                            pat.len() - 1,
                        )[m] == pat.skip(1)[m] by {
                            assert(r.subrange(0, pat.len() as int)[m + 1] == pat[m + 1]);
                            assert(r[m + 1] == r2[m]);
                        }
                        assert(r2.take(pat.len() - 1) =~= pat.skip(1));
                        lemma_replace_all_prefix_chain(s2, pat, rep, 1);
                        assert forall|m: int| 0 <= m < pat.len() implies #[trigger] s.take(
                            pat.len() as int,
                        )[m] == pat[m] by {
                            if m == 0 {
                            } else {
                                assert(s2.take(pat.len() - 1)[m - 1] == pat.skip(1)[m - 1]);
                                assert(s[m] == s2[m - 1]);
                            }
                        }
                        assert(s.take(pat.len() as int) =~= pat);
                        assert(has_prefix(s, pat));
                    }
                }
            }
        }
    }
}

/// Replacement in a text without any occurrence of the pattern changes
/// nothing.
pub proof fn lemma_replace_all_noop(s: Seq<u8>, pat: Seq<u8>, rep: Seq<u8>)
    requires
        !contains_pat(s, pat),
    ensures
        replace_all(s, pat, rep) == s,
    decreases s.len(),
{
    if pat.len() == 0 || s.len() == 0 {
    } else if has_prefix(s, pat) {
        lemma_match_at_skip(s, pat, 0);
        assert(s.skip(0) =~= s);
        assert(match_at(s, pat, 0));
    } else {
        assert forall|j: int| !match_at(s.skip(1), pat, j) by {
            if match_at(s.skip(1), pat, j) {
                assert(s.subrange(j + 1, j + 1 + pat.len()) =~= s.skip(1).subrange(
                    j,
                    j + pat.len(),
                ));
                assert(match_at(s, pat, j + 1));
            }
        }
        lemma_replace_all_noop(s.skip(1), pat, rep);
        assert(seq![s[0]] + s.skip(1) =~= s);
    }
}

/// Byte-for-byte equality of two vectors.
pub fn bytes_eq(a: &Vec<u8>, b: &Vec<u8>) -> (r: bool)
    ensures
        r <==> a@ == b@,
{
    if a.len() != b.len() {
        return false;
    }
    let mut i: usize = 0;
    while i < a.len()
        invariant
            i <= a@.len(),
            a@.len() == b@.len(),
            forall|j: int| 0 <= j < i ==> a@[j] == b@[j],
        decreases a@.len() - i,
    {
        if a[i] != b[i] {
            return false;
        }
        i += 1;
    }
    proof {
        assert(a@ =~= b@);
    }
    true
}

/// Whether `pat` occurs in `s` at position `i`.
pub fn matches_at(s: &Vec<u8>, pat: &Vec<u8>, i: usize) -> (r: bool)
    ensures
        r <==> match_at(s@, pat@, i as int),
{
    let n = s.len();
    if pat.len() > n || i > n - pat.len() {
        return false;
    }
    let mut j: usize = 0;
    while j < pat.len()
        invariant
            n == s@.len(),
            i + pat@.len() <= n,
            j <= pat@.len(),
            forall|k: int| 0 <= k < j ==> s@[i + k] == pat@[k],
        decreases pat@.len() - j,
    {
        if s[i + j] != pat[j] {
            proof {
                if match_at(s@, pat@, i as int) {
                    assert(s@.subrange(i as int, i + pat@.len())[j as int] == s@[i + j]);
                }
            }
            return false;
        }
        j += 1;
    }
    proof {
        assert(s@.subrange(i as int, i + pat@.len()) =~= pat@);
    }
    true
}

/// The first occurrence of `pat` in `s`, if any.
pub fn find_pat(s: &Vec<u8>, pat: &Vec<u8>) -> (r: Option<usize>)
    requires
        pat@.len() > 0,
    ensures
        match r {
            Some(i) => first_match_at(s@, pat@, i as int),
            None => !contains_pat(s@, pat@),
        },
{
    let mut i: usize = 0;
    while i < s.len()
        invariant
            i <= s@.len(),
            pat@.len() > 0,
            forall|j: int| 0 <= j < i ==> !match_at(s@, pat@, j),
        decreases s@.len() - i,
    {
        if matches_at(s, pat, i) {
            return Some(i);
        }
        i += 1;
    }
    None
}

/// Appends all of `src` to `out`.
pub fn push_all(out: &mut Vec<u8>, src: &Vec<u8>)
    ensures
        final(out)@ == old(out)@ + src@,
{
    let mut j: usize = 0;
    while j < src.len()
        invariant
            j <= src@.len(),
            out@ == old(out)@ + src@.take(j as int),
        decreases src@.len() - j,
    {
        out.push(src[j]);
        proof {
            assert(old(out)@ + src@.take(j as int) + seq![src@[j as int]] =~= old(out)@
                + src@.take(j + 1));
        }
        j += 1;
    }
    proof {
        assert(src@.take(src@.len() as int) =~= src@);
    }
}

/// Copies the range `[from, to)` of `s` into a fresh vector.
pub fn copy_range(s: &Vec<u8>, from: usize, to: usize) -> (r: Vec<u8>)
    requires
        from <= to <= s@.len(),
    ensures
        r@ == s@.subrange(from as int, to as int),
{
    let mut r: Vec<u8> = Vec::new();
    let mut k: usize = from;
    while k < to
        invariant
            from <= k <= to <= s@.len(),
            r@ == s@.subrange(from as int, k as int),
        decreases to - k,
    {
        r.push(s[k]);
        proof {
            assert(s@.subrange(from as int, k as int) + seq![s@[k as int]] =~= s@.subrange(
                from as int,
                k + 1,
            ));
        }
        k += 1;
    }
    r
}

/// A fresh copy of `s`.
pub fn copy_bytes(s: &Vec<u8>) -> (r: Vec<u8>)
    ensures
        r@ == s@,
{
    let r = copy_range(s, 0, s.len());
    proof {
        assert(s@.subrange(0, s@.len() as int) =~= s@);
    }
    r
}

/// Replaces every occurrence of `pat` in `s` by `rep`, scanning left to
/// right without overlap.
pub fn replace_all_bytes(s: &Vec<u8>, pat: &Vec<u8>, rep: &Vec<u8>) -> (r: Vec<u8>)
    requires
        pat@.len() > 0,
    ensures
        r@ == replace_all(s@, pat@, rep@),
{
    let mut out: Vec<u8> = Vec::new();
    let mut i: usize = 0;
    proof {
        assert(s@.skip(0) =~= s@);
        assert(out@ + replace_all(s@, pat@, rep@) =~= replace_all(s@, pat@, rep@));
    }
    while i < s.len()
        invariant
            i <= s@.len(),
            pat@.len() > 0,
            replace_all(s@, pat@, rep@) == out@ + replace_all(s@.skip(i as int), pat@, rep@),
        decreases s@.len() - i,
    {
        let ghost prev = out@;
        if matches_at(s, pat, i) {
            proof {
                lemma_match_at_skip(s@, pat@, i as int);
                assert(s@.skip(i as int).skip(pat@.len() as int) =~= s@.skip(i + pat@.len()));
            }
            push_all(&mut out, rep);
            proof {
                assert((prev + rep@) + replace_all(s@.skip(i + pat@.len()), pat@, rep@) =~= prev + (
                rep@ + replace_all(s@.skip(i + pat@.len()), pat@, rep@)));
            }
            i += pat.len();
        } else {
            proof {
                lemma_match_at_skip(s@, pat@, i as int);
                assert(s@.skip(i as int)[0] == s@[i as int]);
                assert(s@.skip(i as int).skip(1) =~= s@.skip(i + 1));
            }
            out.push(s[i]);
            proof {
                assert((prev + seq![s@[i as int]]) + replace_all(s@.skip(i + 1), pat@, rep@) =~= prev
                    + (seq![s@[i as int]] + replace_all(s@.skip(i + 1), pat@, rep@)));
            }
            i += 1;
        }
    }
    proof {
        assert(s@.skip(s@.len() as int) =~= Seq::<u8>::empty());
        assert(out@ + Seq::<u8>::empty() =~= out@);
    }
    out
}

} // verus!
