//! Patching of the generated C headers.
//!
//! Two rewrites are applied before the headers are handed to the native
//! compiler and the interface generator:
//! - every union-introducing token is replaced by the struct-introducing
//!   token, so that the binding layer never has to represent a C union;
//! - in the header that defines the common base context type, one integer
//!   field is injected immediately after a well-known anchor field, exactly
//!   once. That field stores the per-instance allocation method.

use vstd::prelude::*;

use crate::text::contains_pat;
use crate::text::copy_bytes;
use crate::text::copy_range;
use crate::text::find_pat;
use crate::text::first_match_at;
use crate::text::lemma_match_in_concat_left;
use crate::text::lemma_match_in_concat_right;
use crate::text::lemma_replace_all_free_of_pat;
use crate::text::lemma_replace_all_noop;
use crate::text::match_at;
use crate::text::push_all;
use crate::text::replace_all;
use crate::text::replace_all_bytes;
use crate::text::bytes_eq;

verus! {

/// The union-introducing token, `"union "`.
pub open spec fn union_token() -> Seq<u8> {
    seq![117u8, 110u8, 105u8, 111u8, 110u8, 32u8]
}

/// The struct-introducing token, `"struct "`.
pub open spec fn struct_token() -> Seq<u8> {
    seq![115u8, 116u8, 114u8, 117u8, 99u8, 116u8, 32u8]
}

/// The anchor field declaration, `"ber_tlv_len_t left;"`. The ownership
/// field is injected right after the first line containing it.
pub open spec fn anchor_token() -> Seq<u8> {
    seq![
        98u8, 101u8, 114u8, 95u8, 116u8, 108u8, 118u8, 95u8, 108u8, 101u8, 110u8, 95u8, 116u8, 32u8, 108u8,
        101u8, 102u8, 116u8, 59u8,
    ]
}

/// The injected field declaration, `"    int alloc_method;"`, without its
/// terminating newline.
pub open spec fn alloc_field_line() -> Seq<u8> {
    seq![
        32u8, 32u8, 32u8, 32u8, 105u8, 110u8, 116u8, 32u8, 97u8, 108u8, 108u8, 111u8, 99u8, 95u8, 109u8,
        101u8, 116u8, 104u8, 111u8, 100u8, 59u8,
    ]
}

/// The name of the header that defines the base context type,
/// `"constr_TYPE.h"`. Only that header receives the field injection.
pub open spec fn context_header_name() -> Seq<u8> {
    seq![99u8, 111u8, 110u8, 115u8, 116u8, 114u8, 95u8, 84u8, 89u8, 80u8, 69u8, 46u8, 104u8]
}

pub fn union_token_bytes() -> (r: Vec<u8>)
    ensures
        r@ == union_token(),
{
    let mut v: Vec<u8> = Vec::new();
    v.push(117u8);
    v.push(110u8);
    v.push(105u8);
    v.push(111u8);
    v.push(110u8);
    v.push(32u8);
    proof {
        assert(v@ =~= union_token());
    }
    v
}

pub fn struct_token_bytes() -> (r: Vec<u8>)
    ensures
        r@ == struct_token(),
{
    let mut v: Vec<u8> = Vec::new();
    v.push(115u8);
    v.push(116u8);
    v.push(114u8);
    v.push(117u8);
    v.push(99u8);
    v.push(116u8);
    v.push(32u8);
    proof {
        assert(v@ =~= struct_token());
    }
    v
}

pub fn anchor_token_bytes() -> (r: Vec<u8>)
    ensures
        r@ == anchor_token(),
{
    let mut v: Vec<u8> = Vec::new();
    v.push(98u8);
    v.push(101u8);
    v.push(114u8);
    v.push(95u8);
    v.push(116u8);
    v.push(108u8);
    v.push(118u8);
    v.push(95u8);
    v.push(108u8);
    v.push(101u8);
    v.push(110u8);
    v.push(95u8);
    v.push(116u8);
    v.push(32u8);
    v.push(108u8);
    v.push(101u8);
    v.push(102u8);
    v.push(116u8);
    v.push(59u8);
    proof {
        assert(v@ =~= anchor_token());
    }
    v
}

pub fn alloc_field_line_bytes() -> (r: Vec<u8>)
    ensures
        r@ == alloc_field_line(),
{
    let mut v: Vec<u8> = Vec::new();
    v.push(32u8);
    v.push(32u8);
    v.push(32u8);
    v.push(32u8);
    v.push(105u8);
    v.push(110u8);
    v.push(116u8);
    v.push(32u8);
    v.push(97u8);
    v.push(108u8);
    v.push(108u8);
    v.push(111u8);
    v.push(99u8);
    v.push(95u8);
    v.push(109u8);
    v.push(101u8);
    v.push(116u8);
    v.push(104u8);
    v.push(111u8);
    v.push(100u8);
    v.push(59u8);
    proof {
        assert(v@ =~= alloc_field_line());
    }
    v
}

pub fn context_header_name_bytes() -> (r: Vec<u8>)
    ensures
        r@ == context_header_name(),
{
    let mut v: Vec<u8> = Vec::new();
    v.push(99u8);
    v.push(111u8);
    v.push(110u8);
    v.push(115u8);
    v.push(116u8);
    v.push(114u8);
    v.push(95u8);
    v.push(84u8);
    v.push(89u8);
    v.push(80u8);
    v.push(69u8);
    v.push(46u8);
    v.push(104u8);
    proof {
        assert(v@ =~= context_header_name());
    }
    v
}

/// The side conditions under which `replace_all` leaves no occurrence
/// behind, checked for the union and struct tokens.
pub proof fn union_struct_token_facts()
    ensures
        !contains_pat(struct_token(), union_token()),
        forall|p: int|
            0 <= p < struct_token().len() && struct_token().len() - p < union_token().len()
                ==> #[trigger] struct_token().skip(p) != union_token().take(
                struct_token().len() - p,
            ),
        forall|k: int|
            1 <= k < union_token().len() ==> #[trigger] union_token()[k] != struct_token()[0],
{
    let pat = union_token();
    let rep = struct_token();
    assert forall|p: int| !match_at(rep, pat, p) by {
        if match_at(rep, pat, p) {
            assert(0 <= p && p + 6 <= 7);
            assert(rep.subrange(p, p + 6)[0] == rep[p]);
            assert(rep.subrange(p, p + 6)[0] == pat[0]);
            if p == 0 {
                assert(rep[0] == 115u8 && pat[0] == 117u8);
            } else {
                assert(p == 1);
                assert(rep[1] == 116u8 && pat[0] == 117u8);
            }
        }
    }
    assert forall|p: int| 0 <= p < rep.len() && rep.len() - p < pat.len() implies #[trigger] rep
        .skip(p) != pat.take(rep.len() - p) by {
        assert(2 <= p <= 6);
        if rep.skip(p) == pat.take(rep.len() - p) {
            if p == 3 {
                assert(rep.skip(3)[1] == rep[4]);
                assert(pat.take(4)[1] == pat[1]);
                assert(rep[4] == 99u8 && pat[1] == 110u8);
            } else {
                assert(rep.skip(p)[0] == rep[p]);
                assert(pat.take(rep.len() - p)[0] == pat[0]);
                assert(pat[0] == 117u8);
                if p == 2 {
                    assert(rep[2] == 114u8);
                } else if p == 4 {
                    assert(rep[4] == 99u8);
                } else if p == 5 {
                    assert(rep[5] == 116u8);
                } else {
                    assert(p == 6);
                    assert(rep[6] == 32u8);
                }
            }
        }
    }
    assert forall|k: int| 1 <= k < pat.len() implies #[trigger] pat[k] != rep[0] by {
        assert(rep[0] == 115u8);
        if k == 1 {
            assert(pat[1] == 110u8);
        } else if k == 2 {
            assert(pat[2] == 105u8);
        } else if k == 3 {
            assert(pat[3] == 111u8);
        } else if k == 4 {
            assert(pat[4] == 110u8);
        } else {
            assert(k == 5);
            assert(pat[5] == 32u8);
        }
    }
}

/// Rewrites every union-introducing token to the struct-introducing token,
/// leaving all other text unchanged. No union-introducing token remains in
/// the result.
pub fn patch_unions(text: &Vec<u8>) -> (r: Vec<u8>)
    ensures
        r@ == replace_all(text@, union_token(), struct_token()),
        !contains_pat(r@, union_token()),
{
    let pat = union_token_bytes();
    let rep = struct_token_bytes();
    let r = replace_all_bytes(text, &pat, &rep);
    proof {
        union_struct_token_facts();
        lemma_replace_all_free_of_pat(text@, union_token(), struct_token());
    }
    r
}

/// `e` is the end of the line of `t` that starts at or after `i`: the first
/// newline at or after `i`, or the end of the text.
pub open spec fn line_end_at(t: Seq<u8>, i: int, e: int) -> bool {
    &&& i <= e <= t.len()
    &&& e == t.len() || t[e] == 10u8
    &&& forall|j: int| i <= j < e ==> t[j] != 10u8
}

/// `t` with the ownership field line inserted right after the line ending at
/// `e`. If that line is unterminated, a newline is supplied first.
pub open spec fn injected_text(t: Seq<u8>, e: int) -> Seq<u8> {
    if e < t.len() {
        t.take(e + 1) + alloc_field_line() + seq![10u8] + t.skip(e + 1)
    } else {
        t + seq![10u8] + alloc_field_line() + seq![10u8]
    }
}

/// What the field injection produces: the text unchanged when the anchor is
/// absent, else exactly one field line inserted after the line holding the
/// first occurrence of the anchor.
pub open spec fn inject_spec(t: Seq<u8>, r: Seq<u8>) -> bool {
    if !contains_pat(t, anchor_token()) {
        r == t
    } else {
        exists|i: int, e: int|
            first_match_at(t, anchor_token(), i) && #[trigger] line_end_at(t, i, e) && r
                == injected_text(t, e)
    }
}

/// Injects the ownership-tracking field declaration immediately after the
/// first line containing the anchor field, exactly once; text without the
/// anchor is returned unchanged.
pub fn inject_alloc_field(text: &Vec<u8>) -> (r: Vec<u8>)
    ensures
        inject_spec(text@, r@),
{
    let anchor = anchor_token_bytes();
    let found = find_pat(text, &anchor);
    match found {
        None => copy_bytes(text),
        Some(i) => {
            let mut e: usize = i;
            while e < text.len() && text[e] != 10u8
                invariant
                    i <= e <= text@.len(),
                    forall|j: int| i <= j < e ==> text@[j] != 10u8,
                decreases text@.len() - e,
            {
                e += 1;
            }
            let field = alloc_field_line_bytes();
            let mut out: Vec<u8> = Vec::new();
            if e < text.len() {
                let pre = copy_range(text, 0, e + 1);
                push_all(&mut out, &pre);
                push_all(&mut out, &field);
                out.push(10u8);
                let post = copy_range(text, e + 1, text.len());
                push_all(&mut out, &post);
                proof {
                    assert(text@.subrange(0, e + 1) =~= text@.take(e + 1));
                    assert(text@.subrange(e + 1, text@.len() as int) =~= text@.skip(e + 1));
                    assert(out@ =~= injected_text(text@, e as int));
                }
            } else {
                push_all(&mut out, text);
                out.push(10u8);
                push_all(&mut out, &field);
                out.push(10u8);
                proof {
                    assert(out@ =~= injected_text(text@, e as int));
                }
            }
            proof {
                assert(line_end_at(text@, i as int, e as int));
                assert(inject_spec(text@, out@));
            }
            out
        },
    }
}

/// The union rewrite is idempotent: a header patched once is left unchanged
/// by a second pass, because the first pass leaves no union-introducing
/// token behind.
pub proof fn lemma_patch_unions_idempotent(t: Seq<u8>)
    ensures
        replace_all(
            replace_all(t, union_token(), struct_token()),
            union_token(),
            struct_token(),
        ) == replace_all(t, union_token(), struct_token()),
{
    union_struct_token_facts();
    lemma_replace_all_free_of_pat(t, union_token(), struct_token());
    lemma_replace_all_noop(
        replace_all(t, union_token(), struct_token()),
        union_token(),
        struct_token(),
    );
}

/// A pattern absent from a text is absent from every contiguous part of it.
proof fn lemma_subrange_no_pat(t: Seq<u8>, pat: Seq<u8>, a: int, b: int)
    requires
        !contains_pat(t, pat),
        0 <= a <= b <= t.len(),
    ensures
        !contains_pat(t.subrange(a, b), pat),
{
    assert forall|p: int| !match_at(t.subrange(a, b), pat, p) by {
        if match_at(t.subrange(a, b), pat, p) {
            assert(t.subrange(a + p, a + p + pat.len()) =~= t.subrange(a, b).subrange(
                p,
                p + pat.len(),
            ));
            assert(match_at(t, pat, a + p));
        }
    }
}

/// A newline-free pattern cannot straddle a part that ends with a newline.
proof fn lemma_match_split_at_newline(a: Seq<u8>, b: Seq<u8>, pat: Seq<u8>, p: int)
    requires
        match_at(a + b, pat, p),
        a.len() > 0,
        a[a.len() - 1] == 10u8,
        forall|k: int| 0 <= k < pat.len() ==> pat[k] != 10u8,
    ensures
        p + pat.len() <= a.len() || p >= a.len(),
{
    if p < a.len() && p + pat.len() > a.len() {
        let k = a.len() - 1 - p;
        assert((a + b).subrange(p, p + pat.len())[k] == (a + b)[a.len() - 1]);
        assert(pat[k] == 10u8);
    }
}

/// The union token holds no newline.
proof fn union_token_no_newline()
    ensures
        forall|k: int| 0 <= k < union_token().len() ==> union_token()[k] != 10u8,
{
    let pat = union_token();
    assert forall|k: int| 0 <= k < pat.len() implies pat[k] != 10u8 by {
        if k == 0 {
            assert(pat[0] == 117u8);
        } else if k == 1 {
            assert(pat[1] == 110u8);
        } else if k == 2 {
            assert(pat[2] == 105u8);
        } else if k == 3 {
            assert(pat[3] == 111u8);
        } else if k == 4 {
            assert(pat[4] == 110u8);
        } else {
            assert(k == 5);
            assert(pat[5] == 32u8);
        }
    }
}

/// The injected field line never holds the first byte of the union token,
/// so no occurrence of the token can begin inside it.
proof fn alloc_field_line_no_union_start()
    ensures
        forall|k: int| 0 <= k < alloc_field_line().len() ==> alloc_field_line()[k] != 117u8,
{
    let f = alloc_field_line();
    assert forall|k: int| 0 <= k < f.len() implies f[k] != 117u8 by {
        if k == 0 {
            assert(f[0] == 32u8);
        } else if k == 1 {
            assert(f[1] == 32u8);
        } else if k == 2 {
            assert(f[2] == 32u8);
        } else if k == 3 {
            assert(f[3] == 32u8);
        } else if k == 4 {
            assert(f[4] == 105u8);
        } else if k == 5 {
            assert(f[5] == 110u8);
        } else if k == 6 {
            assert(f[6] == 116u8);
        } else if k == 7 {
            assert(f[7] == 32u8);
        } else if k == 8 {
            assert(f[8] == 97u8);
        } else if k == 9 {
            assert(f[9] == 108u8);
        } else if k == 10 {
            assert(f[10] == 108u8);
        } else if k == 11 {
            assert(f[11] == 111u8);
        } else if k == 12 {
            assert(f[12] == 99u8);
        } else if k == 13 {
            assert(f[13] == 95u8);
        } else if k == 14 {
            assert(f[14] == 109u8);
        } else if k == 15 {
            assert(f[15] == 101u8);
        } else if k == 16 {
            assert(f[16] == 116u8);
        } else if k == 17 {
            assert(f[17] == 104u8);
        } else if k == 18 {
            assert(f[18] == 111u8);
        } else if k == 19 {
            assert(f[19] == 100u8);
        } else {
            assert(k == 20);
            assert(f[20] == 59u8);
        }
    }
}

/// The terminated field line holds no occurrence of the union token.
proof fn field_line_nl_no_union()
    ensures
        !contains_pat(alloc_field_line() + seq![10u8], union_token()),
{
    alloc_field_line_no_union_start();
    let f = alloc_field_line() + seq![10u8];
    let pat = union_token();
    assert(pat[0] == 117u8);
    assert forall|q: int| !match_at(f, pat, q) by {
        if match_at(f, pat, q) {
            assert(f.subrange(q, q + pat.len())[0] == f[q]);
            assert(f[q] == pat[0]);
            if q < alloc_field_line().len() {
                assert(f[q] == alloc_field_line()[q]);
            } else {
                assert(f[q] == 10u8);
            }
        }
    }
}

/// Injecting the field line into union-free text keeps it union-free: the
/// injected line holds no union token and the token cannot straddle the
/// newline boundaries around it.
proof fn lemma_injected_no_union(t: Seq<u8>, e: int)
    requires
        !contains_pat(t, union_token()),
        0 <= e <= t.len(),
        e < t.len() ==> t[e] == 10u8,
    ensures
        !contains_pat(injected_text(t, e), union_token()),
{
    let pat = union_token();
    union_token_no_newline();
    field_line_nl_no_union();
    let f = alloc_field_line() + seq![10u8];
    if e < t.len() {
        let a = t.take(e + 1);
        let b = f + t.skip(e + 1);
        assert(injected_text(t, e) =~= a + b);
        assert(a[a.len() - 1] == t[e]);
        assert forall|p: int| !match_at(a + b, pat, p) by {
            if match_at(a + b, pat, p) {
                lemma_match_split_at_newline(a, b, pat, p);
                if p + pat.len() <= a.len() {
                    lemma_match_in_concat_left(a, b, pat, p);
                    assert(a =~= t.subrange(0, e + 1));
                    lemma_subrange_no_pat(t, pat, 0, e + 1);
                } else {
                    lemma_match_in_concat_right(a, b, pat, p);
                    let p2 = p - a.len();
                    assert(f[f.len() - 1] == 10u8);
                    lemma_match_split_at_newline(f, t.skip(e + 1), pat, p2);
                    if p2 + pat.len() <= f.len() {
                        lemma_match_in_concat_left(f, t.skip(e + 1), pat, p2);
                    } else {
                        lemma_match_in_concat_right(f, t.skip(e + 1), pat, p2);
                        assert(t.skip(e + 1) =~= t.subrange(e + 1, t.len() as int));
                        lemma_subrange_no_pat(t, pat, e + 1, t.len() as int);
                    }
                }
            }
        }
        assert(!contains_pat(injected_text(t, e), pat));
    } else {
        let a = t + seq![10u8];
        assert(injected_text(t, e) =~= a + f);
        assert(a[a.len() - 1] == 10u8);
        assert forall|p: int| !match_at(a + f, pat, p) by {
            if match_at(a + f, pat, p) {
                lemma_match_split_at_newline(a, f, pat, p);
                if p + pat.len() <= a.len() {
                    lemma_match_in_concat_left(a, f, pat, p);
                    if p + pat.len() <= t.len() {
                        lemma_match_in_concat_left(t, seq![10u8], pat, p);
                    } else {
                        let k = t.len() - p;
                        assert(a.subrange(p, p + pat.len())[k] == a[t.len() as int]);
                        assert(pat[k] == 10u8);
                    }
                } else {
                    lemma_match_in_concat_right(a, f, pat, p);
                }
            }
        }
        assert(!contains_pat(injected_text(t, e), pat));
    }
}

/// The injection result is pinned: any two texts satisfying the injection
/// contract for the same input are equal, because the first anchor
/// occurrence and its line end are unique.
pub proof fn lemma_inject_spec_deterministic(t: Seq<u8>, r1: Seq<u8>, r2: Seq<u8>)
    requires
        inject_spec(t, r1),
        inject_spec(t, r2),
    ensures
        r1 == r2,
{
    if contains_pat(t, anchor_token()) {
        let (i1, e1) = choose|i: int, e: int|
            first_match_at(t, anchor_token(), i) && #[trigger] line_end_at(t, i, e) && r1
                == injected_text(t, e);
        let (i2, e2) = choose|i: int, e: int|
            first_match_at(t, anchor_token(), i) && #[trigger] line_end_at(t, i, e) && r2
                == injected_text(t, e);
        if i1 < i2 {
            assert(!match_at(t, anchor_token(), i1));
        }
        if i2 < i1 {
            assert(!match_at(t, anchor_token(), i2));
        }
        if e1 < e2 {
            assert(t[e1] != 10u8);
        }
        if e2 < e1 {
            assert(t[e2] != 10u8);
        }
    }
}

/// Whether `name` is the header that defines the base context type.
pub fn is_context_header(name: &Vec<u8>) -> (r: bool)
    ensures
        r <==> name@ == context_header_name(),
{
    let ctx = context_header_name_bytes();
    bytes_eq(name, &ctx)
}

/// Patches one generated header: unions become structs everywhere, and the
/// header defining the base context type additionally receives the ownership
/// field, once.
pub fn patch_header(content: &Vec<u8>, file_name: &Vec<u8>) -> (r: Vec<u8>)
    ensures
        file_name@ != context_header_name() ==> r@ == replace_all(
            content@,
            union_token(),
            struct_token(),
        ),
        file_name@ == context_header_name() ==> inject_spec(
            replace_all(content@, union_token(), struct_token()),
            r@,
        ),
        !contains_pat(r@, union_token()),
{
    let unioned = patch_unions(content);
    if is_context_header(file_name) {
        let r = inject_alloc_field(&unioned);
        proof {
            let patched = unioned@;
            if contains_pat(patched, anchor_token()) {
                let (i, e) = choose|i: int, e: int|
                    first_match_at(patched, anchor_token(), i) && #[trigger] line_end_at(
                        patched,
                        i,
                        e,
                    ) && r@ == injected_text(patched, e);
                lemma_injected_no_union(patched, e);
            }
        }
        r
    } else {
        unioned
    }
}

} // verus!
