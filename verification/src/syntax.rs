//! A generic model of the raw bindings syntax tree, and the rename pass.
//!
//! The raw interface generator emits, among other node kinds, module-like
//! groupings of constants (the discriminant values of each tagged-choice
//! type), foreign static declarations, and struct declarations. Everything
//! the pipeline reads or rewrites is captured here; all remaining node kinds
//! are carried through untouched as [`BindingItem::Other`]. The surrounding
//! application converts the parser's tree to and from this model.
//!
//! The rename pass strips, from every constant declared in a grouping whose
//! name contains the discriminant-namespace marker, a prefix equal to the
//! grouping's name plus a separator; names without that prefix are left
//! unchanged.

use vstd::prelude::*;

use crate::text::contains_pat;
use crate::text::copy_bytes;
use crate::text::copy_range;
use crate::text::find_pat;
use crate::text::has_prefix;
use crate::text::lemma_match_at_skip;
use crate::text::matches_at;

verus! {

/// One constant declared inside a module-like grouping.
pub struct ConstDef {
    pub name: Vec<u8>,
}

/// One top-level declaration of the raw bindings.
pub enum BindingItem {
    /// A module-like grouping of constants.
    ConstModule { name: Vec<u8>, consts: Vec<ConstDef> },
    /// A foreign static declaration with the name of its declared type.
    ForeignStatic { name: Vec<u8>, ty: Vec<u8> },
    /// A struct declaration.
    StructDef { name: Vec<u8> },
    /// Any other node kind; never touched by the pipeline.
    Other,
}

/// The parsed raw bindings.
pub struct BindingTree {
    pub items: Vec<BindingItem>,
}

/// The marker that identifies a discriminant-constant grouping, `"_PR"`.
pub open spec fn marker_token() -> Seq<u8> {
    seq![95u8, 80u8, 82u8]
}

pub fn marker_token_bytes() -> (r: Vec<u8>)
    ensures
        r@ == marker_token(),
{
    let mut v: Vec<u8> = Vec::new();
    v.push(95u8);
    v.push(80u8);
    v.push(82u8);
    proof {
        assert(v@ =~= marker_token());
    }
    v
}

/// A grouping is a discriminant-constant namespace when its name contains
/// the marker.
pub open spec fn is_discriminant_module(m: Seq<u8>) -> bool {
    contains_pat(m, marker_token())
}

/// The redundant prefix carried by the constants of grouping `m`: the
/// grouping's name followed by the separator.
pub open spec fn discriminant_prefix(m: Seq<u8>) -> Seq<u8> {
    m + seq![95u8]
}

/// `c` with one leading copy of `p` removed; `c` unchanged when `p` is not
/// a prefix of it.
pub open spec fn spec_strip_prefix(p: Seq<u8>, c: Seq<u8>) -> Seq<u8> {
    if has_prefix(c, p) {
        c.skip(p.len() as int)
    } else {
        c
    }
}

/// What the rename pass does to one constant of grouping `m`.
pub open spec fn renamed_const(m: Seq<u8>, c: Seq<u8>) -> Seq<u8> {
    if is_discriminant_module(m) {
        spec_strip_prefix(discriminant_prefix(m), c)
    } else {
        c
    }
}

/// Stripping is idempotent: once the prefix is gone, stripping again is a
/// no-op. The one family of names this cannot hold for is excluded by the
/// hypothesis: a name that begins with the prefix written twice still
/// carries one copy after the first strip.
pub proof fn lemma_strip_idempotent(p: Seq<u8>, c: Seq<u8>)
    requires
        !(c.len() >= 2 * p.len() && c.take(2 * p.len() as int) == p + p),
    ensures
        spec_strip_prefix(p, spec_strip_prefix(p, c)) == spec_strip_prefix(p, c),
{
    if has_prefix(c, p) {
        let c2 = c.skip(p.len() as int);
        if has_prefix(c2, p) {
            assert forall|j: int| 0 <= j < 2 * p.len() implies #[trigger] c.take(2 * p.len() as int)[j]
                == (p + p)[j] by {
                if j < p.len() {
                    assert(c.take(p.len() as int)[j] == p[j]);
                } else {
                    assert(c2.take(p.len() as int)[j - p.len()] == p[j - p.len()]);
                    assert(c2[j - p.len()] == c[j]);
                }
            }
            assert(c.take(2 * p.len() as int) =~= p + p);
        }
    }
}

/// Idempotence lifted to the rename pass on one constant.
pub proof fn lemma_rename_idempotent(m: Seq<u8>, c: Seq<u8>)
    requires
        !(c.len() >= 2 * discriminant_prefix(m).len() && c.take(2 * discriminant_prefix(m).len() as int)
            == discriminant_prefix(m) + discriminant_prefix(m)),
    ensures
        renamed_const(m, renamed_const(m, c)) == renamed_const(m, c),
{
    if is_discriminant_module(m) {
        lemma_strip_idempotent(discriminant_prefix(m), c);
    }
}

/// How one item of the tree relates to its renamed form.
pub open spec fn renamed_item(o: BindingItem, n: BindingItem) -> bool {
    match o {
        BindingItem::ConstModule { name: m, consts: cs } => match n {
            BindingItem::ConstModule { name: m2, consts: cs2 } => {
                &&& m2@ == m@
                &&& cs2@.len() == cs@.len()
                &&& forall|j: int|
                    0 <= j < cs@.len() ==> #[trigger] cs2@[j].name@ == renamed_const(
                        m@,
                        cs@[j].name@,
                    )
            },
            _ => false,
        },
        BindingItem::ForeignStatic { name, ty } => match n {
            BindingItem::ForeignStatic { name: n2, ty: t2 } => n2@ == name@ && t2@ == ty@,
            _ => false,
        },
        BindingItem::StructDef { name } => match n {
            BindingItem::StructDef { name: n2 } => n2@ == name@,
            _ => false,
        },
        BindingItem::Other => match n {
            BindingItem::Other => true,
            _ => false,
        },
    }
}

/// `c` with one leading copy of `p` removed, unchanged when `p` is not a
/// prefix.
pub fn strip_prefix_bytes(p: &Vec<u8>, c: &Vec<u8>) -> (r: Vec<u8>)
    ensures
        r@ == spec_strip_prefix(p@, c@),
{
    proof {
        lemma_match_at_skip(c@, p@, 0);
        assert(c@.skip(0) =~= c@);
    }
    if matches_at(c, p, 0) {
        let r = copy_range(c, p.len(), c.len());
        proof {
            assert(c@.subrange(p@.len() as int, c@.len() as int) =~= c@.skip(p@.len() as int));
        }
        r
    } else {
        copy_bytes(c)
    }
}

/// The prefix `m + "_"` as a fresh vector.
fn discriminant_prefix_bytes(m: &Vec<u8>) -> (r: Vec<u8>)
    ensures
        r@ == discriminant_prefix(m@),
{
    let mut r = copy_bytes(m);
    r.push(95u8);
    proof {
        assert(r@ =~= discriminant_prefix(m@));
    }
    r
}

/// One renamed constant of grouping `m`.
fn rename_const(m: &Vec<u8>, is_discriminant: bool, c: &ConstDef) -> (r: ConstDef)
    requires
        is_discriminant == is_discriminant_module(m@),
    ensures
        r.name@ == renamed_const(m@, c.name@),
{
    if is_discriminant {
        let p = discriminant_prefix_bytes(m);
        ConstDef { name: strip_prefix_bytes(&p, &c.name) }
    } else {
        ConstDef { name: copy_bytes(&c.name) }
    }
}

/// Strips the redundant discriminant prefixes from every constant of every
/// grouping whose name contains the marker; all other items are unchanged.
pub fn strip_discriminant_prefixes(tree: &mut BindingTree)
    ensures
        final(tree).items@.len() == old(tree).items@.len(),
        forall|i: int|
            0 <= i < old(tree).items@.len() ==> renamed_item(
                old(tree).items@[i],
                #[trigger] final(tree).items@[i],
            ),
{
    let n = tree.items.len();
    let mut out: Vec<BindingItem> = Vec::new();
    let mut i: usize = 0;
    while i < n
        invariant
            n == tree.items@.len(),
            tree.items@ == old(tree).items@,
            i <= n,
            out@.len() == i as int,
            forall|j: int|
                0 <= j < i ==> renamed_item(old(tree).items@[j], #[trigger] out@[j]),
        decreases n - i,
    {
        let item = &tree.items[i];
        let renamed: BindingItem = match item {
            BindingItem::ConstModule { name, consts } => {
                let marker = marker_token_bytes();
                let is_discriminant = find_pat(name, &marker).is_some();
                let mut cs: Vec<ConstDef> = Vec::new();
                let mut k: usize = 0;
                while k < consts.len()
                    invariant
                        is_discriminant == is_discriminant_module(name@),
                        k <= consts@.len(),
                        cs@.len() == k as int,
                        forall|j: int|
                            0 <= j < k ==> #[trigger] cs@[j].name@ == renamed_const(
                                name@,
                                consts@[j].name@,
                            ),
                    decreases consts@.len() - k,
                {
                    let c = rename_const(name, is_discriminant, &consts[k]);
                    cs.push(c);
                    k += 1;
                }
                BindingItem::ConstModule { name: copy_bytes(name), consts: cs }
            },
            BindingItem::ForeignStatic { name, ty } => BindingItem::ForeignStatic {
                name: copy_bytes(name),
                ty: copy_bytes(ty),
            },
            BindingItem::StructDef { name } => BindingItem::StructDef { name: copy_bytes(name) },
            BindingItem::Other => BindingItem::Other,
        };
        out.push(renamed);
        i += 1;
    }
    tree.items = out;
}

} // verus!
