//! Type discovery: which names receive synthesized trait implementations.
//!
//! A name is eligible exactly when the tree holds a foreign static whose
//! declared type is the native type-descriptor record type and whose symbol
//! name is the descriptor prefix followed by the name, and the tree also
//! holds a struct declaration with that exact name. Descriptor symbols
//! without a matching struct denote non-aggregate schema types and are
//! silently skipped.

use vstd::prelude::*;

use crate::syntax::BindingItem;
use crate::syntax::BindingTree;
use crate::text::bytes_eq;
use crate::text::copy_range;
use crate::text::has_prefix;
use crate::text::lemma_match_at_skip;
use crate::text::matches_at;

verus! {

/// The native type-descriptor record type, `"asn_TYPE_descriptor_t"`.
pub open spec fn descriptor_type_name() -> Seq<u8> {
    seq![
        97u8, 115u8, 110u8, 95u8, 84u8, 89u8, 80u8, 69u8, 95u8, 100u8, 101u8, 115u8, 99u8, 114u8,
        105u8, 112u8, 116u8, 111u8, 114u8, 95u8, 116u8,
    ]
}

pub fn descriptor_type_name_bytes() -> (r: Vec<u8>)
    ensures
        r@ == descriptor_type_name(),
{
    let mut v: Vec<u8> = Vec::new();
    v.push(97u8);
    v.push(115u8);
    v.push(110u8);
    v.push(95u8);
    v.push(84u8);
    v.push(89u8);
    v.push(80u8);
    v.push(69u8);
    v.push(95u8);
    v.push(100u8);
    v.push(101u8);
    v.push(115u8);
    v.push(99u8);
    v.push(114u8);
    v.push(105u8);
    v.push(112u8);
    v.push(116u8);
    v.push(111u8);
    v.push(114u8);
    v.push(95u8);
    v.push(116u8);
    proof {
        assert(v@ =~= descriptor_type_name());
    }
    v
}

/// The prefix of every descriptor symbol name, `"asn_DEF_"`.
pub open spec fn descriptor_prefix() -> Seq<u8> {
    seq![97u8, 115u8, 110u8, 95u8, 68u8, 69u8, 70u8, 95u8]
}

pub fn descriptor_prefix_bytes() -> (r: Vec<u8>)
    ensures
        r@ == descriptor_prefix(),
{
    let mut v: Vec<u8> = Vec::new();
    v.push(97u8);
    v.push(115u8);
    v.push(110u8);
    v.push(95u8);
    v.push(68u8);
    v.push(69u8);
    v.push(70u8);
    v.push(95u8);
    proof {
        assert(v@ =~= descriptor_prefix());
    }
    v
}

/// The tree declares a struct with exactly this name.
pub open spec fn tree_has_struct(items: Seq<BindingItem>, name: Seq<u8>) -> bool {
    exists|i: int|
        0 <= i < items.len() && #[trigger] struct_named(items[i], name)
}

pub open spec fn struct_named(it: BindingItem, name: Seq<u8>) -> bool {
    match it {
        BindingItem::StructDef { name: n } => n@ == name,
        _ => false,
    }
}

/// The item is a foreign static of the descriptor type whose symbol name is
/// exactly `full`.
pub open spec fn descriptor_static_named(it: BindingItem, full: Seq<u8>) -> bool {
    match it {
        BindingItem::ForeignStatic { name, ty } => ty@ == descriptor_type_name() && name@ == full,
        _ => false,
    }
}

/// The item yields a synthesis-eligible name with respect to the whole tree.
pub open spec fn eligible_static(items: Seq<BindingItem>, it: BindingItem) -> bool {
    match it {
        BindingItem::ForeignStatic { name, ty } => {
            &&& ty@ == descriptor_type_name()
            &&& has_prefix(name@, descriptor_prefix())
            &&& tree_has_struct(items, name@.skip(descriptor_prefix().len() as int))
        },
        _ => false,
    }
}

/// The name an eligible item contributes: its symbol name with the
/// descriptor prefix removed.
pub open spec fn typename_of(it: BindingItem) -> Seq<u8> {
    match it {
        BindingItem::ForeignStatic { name, ty: _ } => name@.skip(descriptor_prefix().len() as int),
        _ => Seq::empty(),
    }
}

/// The names contributed by the first `n` items, in order.
pub open spec fn discovered_prefix(items: Seq<BindingItem>, n: int) -> Seq<Seq<u8>>
    decreases n,
{
    if n <= 0 {
        Seq::empty()
    } else {
        let prev = discovered_prefix(items, n - 1);
        if eligible_static(items, items[n - 1]) {
            prev + seq![typename_of(items[n - 1])]
        } else {
            prev
        }
    }
}

/// All names eligible for trait synthesis, in discovery order.
pub open spec fn discovered(items: Seq<BindingItem>) -> Seq<Seq<u8>> {
    discovered_prefix(items, items.len() as int)
}

proof fn lemma_discovered_prefix_iff(items: Seq<BindingItem>, t: Seq<u8>, n: int)
    requires
        0 <= n <= items.len(),
    ensures
        discovered_prefix(items, n).contains(t) <==> exists|i: int|
            0 <= i < n && #[trigger] eligible_static(items, items[i]) && typename_of(items[i]) == t,
    decreases n,
{
    if n > 0 {
        lemma_discovered_prefix_iff(items, t, n - 1);
        let prev = discovered_prefix(items, n - 1);
        let cur = discovered_prefix(items, n);
        if eligible_static(items, items[n - 1]) {
            assert(cur == prev + seq![typename_of(items[n - 1])]);
            if cur.contains(t) {
                let k = choose|k: int| 0 <= k < cur.len() && cur[k] == t;
                if k < prev.len() {
                    assert(prev[k] == t);
                    assert(prev.contains(t));
                } else {
                    assert(typename_of(items[n - 1]) == t);
                }
            }
            if prev.contains(t) {
                let k = choose|k: int| 0 <= k < prev.len() && prev[k] == t;
                assert(cur[k] == t);
                assert(cur.contains(t));
            }
            if typename_of(items[n - 1]) == t {
                assert(cur[cur.len() - 1] == t);
                assert(cur.contains(t));
            }
        } else {
            assert(cur == prev);
        }
    }
}

/// A name is discovered exactly when a descriptor-typed foreign static with
/// the prefixed symbol name exists and a struct declaration with that name
/// exists in the same tree; a descriptor without a matching struct
/// contributes nothing.
pub proof fn lemma_discovery_iff(items: Seq<BindingItem>, t: Seq<u8>)
    ensures
        discovered(items).contains(t) <==> (tree_has_struct(items, t) && exists|i: int|
            0 <= i < items.len() && #[trigger] descriptor_static_named(
                items[i],
                descriptor_prefix() + t,
            )),
{
    lemma_discovered_prefix_iff(items, t, items.len() as int);
    if discovered(items).contains(t) {
        let i = choose|i: int|
            0 <= i < items.len() && #[trigger] eligible_static(items, items[i]) && typename_of(
                items[i],
            ) == t;
        match items[i] {
            BindingItem::ForeignStatic { name, ty } => {
                assert(name@ =~= descriptor_prefix() + t);
                assert(descriptor_static_named(items[i], descriptor_prefix() + t));
            },
            _ => {
                assert(false);
            },
        }
    }
    if tree_has_struct(items, t) && (exists|i: int|
        0 <= i < items.len() && #[trigger] descriptor_static_named(
            items[i],
            descriptor_prefix() + t,
        )) {
        let i = choose|i: int|
            0 <= i < items.len() && #[trigger] descriptor_static_named(
                items[i],
                descriptor_prefix() + t,
            );
        match items[i] {
            BindingItem::ForeignStatic { name, ty } => {
                assert((descriptor_prefix() + t).take(descriptor_prefix().len() as int)
                    =~= descriptor_prefix());
                assert((descriptor_prefix() + t).skip(descriptor_prefix().len() as int) =~= t);
                assert(eligible_static(items, items[i]));
                assert(typename_of(items[i]) == t);
            },
            _ => {
                assert(false);
            },
        }
    }
}

/// Whether the tree declares a struct named `name`.
pub fn tree_has_struct_exec(items: &Vec<BindingItem>, name: &Vec<u8>) -> (r: bool)
    ensures
        r <==> tree_has_struct(items@, name@),
{
    let mut i: usize = 0;
    while i < items.len()
        invariant
            i <= items@.len(),
            forall|j: int| 0 <= j < i ==> !#[trigger] struct_named(items@[j], name@),
        decreases items@.len() - i,
    {
        match &items[i] {
            BindingItem::StructDef { name: n } => {
                if bytes_eq(n, name) {
                    proof {
                        assert(struct_named(items@[i as int], name@));
                    }
                    return true;
                }
            },
            _ => {},
        }
        i += 1;
    }
    false
}

/// Scans the tree's foreign declarations and returns, in discovery order,
/// every name with both a descriptor-typed foreign static and a matching
/// struct declaration.
pub fn find_typenames(tree: &BindingTree) -> (r: Vec<Vec<u8>>)
    ensures
        r.deep_view() == discovered(tree.items@),
{
    let descriptor_ty = descriptor_type_name_bytes();
    let prefix = descriptor_prefix_bytes();
    let mut r: Vec<Vec<u8>> = Vec::new();
    let mut i: usize = 0;
    while i < tree.items.len()
        invariant
            i <= tree.items@.len(),
            descriptor_ty@ == descriptor_type_name(),
            prefix@ == descriptor_prefix(),
            r.deep_view() == discovered_prefix(tree.items@, i as int),
        decreases tree.items@.len() - i,
    {
        let ghost prev = r.deep_view();
        let accepted: Option<Vec<u8>> = match &tree.items[i] {
            BindingItem::ForeignStatic { name, ty } => {
                if bytes_eq(ty, &descriptor_ty) && matches_at(name, &prefix, 0) {
                    proof {
                        lemma_match_at_skip(name@, prefix@, 0);
                        assert(name@.skip(0) =~= name@);
                    }
                    let tn = copy_range(name, prefix.len(), name.len());
                    proof {
                        assert(name@.subrange(prefix@.len() as int, name@.len() as int)
                            =~= name@.skip(prefix@.len() as int));
                    }
                    if tree_has_struct_exec(&tree.items, &tn) {
                        Some(tn)
                    } else {
                        None
                    }
                } else {
                    None
                }
            },
            _ => None,
        };
        match accepted {
            Some(tn) => {
                proof {
                    assert(eligible_static(tree.items@, tree.items@[i as int]));
                    assert(tn@ == typename_of(tree.items@[i as int]));
                }
                let ghost oldr = r@;
                r.push(tn);
                proof {
                    let expected = prev + seq![typename_of(tree.items@[i as int])];
                    assert forall|j: int| 0 <= j < r@.len() implies r.deep_view()[j] == expected[j]
                        by {
                        assert(r.deep_view()[j] == r@[j].deep_view());
                        if j < oldr.len() {
                            assert(r@[j] == oldr[j]);
                            assert(prev[j] == oldr[j].deep_view());
                        } else {
                            assert(r@[j].deep_view() =~= tn@);
                        }
                    }
                    assert(r.deep_view() =~= expected);
                }
            },
            None => {
                proof {
                    assert(!eligible_static(tree.items@, tree.items@[i as int]));
                }
            },
        }
        i += 1;
    }
    r
}

} // verus!
