//! Trait synthesis: textual instantiation of the per-type template.
//!
//! For every discovered type name, the engine instantiates a fixed template
//! by substituting the name for every occurrence of the marker, and appends
//! the instantiations to the serialized bindings text. The template itself
//! is target-language text supplied by the caller; a template without the
//! marker is a configuration fault the caller must treat as fatal, and can
//! detect with [`template_has_marker`].

use vstd::prelude::*;

use crate::text::contains_pat;
use crate::text::find_pat;
use crate::text::push_all;
use crate::text::replace_all;
use crate::text::replace_all_bytes;

verus! {

/// The substitution marker, `"{TYPENAME}"`.
pub open spec fn typename_marker() -> Seq<u8> {
    seq![123u8, 84u8, 89u8, 80u8, 69u8, 78u8, 65u8, 77u8, 69u8, 125u8]
}

pub fn typename_marker_bytes() -> (r: Vec<u8>)
    ensures
        r@ == typename_marker(),
{
    let mut v: Vec<u8> = Vec::new();
    v.push(123u8);
    v.push(84u8);
    v.push(89u8);
    v.push(80u8);
    v.push(69u8);
    v.push(78u8);
    v.push(65u8);
    v.push(77u8);
    v.push(69u8);
    v.push(125u8);
    proof {
        assert(v@ =~= typename_marker());
    }
    v
}

/// The template with every occurrence of the marker replaced by `name`.
pub open spec fn spec_instantiate(template: Seq<u8>, name: Seq<u8>) -> Seq<u8> {
    replace_all(template, typename_marker(), name)
}

/// The concatenation of the instantiations for the first `n` names.
pub open spec fn synthesized_prefix(template: Seq<u8>, names: Seq<Seq<u8>>, n: int) -> Seq<u8>
    decreases n,
{
    if n <= 0 {
        Seq::empty()
    } else {
        synthesized_prefix(template, names, n - 1) + spec_instantiate(template, names[n - 1])
    }
}

/// The concatenation of the instantiations for all names, in order.
pub open spec fn spec_synthesized(template: Seq<u8>, names: Seq<Seq<u8>>) -> Seq<u8> {
    synthesized_prefix(template, names, names.len() as int)
}

/// Whether the template contains the substitution marker at all. A missing
/// marker means every instantiation would be the template unchanged; the
/// pipeline treats that as a fatal configuration fault.
pub fn template_has_marker(template: &Vec<u8>) -> (r: bool)
    ensures
        r <==> contains_pat(template@, typename_marker()),
{
    let marker = typename_marker_bytes();
    find_pat(template, &marker).is_some()
}

/// One instantiation of the template for one type name.
pub fn instantiate(template: &Vec<u8>, name: &Vec<u8>) -> (r: Vec<u8>)
    ensures
        r@ == spec_instantiate(template@, name@),
{
    let marker = typename_marker_bytes();
    replace_all_bytes(template, &marker, name)
}

/// Appends the prelude and then one instantiation of the template for each
/// name, in order, to the bindings text.
pub fn append_trait_impls(
    bindings: &mut Vec<u8>,
    prelude: &Vec<u8>,
    template: &Vec<u8>,
    names: &Vec<Vec<u8>>,
)
    ensures
        final(bindings)@ == old(bindings)@ + prelude@ + spec_synthesized(
            template@,
            names.deep_view(),
        ),
{
    push_all(bindings, prelude);
    let ghost base = bindings@;
    let mut k: usize = 0;
    proof {
        assert(base + Seq::<u8>::empty() =~= base);
    }
    while k < names.len()
        invariant
            k <= names@.len(),
            bindings@ == base + synthesized_prefix(template@, names.deep_view(), k as int),
            base == old(bindings)@ + prelude@,
        decreases names@.len() - k,
    {
        let ghost sofar = synthesized_prefix(template@, names.deep_view(), k as int);
        let piece = instantiate(template, &names[k]);
        proof {
            assert(names.deep_view()[k as int] == names@[k as int].deep_view());
            assert(names@[k as int].deep_view() =~= names@[k as int]@);
        }
        push_all(bindings, &piece);
        proof {
            assert((base + sofar) + piece@ =~= base + (sofar + piece@));
        }
        k += 1;
    }
}

} // verus!
