//! Tests of the header patcher, the rename pass, type discovery and trait
//! synthesis.

use asn1_bindings::discovery::find_typenames;
use asn1_bindings::header::inject_alloc_field;
use asn1_bindings::header::is_context_header;
use asn1_bindings::header::patch_header;
use asn1_bindings::header::patch_unions;
use asn1_bindings::syntax::strip_discriminant_prefixes;
use asn1_bindings::syntax::BindingItem;
use asn1_bindings::syntax::BindingTree;
use asn1_bindings::syntax::ConstDef;
use asn1_bindings::synthesis::append_trait_impls;
use asn1_bindings::synthesis::instantiate;
use asn1_bindings::synthesis::template_has_marker;

fn bytes(s: &str) -> Vec<u8> {
    s.as_bytes().to_vec()
}

fn contains(haystack: &[u8], needle: &[u8]) -> bool {
    haystack.windows(needle.len()).any(|w| w == needle)
}

#[test]
fn patch_unions_rewrites_every_union() {
    let input = bytes("typedef union Food_u {\n\tstruct wet w;\n\tunion inner_u i;\n} Food_t;\n");
    let out = patch_unions(&input);
    assert_eq!(
        out,
        bytes("typedef struct Food_u {\n\tstruct wet w;\n\tstruct inner_u i;\n} Food_t;\n")
    );
    assert!(!contains(&out, b"union "));
}

#[test]
fn patch_unions_keeps_field_lists() {
    let input = bytes("union choice {\n\tint a;\n\tlong b;\n};\n");
    let out = patch_unions(&input);
    assert_eq!(out, bytes("struct choice {\n\tint a;\n\tlong b;\n};\n"));
}

#[test]
fn patch_unions_is_idempotent() {
    let input = bytes("union a {\n\tunion b u;\n};\n");
    let once = patch_unions(&input);
    let twice = patch_unions(&once);
    assert_eq!(once, twice);
}

#[test]
fn patch_unions_without_union_is_identity() {
    let input = bytes("struct plain {\n\tint a;\n};\n");
    let out = patch_unions(&input);
    assert_eq!(out, input);
}

#[test]
fn inject_happens_once_after_first_anchor() {
    let input = bytes(
        "struct asn_struct_ctx_s {\n\tshort phase;\n\tber_tlv_len_t left;\n\tber_tlv_len_t left;\n};\n",
    );
    let out = inject_alloc_field(&input);
    assert_eq!(
        out,
        bytes(
            "struct asn_struct_ctx_s {\n\tshort phase;\n\tber_tlv_len_t left;\n    int alloc_method;\n\tber_tlv_len_t left;\n};\n",
        )
    );
}

#[test]
fn inject_without_anchor_is_identity() {
    let input = bytes("struct asn_struct_ctx_s {\n\tshort phase;\n};\n");
    let out = inject_alloc_field(&input);
    assert_eq!(out, input);
}

#[test]
fn inject_on_unterminated_anchor_line_appends() {
    let input = bytes("ber_tlv_len_t left;");
    let out = inject_alloc_field(&input);
    assert_eq!(out, bytes("ber_tlv_len_t left;\n    int alloc_method;\n"));
}

#[test]
fn patch_header_injects_only_in_context_header() {
    let input = bytes("union u_t { int a; };\nber_tlv_len_t left;\n");
    let context = patch_header(&input, &bytes("constr_TYPE.h"));
    assert_eq!(
        context,
        bytes("struct u_t { int a; };\nber_tlv_len_t left;\n    int alloc_method;\n")
    );
    let other = patch_header(&input, &bytes("OCTET_STRING.h"));
    assert_eq!(other, bytes("struct u_t { int a; };\nber_tlv_len_t left;\n"));
}

#[test]
fn context_header_name_matches_exactly() {
    assert!(is_context_header(&bytes("constr_TYPE.h")));
    assert!(!is_context_header(&bytes("constr_TYPE.c")));
    assert!(!is_context_header(&bytes("xconstr_TYPE.h")));
}

fn module_names(tree: &BindingTree) -> Vec<Vec<String>> {
    tree.items
        .iter()
        .filter_map(|it| match it {
            BindingItem::ConstModule { consts, .. } => Some(
                consts
                    .iter()
                    .map(|c| String::from_utf8(c.name.clone()).unwrap())
                    .collect(),
            ),
            _ => None,
        })
        .collect()
}

fn sample_tree() -> BindingTree {
    BindingTree {
        items: vec![
            BindingItem::ConstModule {
                name: bytes("Food_PR"),
                consts: vec![
                    ConstDef { name: bytes("Food_PR_NOTHING") },
                    ConstDef { name: bytes("Food_PR_wet") },
                    ConstDef { name: bytes("dry") },
                ],
            },
            BindingItem::ConstModule {
                name: bytes("Breed"),
                consts: vec![ConstDef { name: bytes("Breed_labrador") }],
            },
        ],
    }
}

#[test]
fn strip_removes_module_prefix_from_marked_modules() {
    let mut tree = sample_tree();
    strip_discriminant_prefixes(&mut tree);
    let consts = module_names(&tree);
    assert_eq!(consts[0], vec!["NOTHING", "wet", "dry"]);
    // The second grouping's name has no marker, so it is untouched.
    assert_eq!(consts[1], vec!["Breed_labrador"]);
}

#[test]
fn strip_is_idempotent() {
    let mut tree = sample_tree();
    strip_discriminant_prefixes(&mut tree);
    let once = module_names(&tree);
    strip_discriminant_prefixes(&mut tree);
    let twice = module_names(&tree);
    assert_eq!(once, twice);
}

#[test]
fn discovery_needs_descriptor_and_struct() {
    let tree = BindingTree {
        items: vec![
            BindingItem::ForeignStatic {
                name: bytes("asn_DEF_Dog"),
                ty: bytes("asn_TYPE_descriptor_t"),
            },
            BindingItem::StructDef { name: bytes("Dog") },
            // A descriptor for a primitive alias: no matching struct.
            BindingItem::ForeignStatic {
                name: bytes("asn_DEF_Breed"),
                ty: bytes("asn_TYPE_descriptor_t"),
            },
            // A static of some other type is never a descriptor.
            BindingItem::ForeignStatic {
                name: bytes("asn_DEF_Record"),
                ty: bytes("asn_enc_rval_t"),
            },
            BindingItem::StructDef { name: bytes("Record") },
            BindingItem::Other,
        ],
    };
    let names = find_typenames(&tree);
    assert_eq!(names, vec![bytes("Dog")]);
}

#[test]
fn discovery_ignores_unprefixed_statics() {
    let tree = BindingTree {
        items: vec![
            BindingItem::ForeignStatic {
                name: bytes("Dog_descriptor"),
                ty: bytes("asn_TYPE_descriptor_t"),
            },
            BindingItem::StructDef { name: bytes("Dog_descriptor") },
        ],
    };
    let names = find_typenames(&tree);
    assert!(names.is_empty());
}

#[test]
fn instantiate_substitutes_every_marker() {
    let template = bytes("impl Lifecycle for {TYPENAME} { fn id() -> &'static str { \"{TYPENAME}\" } }\n");
    let out = instantiate(&template, &bytes("Dog"));
    assert_eq!(
        out,
        bytes("impl Lifecycle for Dog { fn id() -> &'static str { \"Dog\" } }\n")
    );
}

#[test]
fn append_trait_impls_appends_in_order() {
    let mut bindings = bytes("// generated\n");
    let prelude = bytes("// prelude\n");
    let template = bytes("impl {TYPENAME};\n");
    let names = vec![bytes("Dog"), bytes("Record")];
    append_trait_impls(&mut bindings, &prelude, &template, &names);
    assert_eq!(
        bindings,
        bytes("// generated\n// prelude\nimpl Dog;\nimpl Record;\n")
    );
}

#[test]
fn template_marker_detection() {
    assert!(template_has_marker(&bytes("impl {TYPENAME};")));
    assert!(!template_has_marker(&bytes("impl Dog;")));
}
