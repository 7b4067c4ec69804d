//! Build-time pipeline for turning a schema-compiler-generated C codec into a
//! safe, ownership-aware binding, together with a model of the runtime
//! lifecycle rules that the synthesized bindings follow.
//!
//! The pipeline stages covered here are pure transforms:
//! - `header`: rewrites generated C headers (union-to-struct rewriting and the
//!   single-shot injection of the ownership-tracking field),
//! - `syntax`: a generic model of the raw bindings syntax tree and the pass
//!   that strips redundant discriminant-constant prefixes,
//! - `discovery`: finds the type names eligible for trait synthesis,
//! - `synthesis`: instantiates the per-type trait-implementation template,
//! - `codec`: the runtime data model (ownership tag, encoding rules, decode
//!   outcomes) and the decisions the synthesized lifecycle code makes,
//! - `sample`: a small schema used to exercise the runtime model.
//!
//! File reading and writing, process invocation and the parsing of the raw
//! bindings text are left to the surrounding application; everything here
//! works on plain byte vectors and in-memory trees.

#![allow(non_camel_case_types)]
#![allow(non_snake_case)]
#![allow(non_upper_case_globals)]

pub mod codec;
pub mod discovery;
pub mod header;
pub mod sample;
pub mod synthesis;
pub mod syntax;
pub mod text;
