//! The runtime data model of the synthesized bindings: the per-instance
//! allocation method, the transfer-syntax enumeration, the decode and encode
//! outcome mapping, and the lifecycle decisions the synthesized code makes.
//!
//! The native encoders and decoders themselves live in the generated C
//! library; the functions here are the decisions wrapped around those calls:
//! which outcome a native status denotes, whether destruction must request a
//! native release, and the ownership flag every decode sets first.

use vstd::prelude::*;

use vstd::string::StrSliceExecFns;
use vstd::string::StringSliceAdditionalSpecFns;

use crate::text::copy_bytes;

verus! {

/// The codec capability every discovered type gains through synthesis. The
/// implementations are generated text appended to the bindings and call the
/// native encoder and decoder; the verified halves of their behaviour are
/// [`begin_decode`], [`decode_outcome`] and [`encode_outcome`].
pub trait Coder {
    /// Encodes the instance into the buffer under the given rule, yielding
    /// the number of bytes written, or the name of the type at which
    /// encoding failed.
    fn encode(&self, encoding: EncodingRules, buffer: &mut Vec<u8>) -> Result<usize, Vec<u8>>;

    /// Decodes the instance from the buffer under the given rule, yielding
    /// the number of bytes consumed. The instance's allocation method is
    /// set to native before decoding starts, whatever the outcome.
    fn decode(&mut self, encoding: EncodingRules, buffer: &Vec<u8>) -> Result<usize, DecoderError>;
}

/// Who allocated the variable-length members of an instance.
#[derive(Clone, Copy, Debug, PartialEq, Eq, Structural)]
pub enum AllocMethod {
    /// Allocated by the consuming application; never released natively.
    application,
    /// Allocated by the decode path; released through the native
    /// free-operation on destruction.
    native,
}

impl AllocMethod {
    /// The integer stored in the injected ownership field.
    pub open spec fn spec_code(self) -> i32 {
        match self {
            AllocMethod::application => 0,
            AllocMethod::native => 1,
        }
    }

    pub fn code(self) -> (r: i32)
        ensures
            r == self.spec_code(),
    {
        match self {
            AllocMethod::application => 0,
            AllocMethod::native => 1,
        }
    }

    /// The allocation method a stored field value denotes. Any value other
    /// than the two defined codes is an internal-consistency violation, so
    /// it is excluded rather than handled.
    pub fn from_code(c: i32) -> (r: AllocMethod)
        requires
            c == 0 || c == 1,
        ensures
            r.spec_code() == c,
    {
        if c == 0 {
            AllocMethod::application
        } else {
            AllocMethod::native
        }
    }
}

/// The model of the common base context every generated aggregate embeds:
/// only the injected ownership field is relevant to the lifecycle rules.
#[derive(Clone, Copy, Debug, PartialEq, Eq, Structural)]
pub struct Context {
    pub alloc_method: i32,
}

/// A context is well formed when its ownership field holds one of the two
/// defined codes.
pub open spec fn context_wf(ctx: Context) -> bool {
    ctx.alloc_method == 0 || ctx.alloc_method == 1
}

impl Default for Context {
    /// A fresh instance starts with application-owned members: nothing has
    /// been natively allocated for it yet.
    fn default() -> (r: Self)
        ensures
            r.alloc_method == 0,
            context_wf(r),
    {
        Context { alloc_method: 0 }
    }
}

/// What destruction does with the native free-operation.
#[derive(Clone, Copy, Debug, PartialEq, Eq, Structural)]
pub enum DestructAction {
    /// Do not touch the instance's members: they are externally owned.
    retain,
    /// Invoke the native free-operation once, releasing the underlying
    /// storage but not the instance's own storage.
    release_underlying,
}

/// The destruction decision: release natively-allocated members, exactly
/// once, and never touch application-owned ones. A context holding any
/// other code is an invariant violation and is excluded, matching the
/// abnormal termination of the synthesized destructor.
pub fn destruct_action(ctx: &Context) -> (a: DestructAction)
    requires
        context_wf(*ctx),
    ensures
        a is release_underlying <==> ctx.alloc_method == 1,
        a is retain <==> ctx.alloc_method == 0,
{
    if ctx.alloc_method == 1 {
        DestructAction::release_underlying
    } else {
        DestructAction::retain
    }
}

/// Marks the instance as natively allocated. Decoding always does this
/// first, whatever the field held before, so that a decode that fails after
/// partial allocation still leads to a releasing destruction.
pub fn begin_decode(ctx: &mut Context)
    ensures
        final(ctx).alloc_method == 1,
        context_wf(*final(ctx)),
{
    ctx.alloc_method = 1;
}

/// A decode failure as surfaced to the caller.
#[derive(Clone, Copy, Debug, PartialEq, Eq, Structural)]
pub enum DecoderError {
    /// The decoder wants more data.
    want_more,
    /// The input is malformed.
    failure,
}

impl DecoderError {
    /// The failure denoted by a native status code. The native decoder
    /// reports exactly two failure codes; any other value is a fatal
    /// mismatch between synthesis and runtime, so it is excluded rather
    /// than mapped.
    pub fn from_u32(code: u32) -> (r: Self)
        requires
            code == 1 || code == 2,
        ensures
            code == 1 ==> r is want_more,
            code == 2 ==> r is failure,
    {
        match code {
            1 => DecoderError::want_more,
            _ => DecoderError::failure,
        }
    }
}

/// Maps a native decode result record to the caller-facing outcome: status
/// zero succeeds with the consumed byte count, the two failure codes map to
/// their errors, and no other status is a defined outcome.
pub fn decode_outcome(code: u32, consumed: usize) -> (r: Result<usize, DecoderError>)
    requires
        code == 0 || code == 1 || code == 2,
    ensures
        code == 0 ==> r == Ok::<usize, DecoderError>(consumed),
        code == 1 ==> r == Err::<usize, DecoderError>(DecoderError::want_more),
        code == 2 ==> r == Err::<usize, DecoderError>(DecoderError::failure),
{
    if code == 0 {
        Ok(consumed)
    } else {
        Err(DecoderError::from_u32(code))
    }
}

/// Maps a native encode result record to the caller-facing outcome: a
/// non-negative encoded length succeeds with that byte count; the native
/// failure value yields the name of the type at which encoding failed.
pub fn encode_outcome(encoded: isize, failed_type: Vec<u8>) -> (r: Result<usize, Vec<u8>>)
    requires
        encoded >= -1,
    ensures
        encoded >= 0 ==> r == Ok::<usize, Vec<u8>>(encoded as usize),
        encoded == -1 ==> r == Err::<usize, Vec<u8>>(failed_type),
{
    if encoded >= 0 {
        Ok(encoded as usize)
    } else {
        Err(failed_type)
    }
}

/// The closed enumeration of transfer syntaxes, each mapped one-to-one to
/// its native numeric identifier.
#[derive(Clone, Copy, Debug, PartialEq, Eq, Structural)]
pub enum EncodingRules {
    /// Basic Encoding Rules
    ber,
    /// Distinguished Encoding Rules
    der,
    /// Canonical Encoding Rules
    cer,
    /// Octet Encoding Rules
    oer,
    /// Canonical Octet Encoding Rules
    coer,
    /// Unaligned Packed Encoding Rules
    uper,
    /// Canonical Unaligned Packed Encoding Rules
    cuper,
    /// Aligned Packed Encoding Rules
    aper,
    /// Canonical Aligned Packed Encoding Rules
    caper,
    /// XML Encoding Rules
    xer,
    /// Canonical XML Encoding Rules
    cxer,
    /// JSON Encoding Rules
    jer,
    /// JSON Encoding Rules, minified
    jerm,
}

impl EncodingRules {
    /// The native transfer-syntax identifier, in the order the native
    /// header declares them; the first three native values denote no
    /// concrete syntax and are not represented.
    pub open spec fn spec_numeric(self) -> u32 {
        match self {
            EncodingRules::ber => 3,
            EncodingRules::der => 4,
            EncodingRules::cer => 5,
            EncodingRules::oer => 6,
            EncodingRules::coer => 7,
            EncodingRules::uper => 8,
            EncodingRules::cuper => 9,
            EncodingRules::aper => 10,
            EncodingRules::caper => 11,
            EncodingRules::xer => 12,
            EncodingRules::cxer => 13,
            EncodingRules::jer => 14,
            EncodingRules::jerm => 15,
        }
    }

    pub fn numeric(self) -> (r: u32)
        ensures
            r == self.spec_numeric(),
    {
        match self {
            EncodingRules::ber => 3,
            EncodingRules::der => 4,
            EncodingRules::cer => 5,
            EncodingRules::oer => 6,
            EncodingRules::coer => 7,
            EncodingRules::uper => 8,
            EncodingRules::cuper => 9,
            EncodingRules::aper => 10,
            EncodingRules::caper => 11,
            EncodingRules::xer => 12,
            EncodingRules::cxer => 13,
            EncodingRules::jer => 14,
            EncodingRules::jerm => 15,
        }
    }
}

/// The mapping from encoding rule to native identifier is one-to-one.
pub proof fn lemma_encoding_rules_injective(a: EncodingRules, b: EncodingRules)
    ensures
        a.spec_numeric() == b.spec_numeric() ==> a == b,
{
}

/// The model of the generated variable-length octet string: the bytes it
/// points at and the stored size.
#[derive(Clone, Debug, Default, PartialEq, Eq)]
pub struct OCTET_STRING {
    pub buf: Vec<u8>,
    pub size: usize,
}

impl OCTET_STRING {
    /// The stored size agrees with the buffer.
    pub open spec fn wf(self) -> bool {
        self.size == self.buf@.len()
    }

    /// A deep, independent copy holding the same bytes and size.
    pub fn duplicate(&self) -> (r: Self)
        ensures
            r.buf@ == self.buf@,
            r.size == self.size,
    {
        OCTET_STRING { buf: copy_bytes(&self.buf), size: self.size }
    }

    /// Points the octet string at the bytes of `s`.
    pub fn fill(&mut self, s: &str)
        ensures
            final(self).buf@ == s.spec_bytes(),
            final(self).size == s.spec_bytes().len(),
            final(self).wf(),
    {
        self.buf = s.as_bytes_vec();
        self.size = self.buf.len();
    }
}

} // verus!
