use vstd::prelude::*;

verus! {

/// The failures the entropy pipeline can surface.
///
/// Device-level failures (no camera, capture aborted) belong to the capture
/// collaborator outside this crate; the core itself only ever reports these
/// two conditions.
#[derive(Clone, Copy, Debug, PartialEq, Eq, Structural)]
pub enum EntropyError {
    /// The frame batch was empty or its buffers disagreed in length.
    ShapeMismatch,
    /// The numeral handed to the integer assembler was empty or held a
    /// character other than `'0'` and `'1'`.
    MalformedNumeral,
}

} // verus!
