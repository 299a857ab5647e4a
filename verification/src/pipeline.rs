use crate::bignum::{binary_to_decimal_big, to_decimal};
use crate::bits::{binary_value, decimal_repr, is_bit_char, take_at_most};
use crate::errors::EntropyError;
use crate::mixer::{batch_view, entropy, lemma_mixed_bits_shape, mixed_bits, well_shaped};
use vstd::prelude::*;

verus! {

/// The bitstream a request of `trim` bits reads from a batch: the mixed
/// stream, truncated to at most `trim` characters.
pub open spec fn trimmed_stream(batch: Seq<Seq<u8>>, trim: int) -> Seq<char> {
    take_at_most(mixed_bits(batch), trim)
}

/// The whole computational pipeline after capture: mix the frame batch into
/// a bitstream, trim it to at most `trim` bits, and render the number the
/// trimmed numeral denotes as a decimal string.
///
/// Succeeds exactly when the batch is usable and at least one bit was
/// requested: an empty or unequal-shaped batch is a shape mismatch, and a
/// request for zero bits leaves an empty numeral, which the assembler
/// reports rather than reads as zero.
pub fn derive_random_decimal(photos: Vec<Vec<u8>>, trim: u64) -> (r: Result<String, EntropyError>)
    ensures
        r is Ok <==> well_shaped(batch_view(photos@)) && trim > 0,
        r matches Ok(d) ==> d@ == decimal_repr(
            binary_value(trimmed_stream(batch_view(photos@), trim as int)),
        ),
        !well_shaped(batch_view(photos@)) ==> r == Err::<String, EntropyError>(
            EntropyError::ShapeMismatch,
        ),
        well_shaped(batch_view(photos@)) && trim == 0 ==> r == Err::<String, EntropyError>(
            EntropyError::MalformedNumeral,
        ),
{
    let ghost batch = batch_view(photos@);
    let bits = match entropy(photos, trim) {
        Ok(s) => s,
        Err(e) => {
            return Err(e);
        },
    };
    proof {
        lemma_mixed_bits_shape(batch);
        let trimmed = take_at_most(mixed_bits(batch), trim as int);
        assert forall|k: int| 0 <= k < trimmed.len() implies is_bit_char(#[trigger] trimmed[k]) by {
            assert(trimmed[k] == mixed_bits(batch)[k]);
        }
        assert(trim > 0 ==> trimmed.len() > 0);
        assert(trim == 0 ==> trimmed.len() == 0);
    }
    let num = match binary_to_decimal_big(bits.as_str()) {
        Ok(b) => b,
        Err(e) => {
            return Err(e);
        },
    };
    Ok(to_decimal(&num))
}

} // verus!
