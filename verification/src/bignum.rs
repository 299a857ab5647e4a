use crate::bits::{binary_value, decimal_repr, is_bit_char, is_bit_string};
use crate::errors::EntropyError;
use vstd::prelude::*;
use vstd::string::StrSliceExecFns;

verus! {

#[verifier::external_type_specification]
#[verifier::external_body]
pub struct ExBigUint(num_bigint::BigUint);

#[verifier::external_type_specification]
#[verifier::external_body]
pub struct ExParseBigIntError(num_bigint::ParseBigIntError);

/// The natural number a `num_bigint::BigUint` holds. The type is an opaque
/// growable limb container; this names its contents, and the wrappers below
/// state what the operations the assembler calls do to it.
pub uninterp spec fn biguint_value(b: num_bigint::BigUint) -> nat;

/// Relies on `num_bigint`'s `from_str_radix` at radix 2: a nonempty string
/// of `'0'`/`'1'` digits parses without error to the number it denotes in
/// big-endian base 2.
#[verifier::external_body]
pub(crate) fn parse_binary(s: &str) -> (r: Result<
    num_bigint::BigUint,
    num_bigint::ParseBigIntError,
>)
    requires
        s@.len() > 0,
        is_bit_string(s@),
    ensures
        r is Ok,
        r matches Ok(b) ==> biguint_value(b) == binary_value(s@),
{
    num_traits::Num::from_str_radix(s, 2)
}

/// Relies on `num_bigint`'s `to_str_radix` at radix 10: the canonical
/// decimal digits of the number, without sign or leading zeros, and `"0"`
/// for zero itself.
#[verifier::external_body]
pub(crate) fn to_decimal(b: &num_bigint::BigUint) -> (r: String)
    ensures
        r@ == decimal_repr(biguint_value(*b)),
{
    b.to_str_radix(10)
}

/// Integer assembler, parsing half: read a binary numeral as an
/// unbounded-precision unsigned integer.
///
/// Succeeds exactly on nonempty strings of binary digits; an empty or
/// otherwise malformed numeral is reported as such, never read as zero.
pub fn binary_to_decimal_big(binary_str: &str) -> (r: Result<num_bigint::BigUint, EntropyError>)
    ensures
        r is Ok <==> binary_str@.len() > 0 && is_bit_string(binary_str@),
        r matches Ok(b) ==> biguint_value(b) == binary_value(binary_str@),
        r is Err ==> r->Err_0 == EntropyError::MalformedNumeral,
{
    let n = binary_str.unicode_len();
    if n == 0 {
        return Err(EntropyError::MalformedNumeral);
    }
    let mut i: usize = 0;
    while i < n
        invariant
            0 <= i <= n,
            n as nat == binary_str@.len(),
            forall|k: int| 0 <= k < i ==> is_bit_char(#[trigger] binary_str@[k]),
        decreases n - i,
    {
        let c = binary_str.get_char(i);
        if !(c == '0' || c == '1') {
            assert(!is_bit_char(binary_str@[i as int]));
            return Err(EntropyError::MalformedNumeral);
        }
        i += 1;
    }
    assert(is_bit_string(binary_str@));
    match parse_binary(binary_str) {
        Ok(b) => Ok(b),
        Err(_) => Err(EntropyError::MalformedNumeral),
    }
}

} // verus!
