use vstd::arithmetic::div_mod::lemma_fundamental_div_mod_converse;
use vstd::prelude::*;

verus! {

/// A bitstream character: the digit `'0'` or `'1'`.
pub open spec fn is_bit_char(c: char) -> bool {
    c == '0' || c == '1'
}

/// Every character of `s` is a binary digit.
pub open spec fn is_bit_string(s: Seq<char>) -> bool {
    forall|i: int| 0 <= i < s.len() ==> is_bit_char(#[trigger] s[i])
}

/// Numeric weight of one binary digit character.
pub open spec fn bit_val(c: char) -> nat {
    if c == '1' {
        1
    } else {
        0
    }
}

/// Value of a big-endian binary digit string; zero for the empty string.
pub open spec fn binary_value(s: Seq<char>) -> nat
    decreases s.len(),
{
    if s.len() == 0 {
        0
    } else {
        2 * binary_value(s.drop_last()) + bit_val(s.last())
    }
}

/// Canonical (shortest, hence leading-`'1'`) big-endian binary rendering of a
/// natural number; the empty sequence for zero.
pub open spec fn binary_repr(n: nat) -> Seq<char>
    decreases n,
{
    if n == 0 {
        Seq::empty()
    } else {
        binary_repr(n / 2).push(if n % 2 == 1 {
            '1'
        } else {
            '0'
        })
    }
}

/// The character for one decimal digit value below ten.
pub open spec fn decimal_digit(d: nat) -> char {
    if d == 0 {
        '0'
    } else if d == 1 {
        '1'
    } else if d == 2 {
        '2'
    } else if d == 3 {
        '3'
    } else if d == 4 {
        '4'
    } else if d == 5 {
        '5'
    } else if d == 6 {
        '6'
    } else if d == 7 {
        '7'
    } else if d == 8 {
        '8'
    } else {
        '9'
    }
}

/// Canonical decimal rendering of a natural number: no sign, no leading
/// zeros, and the single digit `'0'` for zero itself.
pub open spec fn decimal_repr(n: nat) -> Seq<char>
    decreases n,
{
    if n < 10 {
        seq![decimal_digit(n)]
    } else {
        decimal_repr(n / 10).push(decimal_digit(n % 10))
    }
}

/// The first `trim` characters of `s`, or all of `s` when fewer are
/// available: the take-at-most truncation the integer assembler applies.
pub open spec fn take_at_most(s: Seq<char>, trim: int) -> Seq<char> {
    if trim <= s.len() {
        s.take(trim)
    } else {
        s
    }
}

/// A binary string headed by `'1'` has a positive value.
pub proof fn lemma_leading_one_positive(s: Seq<char>)
    requires
        s.len() > 0,
        s[0] == '1',
    ensures
        binary_value(s) >= 1,
    decreases s.len(),
{
    if s.len() == 1 {
        assert(s.last() == s[0]);
    } else {
        assert(s.drop_last()[0] == s[0]);
        lemma_leading_one_positive(s.drop_last());
    }
}

/// Integer-assembler round trip, rendering direction: re-reading the
/// canonical binary rendering of any natural number gives that number back.
pub proof fn lemma_binary_repr_value(n: nat)
    ensures
        is_bit_string(binary_repr(n)),
        binary_value(binary_repr(n)) == n,
        n > 0 ==> binary_repr(n).len() > 0 && binary_repr(n)[0] == '1',
    decreases n,
{
    if n > 0 {
        lemma_binary_repr_value(n / 2);
        let d = if n % 2 == 1 {
            '1'
        } else {
            '0'
        };
        let r = binary_repr(n / 2).push(d);
        assert(r.drop_last() =~= binary_repr(n / 2));
        assert(r.last() == d);
        assert(binary_value(r) == 2 * (n / 2) + n % 2);
        assert(2 * (n / 2) + n % 2 == n) by {
            vstd::arithmetic::div_mod::lemma_fundamental_div_mod(n as int, 2);
        }
        if n / 2 > 0 {
            assert(r[0] == binary_repr(n / 2)[0]);
        }
        assert forall|i: int| 0 <= i < r.len() implies is_bit_char(#[trigger] r[i]) by {
            if i < r.len() - 1 {
                assert(r[i] == binary_repr(n / 2)[i]);
            }
        }
    }
}

/// Integer-assembler round trip, parsing direction: a binary string that
/// starts with `'1'` is reproduced exactly by rendering its value back in
/// binary.
///
/// A string with leading `'0'` digits denotes the same value as its stripped
/// form, so its length cannot survive the round trip; such strings are
/// deliberately outside this statement.
pub proof fn lemma_binary_round_trip(s: Seq<char>)
    requires
        s.len() > 0,
        is_bit_string(s),
        s[0] == '1',
    ensures
        binary_repr(binary_value(s)) == s,
    decreases s.len(),
{
    let v = binary_value(s);
    if s.len() == 1 {
        assert(s.last() == s[0]);
        assert(v == 1);
        assert(binary_repr(0nat) =~= Seq::<char>::empty());
        assert(binary_repr(1nat) =~= seq!['1']);
        assert(s =~= seq!['1']);
    } else {
        let t = s.drop_last();
        assert(t[0] == s[0]);
        assert(is_bit_string(t)) by {
            assert(forall|i: int| 0 <= i < t.len() ==> t[i] == s[i]);
        }
        lemma_leading_one_positive(t);
        let w = binary_value(t);
        let b = bit_val(s.last());
        assert(v == 2 * w + b);
        lemma_fundamental_div_mod_converse(v as int, 2, w as int, b as int);
        assert(v / 2 == w);
        assert(v % 2 == b);
        lemma_binary_round_trip(t);
        assert(is_bit_char(s.last()));
        assert(binary_repr(v) == t.push(s.last()));
        assert(t.push(s.last()) =~= s);
    }
}

} // verus!
