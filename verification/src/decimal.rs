//! Decimal rendering of natural numbers as ASCII text.

use vstd::prelude::*;

verus! {

/// The ASCII character of the decimal digit `d`, for `d` below ten.
pub open spec fn digit(d: nat) -> u8 {
    (0x30 + d) as u8
}

/// The decimal rendering of `n`: its digits, most significant first, with no
/// sign and no leading zero; zero renders as the single digit `0`.
pub open spec fn decimal(n: nat) -> Seq<u8>
    decreases n,
{
    if n < 10 {
        seq![digit(n)]
    } else {
        decimal(n / 10) + seq![digit(n % 10)]
    }
}

/// Whether every byte of `text` is an ASCII decimal digit.
pub open spec fn is_digits(text: Seq<u8>) -> bool {
    forall|i: int| 0 <= i < text.len() ==> 0x30 <= #[trigger] text[i] <= 0x39
}

/// The number that a string of decimal digits spells.
pub open spec fn decimal_value(text: Seq<u8>) -> nat
    decreases text.len(),
{
    if text.len() == 0 {
        0
    } else {
        10 * decimal_value(text.drop_last()) + (text.last() - 0x30) as nat
    }
}

/// A rendering is a non-empty string of digits whose first digit is `0` only
/// when the number is zero.
pub proof fn lemma_decimal_digits(n: nat)
    ensures
        decimal(n).len() >= 1,
        is_digits(decimal(n)),
        decimal(n)[0] == 0x30 <==> n == 0,
    decreases n,
{
    if n >= 10 {
        lemma_decimal_digits(n / 10);
    }
}

/// Reading a rendering back gives the number that was rendered, so distinct
/// numbers have distinct renderings.
pub proof fn lemma_decimal_value(n: nat)
    ensures
        decimal_value(decimal(n)) == n,
    decreases n,
{
    if n < 10 {
        assert(decimal(n).drop_last() =~= Seq::<u8>::empty());
        assert(decimal_value(Seq::<u8>::empty()) == 0);
    } else {
        lemma_decimal_value(n / 10);
        assert(decimal(n).drop_last() =~= decimal(n / 10));
    }
}

/// Appends the decimal rendering of `n`.
pub fn push_decimal(n: usize, output: &mut Vec<u8>)
    ensures
        final(output)@ == old(output)@ + decimal(n as nat),
    decreases n,
{
    if n >= 10 {
        push_decimal(n / 10, output);
    }
    let low: u8 = 0x30 + (n % 10) as u8;
    proof {
        if n >= 10 {
            assert(old(output)@ + (decimal((n / 10) as nat) + seq![low]) =~= (old(output)@
                + decimal((n / 10) as nat)).push(low));
        } else {
            assert(old(output)@ + seq![low] =~= old(output)@.push(low));
        }
    }
    output.push(low);
}

} // verus!
