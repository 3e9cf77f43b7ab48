//! Building text character by character, and numbers written out in digits.

use vstd::prelude::*;

verus! {

/// `String::push` of the standard library, which is documented to append the
/// given character to the end of the string: afterwards the string reads as
/// before, followed by `c`.
pub assume_specification[ String::push ](s: &mut String, c: char)
    ensures
        final(s)@ == old(s)@.push(c),
;

/// The character that writes the digit `value`, for a value below ten.
pub open spec fn digit(value: nat) -> char
    recommends
        value < 10,
{
    (0x30 + value) as char
}

/// `n` written in base `radix`: most significant digit first, no leading
/// zero, a single `0` for zero.
pub open spec fn numeral(n: nat, radix: nat) -> Seq<char>
    recommends
        2 <= radix <= 10,
    decreases n,
    when radix >= 2
    via numeral_decreases
{
    if n < radix {
        seq![digit(n)]
    } else {
        numeral(n / radix, radix).push(digit(n % radix))
    }
}

#[via_fn]
proof fn numeral_decreases(n: nat, radix: nat) {
    lemma_last_digit(n, radix);
}

/// Splitting off the last digit of `n` leaves a digit, and a smaller number
/// in front of it unless `n` was a single digit.
proof fn lemma_last_digit(n: nat, radix: nat)
    by (nonlinear_arith)
    requires
        radix >= 2,
    ensures
        n % radix < radix,
        n < radix ==> n % radix == n,
        n >= radix ==> n / radix < n,
{
}

/// Appends to `out` the digits of `n` in base `radix`.
pub fn push_numeral(out: &mut String, n: usize, radix: usize)
    requires
        2 <= radix <= 10,
    ensures
        final(out)@ == old(out)@ + numeral(n as nat, radix as nat),
    decreases n,
{
    proof {
        lemma_last_digit(n as nat, radix as nat);
    }
    if n >= radix {
        push_numeral(out, n / radix, radix);
    }
    let last: usize = n % radix;
    let code: u8 = 0x30 + last as u8;
    out.push(code as char);
    proof {
        let before = old(out)@;
        let (n, radix) = (n as nat, radix as nat);
        if n >= radix {
            assert(before + numeral(n / radix, radix).push(digit(n % radix)) =~= (before + numeral(
                n / radix,
                radix,
            )).push(digit(n % radix)));
        } else {
            assert(before + seq![digit(n)] =~= before.push(digit(n)));
        }
    }
}

} // verus!
