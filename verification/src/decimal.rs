//! The decimal text of an integer, and its width.

use vstd::prelude::*;

verus! {

/// The character of the decimal digit `d`, for `d` from 0 to 9.
pub open spec fn digit(d: int) -> char {
    ('0' as int + d) as char
}

/// The decimal digits of `n`, most significant first, without leading zeros.
/// Zero is the single digit `0`.
pub open spec fn digits(n: nat) -> Seq<char>
    decreases n,
{
    if n < 10 {
        seq![digit(n as int)]
    } else {
        digits(n / 10).push(digit((n % 10) as int))
    }
}

/// The decimal text of `value`: a minus sign if it is negative, then the digits
/// of its magnitude.
pub open spec fn decimal(value: int) -> Seq<char> {
    if value < 0 {
        seq!['-'] + digits((-value) as nat)
    } else {
        digits(value as nat)
    }
}

/// Ten to the power `k`.
pub open spec fn ten_to(k: nat) -> nat
    decreases k,
{
    if k == 0 {
        1
    } else {
        10 * ten_to((k - 1) as nat)
    }
}

/// A number below `10^k` has at most `k` digits, and every number has at least
/// one.
pub proof fn lemma_digits_len(n: nat, k: nat)
    requires
        k >= 1,
        n < ten_to(k),
    ensures
        1 <= digits(n).len() <= k,
    decreases k,
{
    if n >= 10 {
        assert(ten_to(1) == 10) by {
            reveal_with_fuel(ten_to, 2);
        }
        lemma_digits_len(n / 10, (k - 1) as nat);
    }
}

/// The decimal text of an `i32` has between one and eleven characters.
pub proof fn lemma_decimal_len(value: i32)
    ensures
        1 <= decimal(value as int).len() <= 11,
{
    assert(ten_to(10) == 10_000_000_000nat) by {
        reveal_with_fuel(ten_to, 11);
    }
    if value < 0 {
        lemma_digits_len((-value) as nat, 10);
    } else {
        lemma_digits_len(value as nat, 10);
    }
}

/// The number of characters in the decimal text of `value`, the minus sign of a
/// negative value included.
pub fn count_digits(value: i32) -> (count: u32)
    ensures
        count == decimal(value as int).len(),
{
    let mut n: u64 = 0;
    let mut count: u32 = 0;
    if value < 0 {
        n = (-(value as i64)) as u64;
        count += 1;
    } else {
        n = value as u64;
    }
    let ghost magnitude: nat = n as nat;
    let ghost sign: nat = count as nat;
    proof {
        lemma_decimal_len(value);
    }
    loop
        invariant_except_break
            sign + digits(magnitude).len() <= 11,
            count + digits(n as nat).len() == sign + digits(magnitude).len(),
        ensures
            count == sign + digits(magnitude).len(),
        decreases n,
    {
        count += 1;
        n /= 10;
        if n == 0 {
            break;
        }
    }
    count
}

} // verus!
