//! Writing into a text through `ufmt`. These three functions are the only code
//! of the library that is trusted rather than proved: each hands its arguments to
//! `ufmt` and states what `ufmt` appends.

use crate::decimal::decimal;
use vstd::prelude::*;

verus! {

/// Appends `text` to `out`.
///
/// Trusted: calls `uWrite::write_str` as `ufmt` implements it for `String` (in
/// `ufmt-write`, with the feature `std`), which pushes the whole slice onto the
/// string and always succeeds.
#[verifier::external_body]
pub(crate) fn put_str(out: &mut String, text: &str)
    ensures
        final(out)@ == old(out)@ + text@,
{
    let _ = ufmt::uWrite::write_str(out, text);
}

/// Appends the decimal text of `value` to `out`.
///
/// Trusted: calls `uDisplay::fmt` as `ufmt` implements it for `i32`, on a
/// formatter over `out`. It writes a minus sign for a negative number and then
/// the digits of the magnitude, without padding or leading zeros.
#[verifier::external_body]
pub(crate) fn put_i32(out: &mut String, value: i32)
    ensures
        final(out)@ == old(out)@ + decimal(value as int),
{
    let _ = ufmt::uDisplay::fmt(&value, &mut ufmt::Formatter::new(out));
}

/// Appends the decimal text of `value` to `out`.
///
/// Trusted: calls `uDisplay::fmt` as `ufmt` implements it for `usize`, on a
/// formatter over `out`. It writes the digits of the number, without padding or
/// leading zeros.
#[verifier::external_body]
pub(crate) fn put_usize(out: &mut String, value: usize)
    ensures
        final(out)@ == old(out)@ + decimal(value as int),
{
    let _ = ufmt::uDisplay::fmt(&value, &mut ufmt::Formatter::new(out));
}

} // verus!
