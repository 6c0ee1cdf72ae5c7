//! Erasing secrets from memory, and comparing them without leaking where
//! they differ.

use vstd::prelude::*;

verus! {

/// Erases a byte buffer with `zeroize::Zeroize::zeroize` for `Vec<u8>`, which
/// overwrites the elements and the spare capacity with zeros and then clears
/// the vector. Claimed here: the vector is empty afterwards, and the call
/// does not panic, so that it may run while a value is dropped.
#[verifier::external_body]
pub(crate) fn wipe_bytes(bytes: &mut Vec<u8>)
    ensures
        final(bytes)@ == Seq::<u8>::empty(),
    opens_invariants none
    no_unwind
{
    zeroize::Zeroize::zeroize(bytes);
}

/// Erases a string with `zeroize::Zeroize::zeroize` for `String`, which
/// zeroizes the underlying byte vector and so leaves the string empty.
/// Claimed here: the string is empty afterwards, and the call does not
/// panic, so that it may run while a value is dropped.
#[verifier::external_body]
pub(crate) fn wipe_string(text: &mut String)
    ensures
        final(text)@ == Seq::<char>::empty(),
    opens_invariants none
    no_unwind
{
    zeroize::Zeroize::zeroize(text);
}

/// Compares two byte strings with `subtle::ConstantTimeEq::ct_eq` for
/// slices, whose running time depends on the lengths only. Claimed here: the
/// answer is whether the two strings are equal.
#[verifier::external_body]
pub(crate) fn constant_time_eq(a: &[u8], b: &[u8]) -> (same: bool)
    ensures
        same == (a@ == b@),
{
    subtle::ConstantTimeEq::ct_eq(a, b).into()
}

} // verus!
