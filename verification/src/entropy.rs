//! Fresh random bytes from the operating system.

use vstd::prelude::*;

verus! {

/// Fills a new buffer of `len` bytes with `getrandom::getrandom`. Nothing is
/// claimed of the bytes but their number, and nothing at all when the
/// operating system has no randomness to give.
#[verifier::external_body]
pub(crate) fn random_bytes(len: usize) -> (out: Option<Vec<u8>>)
    requires
        len <= 64,
    ensures
        out matches Some(v) ==> v@.len() == len,
{
    let mut out = vec![0u8; len];
    getrandom::getrandom(&mut out).ok()?;
    Some(out)
}

} // verus!
