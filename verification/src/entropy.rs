//! The operating system's random number generator, the one source of
//! randomness in the stack.

use vstd::prelude::*;
use rand_core::RngCore;

verus! {

/// `rand_core::OsRng::fill_bytes`. Claimed: only that the buffer keeps its
/// length. Its contents are random and nothing is stated of them.
#[verifier::external_body]
pub(crate) fn fill_random(dst: &mut [u8])
    ensures
        final(dst)@.len() == old(dst)@.len(),
{
    rand_core::OsRng.fill_bytes(dst)
}

} // verus!
