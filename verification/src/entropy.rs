//! Random bytes from the operating system.
use vstd::prelude::*;

verus! {

/// Wraps `getrandom::fill`: fills `buffer` with random bytes from the
/// operating system and reports whether that worked. The bytes are chance;
/// only the length of the buffer is stated, which stays the same.
#[verifier::external_body]
pub fn fill_random(buffer: &mut [u8]) -> (filled: bool)
    ensures
        final(buffer)@.len() == old(buffer)@.len(),
{
    getrandom::fill(buffer).is_ok()
}

} // verus!
