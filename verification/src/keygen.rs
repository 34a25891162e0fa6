//! Key generation: pseudo-random key material of a requested length.

use vstd::prelude::*;

verus! {

/// Relies on rand::random::<u8>: one byte drawn uniformly from the full
/// byte range by the process-wide random source. Nothing can be promised
/// of the value itself.
#[verifier::external_body]
fn random_byte() -> u8 {
    rand::random()
}

/// Key material of exactly the requested length, for every length,
/// including zero. Generation never fails.
pub fn generate(size: usize) -> (r: Vec<u8>)
    ensures
        r@.len() == size,
{
    let mut out: Vec<u8> = Vec::new();
    let mut i: usize = 0;
    while i < size
        invariant
            i <= size,
            out@.len() == i,
        decreases size - i,
    {
        out.push(random_byte());
        i = i + 1;
    }
    out
}

} // verus!
