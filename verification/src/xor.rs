//! The byte-wise XOR transform: the cipher's core primitive.

use vstd::prelude::*;
use crate::errors::OpError;

verus! {

/// `data` combined with `key`, byte by byte; key bytes past the end of
/// `data` are unused.
pub open spec fn xor_seq(data: Seq<u8>, key: Seq<u8>) -> Seq<u8> {
    Seq::new(data.len(), |i: int| data[i] ^ key[i])
}

/// Applying the transform twice with the same key recovers the data:
/// the transform is self-inverse, which is why encrypt and decrypt
/// share one code path.
pub proof fn lemma_xor_round_trip(p: Seq<u8>, k: Seq<u8>)
    requires
        p.len() <= k.len(),
    ensures
        xor_seq(xor_seq(p, k), k) == p,
{
    assert forall|i: int| 0 <= i < p.len() implies xor_seq(xor_seq(p, k), k)[i] == p[i] by {
        let a = p[i];
        let b = k[i];
        assert((a ^ b) ^ b == a) by (bit_vector);
    }
    assert(xor_seq(xor_seq(p, k), k) =~= p);
}

/// The transform itself; the key must cover the data.
pub fn xor_apply(data: &Vec<u8>, key: &Vec<u8>) -> (r: Vec<u8>)
    requires
        data@.len() <= key@.len(),
    ensures
        r@ == xor_seq(data@, key@),
{
    let mut out: Vec<u8> = Vec::new();
    let mut i: usize = 0;
    while i < data.len()
        invariant
            i <= data@.len(),
            data@.len() <= key@.len(),
            out@.len() == i,
            forall|j: int| 0 <= j < i ==> out@[j] == (data@[j] ^ key@[j]),
        decreases data@.len() - i,
    {
        out.push(data[i] ^ key[i]);
        i = i + 1;
    }
    proof {
        assert(out@ =~= xor_seq(data@, key@));
    }
    out
}

/// The checked transform: a key shorter than the data is rejected, not
/// a panic, so one bad request never aborts a batch.
pub fn xor_checked(data: &Vec<u8>, key: &Vec<u8>) -> (r: Result<Vec<u8>, OpError>)
    ensures
        match r {
            Ok(c) => data@.len() <= key@.len() && c@ == xor_seq(data@, key@),
            Err(e) => data@.len() > key@.len() && e == OpError::KeyTooShort,
        },
{
    if data.len() > key.len() {
        Err(OpError::KeyTooShort)
    } else {
        Ok(xor_apply(data, key))
    }
}

} // verus!
