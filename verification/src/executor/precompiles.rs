//! The contracts that a node runs in its own code: what they cost and
//! what they answer.

use crate::codec::signed::{
    outside_recover, public_to_address, recovered_key, spec_public_to_address,
};
use crate::types::hash::H256;
use vstd::prelude::*;
use vstd::slice::slice_subrange;

verus! {

/// The gas that the recovery of a signer costs.
pub const ECRECOVER_GAS: u64 = 3_000;

/// The gas that the copy of an input costs at least.
pub const IDENTITY_BASE_GAS: u64 = 15;

/// The gas that the copy of one word of 32 bytes costs.
pub const IDENTITY_WORD_GAS: u64 = 3;

/// The gas that the copy of an input of the given length costs: the base,
/// and the cost of a word for each word of 32 bytes that was begun.
pub open spec fn spec_identity_gas(len: nat) -> nat {
    IDENTITY_BASE_GAS as nat + IDENTITY_WORD_GAS as nat * ((len + 31) / 32)
}

/// The gas that the copy of an input of the given length costs.
pub fn identity_gas(len: usize) -> (r: u64)
    ensures
        r == spec_identity_gas(len as nat),
{
    let words: u64 = (len / 32) as u64 + if len % 32 > 0 {
        1u64
    } else {
        0u64
    };
    assert(words == (len + 31) / 32) by (nonlinear_arith)
        requires
            words == len / 32 + (if len % 32 > 0 {
                1int
            } else {
                0int
            }),
    ;
    IDENTITY_BASE_GAS + IDENTITY_WORD_GAS * words
}

/// The first 128 bytes of an input, with zeros where it is shorter.
pub open spec fn padded(input: Seq<u8>) -> Seq<u8> {
    Seq::new(
        128,
        |i: int|
            if i < input.len() {
                input[i]
            } else {
                0u8
            },
    )
}

/// The signature that an input of the recovery names: `r`, `s` and the
/// recovery id, where the word of `v` holds 27 or 28.
pub open spec fn spec_ecrecover_signature(input: Seq<u8>) -> Option<Seq<u8>> {
    let p = padded(input);
    if (forall|i: int| 32 <= i < 63 ==> #[trigger] p[i] == 0) && (p[63] == 27 || p[63] == 28) {
        Some(p.subrange(64, 128) + seq![(p[63] - 27) as u8])
    } else {
        None
    }
}

/// What the recovery of a signer answers: the address of the key that
/// signs the digest in the first word with the signature that the input
/// names, in a word of 32 bytes, and nothing where there is none.
pub open spec fn spec_ecrecover(input: Seq<u8>) -> Seq<u8> {
    match spec_ecrecover_signature(input) {
        None => Seq::empty(),
        Some(sig) => match recovered_key(padded(input).subrange(0, 32), sig) {
            Some(k) => if k.len() == 65 {
                Seq::new(12, |i: int| 0u8) + spec_public_to_address(k.subrange(1, 65))@
            } else {
                Seq::empty()
            },
            None => Seq::empty(),
        },
    }
}

/// What the recovery of a signer answers to an input.
pub fn ecrecover(input: &[u8]) -> (r: Vec<u8>)
    ensures
        r@ == spec_ecrecover(input@),
{
    let mut p: Vec<u8> = Vec::new();
    let mut i: usize = 0;
    while i < 128
        invariant
            i <= 128,
            p@.len() == i,
            forall|j: int| 0 <= j < i ==> p@[j] == padded(input@)[j],
        decreases 128 - i,
    {
        let b: u8 = if i < input.len() {
            input[i]
        } else {
            0u8
        };
        p.push(b);
        i += 1;
    }
    assert(p@ =~= padded(input@));
    let mut k: usize = 32;
    while k < 63
        invariant
            32 <= k <= 63,
            p@ == padded(input@),
            forall|j: int| 32 <= j < k ==> p@[j] == 0,
        decreases 63 - k,
    {
        if p[k] != 0 {
            return Vec::new();
        }
        k += 1;
    }
    let v: u8 = p[63];
    if v != 27 && v != 28 {
        return Vec::new();
    }
    let mut sig: Vec<u8> = crate::types::hash::slice_to_vec(slice_subrange(p.as_slice(), 64, 128));
    sig.push(v - 27);
    assert(sig@ =~= p@.subrange(64, 128) + seq![(v - 27) as u8]);
    match outside_recover(slice_subrange(p.as_slice(), 0, 32), sig.as_slice()) {
        None => Vec::new(),
        Some(key) => {
            let address = public_to_address(slice_subrange(key.as_slice(), 1, 65));
            H256::from_address(&address).to_vec()
        },
    }
}

} // verus!
