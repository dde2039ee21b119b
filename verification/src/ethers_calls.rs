//! The calls this library makes into the `ethers` crate, each behind a
//! function whose contract states what the crate's source shows of it.

use vstd::prelude::*;
use crate::primitives::{limbs_value, Signature};

verus! {

/// The Keccak-256 digest of a byte string, as `ethers::utils::keccak256`
/// computes it.
pub uninterp spec fn keccak256_of(data: Seq<u8>) -> Seq<u8>;

/// The signer address that `ethers::types::Signature::recover` gives back for
/// a signature `(r, s, v)` over a 32-byte message hash, or `None` where it
/// reports an error.
pub uninterp spec fn recovered_signer(r: Seq<u64>, s: Seq<u64>, v: u64, hash: Seq<u8>) -> Option<
    Seq<u8>,
>;

/// Byte `i` (counted from the least significant) of the 32-byte little-endian
/// encoding of `x`.
pub open spec fn le_byte(x: u32, i: int) -> u8 {
    if i == 0 {
        (x & 0xff) as u8
    } else if i == 1 {
        ((x >> 8u32) & 0xff) as u8
    } else if i == 2 {
        ((x >> 16u32) & 0xff) as u8
    } else if i == 3 {
        ((x >> 24u32) & 0xff) as u8
    } else {
        0u8
    }
}

/// The 32-byte little-endian encoding of `x`.
pub open spec fn le32_bytes(x: u32) -> Seq<u8> {
    Seq::new(32, |i: int| le_byte(x, i))
}

/// Calls `ethers::utils::keccak256`. The contract claims only that the digest
/// is a function of the input bytes, named `keccak256_of`; the source builds a
/// fresh `[u8; 32]` from `tiny_keccak::Keccak::v256` and cannot panic.
#[verifier::external_body]
pub(crate) fn keccak256_digest(data: &[u8]) -> (digest: [u8; 32])
    ensures
        digest@ == keccak256_of(data@),
{
    ethers::utils::keccak256(data)
}

/// Calls `U256::from(x).to_little_endian` on a fresh 32-byte buffer. Its
/// documentation says it writes the value in little-endian format: byte `i`
/// holds bits `8i..8i+8` of `x`, and the bytes past the fourth are zero.
#[verifier::external_body]
pub(crate) fn u256_le_bytes(x: u32) -> (bytes: [u8; 32])
    ensures
        bytes@ == le32_bytes(x),
{
    let mut bytes = [0u8; 32];
    ethers::types::U256::from(x).to_little_endian(&mut bytes);
    bytes
}

/// Calls `U256::div_mod`, which the crate documents as returning
/// `(self / other, self % other)` and as panicking on a zero divisor; the
/// divisor is required to be non-zero. Only the quotient is handed back.
#[verifier::external_body]
pub(crate) fn u256_quotient(dividend: [u64; 4], divisor: [u64; 4]) -> (quotient: [u64; 4])
    requires
        limbs_value(divisor@) > 0,
    ensures
        limbs_value(quotient@) == limbs_value(dividend@) / limbs_value(divisor@),
{
    ethers::types::U256(dividend).div_mod(ethers::types::U256(divisor)).0.0
}

/// Calls `ethers::types::Signature::recover` with a message hash. The result
/// is named `recovered_signer` over the signature's fields and the hash:
/// public-key recovery is deterministic in them. `None` stands for the error
/// the crate reports (an invalid signature or a failed recovery).
#[verifier::external_body]
pub(crate) fn recover_signer(signature: &Signature, hash: &[u8; 32]) -> (signer: Option<[u8; 20]>)
    ensures
        match signer {
            Some(a) => recovered_signer(
                signature.r.limbs@,
                signature.s.limbs@,
                signature.v,
                hash@,
            ) == Some(a@),
            None => recovered_signer(
                signature.r.limbs@,
                signature.s.limbs@,
                signature.v,
                hash@,
            ) is None,
        },
{
    let sig = ethers::types::Signature {
        r: ethers::types::U256(signature.r.limbs),
        s: ethers::types::U256(signature.s.limbs),
        v: signature.v,
    };
    match sig.recover(ethers::types::H256(*hash)) {
        Ok(address) => Some(address.0),
        Err(_) => None,
    }
}

} // verus!
