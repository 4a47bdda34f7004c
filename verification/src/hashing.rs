//! SHA-256 as the protocols use it: the hash commitment to a public
//! contribution and the Schnorr challenge.

use crate::curve::{be_value, group_order, Point, Scalar};
use curv::arithmetic::{Converter, Samplable};
use curv::cryptographic_primitives::commitments::hash_commitment::HashCommitment;
use curv::cryptographic_primitives::commitments::traits::Commitment;
use curv::BigInt;
use sha2::{Digest, Sha256};
use vstd::prelude::*;

verus! {

/// The SHA-256 digest of a byte string.
pub uninterp spec fn sha256_digest(data: Seq<u8>) -> Seq<u8>;

/// The hash commitment to `message` under the blinding factor `blinding`,
/// both read as big-endian numbers, as the big-endian bytes of a number.
pub uninterp spec fn hash_commitment(message: Seq<u8>, blinding: Seq<u8>) -> Seq<u8>;

/// Calls `Digest::digest` of sha2's `Sha256`.
#[verifier::external_body]
fn sha2_digest(data: &Vec<u8>) -> (r: Vec<u8>)
    ensures
        r@ == sha256_digest(data@),
{
    Sha256::digest(data).to_vec()
}

/// Calls `HashCommitment::create_commitment_with_user_defined_randomness` of
/// curv with SHA-256, on the numbers that the two byte strings denote.
#[verifier::external_body]
fn curv_hash_commitment(message: &Vec<u8>, blinding: &Vec<u8>) -> (r: Vec<u8>)
    ensures
        r@ == hash_commitment(message@, blinding@),
{
    let m = BigInt::from_bytes(message);
    let b = BigInt::from_bytes(blinding);
    HashCommitment::<Sha256>::create_commitment_with_user_defined_randomness(&m, &b).to_bytes()
}

/// Calls `BigInt::sample` of curv, which reads the system's randomness: the
/// big-endian bytes of a number within `[0, 2^bits)`, and no more is known.
#[verifier::external_body]
fn curv_sample(bits: usize) -> (r: Vec<u8>)
    ensures
        be_value(r@) < vstd::arithmetic::power2::pow2(bits as nat),
{
    BigInt::sample(bits).to_bytes()
}

/// A copy of a byte string.
pub fn copy_bytes(v: &Vec<u8>) -> (r: Vec<u8>)
    ensures
        r@ == v@,
{
    let mut r: Vec<u8> = Vec::new();
    let mut i: usize = 0;
    while i < v.len()
        invariant
            i <= v.len(),
            r@ == v@.subrange(0, i as int),
        decreases v.len() - i,
    {
        r.push(v[i]);
        assert(r@ =~= v@.subrange(0, i + 1));
        i += 1;
    }
    assert(r@ =~= v@);
    r
}

/// Whether two byte strings are the same.
pub fn same_bytes(a: &Vec<u8>, b: &Vec<u8>) -> (r: bool)
    ensures
        r == (a@ == b@),
{
    if a.len() != b.len() {
        return false;
    }
    let mut i: usize = 0;
    while i < a.len()
        invariant
            i <= a.len(),
            a.len() == b.len(),
            forall|j: int| 0 <= j < i ==> a@[j] == b@[j],
        decreases a.len() - i,
    {
        if a[i] != b[i] {
            return false;
        }
        i += 1;
    }
    assert(a@ =~= b@);
    true
}

/// A fresh blinding factor: the big-endian bytes of a number of at most
/// `SECURITY` bits from the system's randomness.
pub fn sample_blinding() -> (r: Vec<u8>)
    ensures
        be_value(r@) < vstd::arithmetic::power2::pow2(SECURITY as nat),
{
    curv_sample(SECURITY)
}

/// The number of bits of a blinding factor.
pub const SECURITY: usize = 256;

/// The commitment that `blinding` opens to the point `y`.
pub open spec fn commitment_to(y: Seq<u8>, blinding: Seq<u8>) -> Seq<u8> {
    hash_commitment(y, blinding)
}

/// Appends the encoding of a point to a byte string.
pub fn append_point(data: &mut Vec<u8>, p: &Point)
    ensures
        final(data)@ == old(data)@ + p@,
{
    let encoded = p.to_bytes();
    let ghost before = data@;
    let mut i: usize = 0;
    while i < 33
        invariant
            i <= 33,
            encoded@ == p@,
            data@ == before + p@.subrange(0, i as int),
        decreases 33 - i,
    {
        data.push(encoded[i]);
        assert(data@ =~= before + p@.subrange(0, i + 1));
        i += 1;
    }
    assert(p@.subrange(0, 33) =~= p@);
}

/// Appends a byte string to another.
pub fn append_bytes(data: &mut Vec<u8>, more: &[u8])
    ensures
        final(data)@ == old(data)@ + more@,
{
    let ghost before = data@;
    let mut i: usize = 0;
    while i < more.len()
        invariant
            i <= more.len(),
            data@ == before + more@.subrange(0, i as int),
        decreases more.len() - i,
    {
        data.push(more[i]);
        assert(data@ =~= before + more@.subrange(0, i + 1));
        i += 1;
    }
    assert(more@.subrange(0, more@.len() as int) =~= more@);
}

/// The scalar that the SHA-256 digest of `data` denotes.
pub open spec fn hash_value(data: Seq<u8>) -> nat {
    be_value(sha256_digest(data)) % group_order()
}

/// Hashes a byte string to a scalar.
pub fn hash_to_scalar(data: &Vec<u8>) -> (e: Scalar)
    ensures
        e@ == hash_value(data@),
{
    let digest = sha2_digest(data);
    Scalar::reduce(&digest)
}

/// Commits to a point under a blinding factor.
pub fn commit(y: &Point, blinding: &Vec<u8>) -> (r: Vec<u8>)
    ensures
        r@ == commitment_to(y@, blinding@),
{
    let mut message: Vec<u8> = Vec::new();
    append_point(&mut message, y);
    assert(message@ =~= y@);
    curv_hash_commitment(&message, blinding)
}

/// The Schnorr challenge `H(R ‖ Y ‖ m)` as a number modulo the group order.
pub open spec fn challenge_value(r: Seq<u8>, y: Seq<u8>, message: Seq<u8>) -> nat {
    hash_value(r + y + message)
}

/// Computes the Schnorr challenge for the nonce point `r`, the public key
/// `y` and the message.
pub fn challenge(r: &Point, y: &Point, message: &[u8]) -> (e: Scalar)
    ensures
        e@ == challenge_value(r@, y@, message@),
{
    let mut data: Vec<u8> = Vec::new();
    append_point(&mut data, r);
    append_point(&mut data, y);
    append_bytes(&mut data, message);
    assert(data@ =~= r@ + y@ + message@);
    hash_to_scalar(&data)
}

} // verus!
