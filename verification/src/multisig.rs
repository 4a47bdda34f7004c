//! Plain n-of-n Schnorr multi-signatures: every signer holds a long-term
//! key `I` and an ephemeral key `X`, signs with `y_i = x_i + e · i_i`, and
//! the parts add up to a signature under the sums of the keys. A Merkle tree
//! over the long-term keys lets a signer show that its key is among them.

use crate::curve::{ec_add, ec_mul, generator_encoding, group_order, Point, Scalar};
use crate::error::Error;
use crate::hashing::{append_point, challenge, challenge_value, hash_to_scalar, hash_value};
use crate::party_i::{point_sum, scalar_sum, sum_points, sum_scalars};
use crate::vss::{encodings, numbers};
use curv::cryptographic_primitives::hashing::merkle_tree::Proof as CurvProof;
use curv::cryptographic_primitives::hashing::merkle_tree::MT256 as CurvTree;
use curv::elliptic::curves::Point as CurvPoint;
use curv::elliptic::curves::Secp256k1;
use digest::generic_array::GenericArray;
use sha2::Sha256;
use vstd::arithmetic::div_mod::lemma_add_mod_noop_right;
use vstd::prelude::*;

verus! {

/// A secret scalar and the point that belongs to it.
#[derive(Clone, Copy, Debug)]
pub struct KeyPair {
    pub public_key: Point,
    pub private_key: Scalar,
}

/// A signer's long-term key `I` and ephemeral key `X`.
#[allow(non_snake_case)]
#[derive(Clone, Copy, Debug)]
pub struct Keys {
    pub I: KeyPair,
    pub X: KeyPair,
}

/// A fresh ephemeral key for one signature.
#[derive(Clone, Copy, Debug)]
pub struct EphKey {
    pub eph_key_pair: KeyPair,
}

/// The root of the Merkle tree over the encoded points `leaves`.
pub uninterp spec fn merkle_root(leaves: Seq<Seq<u8>>) -> Seq<u8>;

/// The proof that `point` is a leaf of the Merkle tree over `leaves`: the
/// leaf's node index and the hashes beside its path; `None` where it is no
/// leaf.
pub uninterp spec fn merkle_proof(leaves: Seq<Seq<u8>>, point: Seq<u8>) -> Option<
    (u32, Seq<Seq<u8>>),
>;

/// Whether the hashes `lemmas` lead from the leaf `point` at node `index` to
/// `root`.
pub uninterp spec fn merkle_proof_valid(
    index: u32,
    lemmas: Seq<Seq<u8>>,
    point: Seq<u8>,
    root: Seq<u8>,
) -> bool;

/// A Merkle tree over group elements.
#[derive(Clone, Debug)]
pub struct MT256 {
    pub leaves: Vec<Point>,
}

/// The proof that a point is a leaf of a Merkle tree.
#[derive(Clone, Debug)]
pub struct Proof {
    pub index: u32,
    pub lemmas: Vec<Vec<u8>>,
    pub point: Point,
}

/// The byte strings of a sequence of hashes.
pub open spec fn hashes(lemmas: Seq<Vec<u8>>) -> Seq<Seq<u8>> {
    lemmas.map_values(|l: Vec<u8>| l@)
}

/// Calls `MT256::create_tree` of curv with SHA-256 on the points and
/// `get_root` on the tree. The points are handed over by their encodings,
/// which curv reads back as group elements.
#[verifier::external_body]
fn curv_merkle_root(leaves: &Vec<Point>) -> (r: Vec<u8>)
    ensures
        r@ == merkle_root(encodings(leaves@)),
{
    let leaves =
        leaves.iter().map(|p| CurvPoint::<Secp256k1>::from_bytes(&p.to_bytes()).unwrap()).collect();
    CurvTree::<Secp256k1, Sha256>::create_tree(leaves).get_root().to_vec()
}

/// Calls `MT256::create_tree` of curv with SHA-256 on the points and
/// `build_proof` on the tree.
#[verifier::external_body]
fn curv_merkle_proof(leaves: &Vec<Point>, point: &Point) -> (r: Option<Proof>)
    ensures
        r is Some == merkle_proof(encodings(leaves@), point@) is Some,
        r matches Some(p) ==> p.point == *point && (p.index, hashes(p.lemmas@)) == merkle_proof(
            encodings(leaves@),
            point@,
        )->0,
{
    let leaves =
        leaves.iter().map(|p| CurvPoint::<Secp256k1>::from_bytes(&p.to_bytes()).unwrap()).collect();
    let p = CurvPoint::<Secp256k1>::from_bytes(&point.to_bytes()).unwrap();
    let proof = CurvTree::<Secp256k1, Sha256>::create_tree(leaves).build_proof(p)?;
    let lemmas = proof.lemmas.iter().map(|l| l.to_vec()).collect();
    Some(Proof { index: proof.index, lemmas, point: *point })
}

/// Calls `Proof::verify` of curv's Merkle tree with SHA-256 and says whether
/// it returned `Ok`. The root and the hashes of the proof are SHA-256
/// digests: 32 bytes each.
#[verifier::external_body]
fn curv_merkle_verify(proof: &Proof, root: &Vec<u8>) -> (ok: bool)
    requires
        root@.len() == 32,
        forall|k: int| 0 <= k < proof.lemmas@.len() ==> (#[trigger] proof.lemmas@[k])@.len() == 32,
    ensures
        ok == merkle_proof_valid(proof.index, hashes(proof.lemmas@), proof.point@, root@),
{
    let lemmas =
        proof.lemmas.iter().map(|l| <[u8; 32]>::try_from(&l[..]).unwrap().into()).collect();
    let point = CurvPoint::<Secp256k1>::from_bytes(&proof.point.to_bytes()).unwrap();
    let p = CurvProof::<Secp256k1, Sha256> { index: proof.index, lemmas, point };
    let root: GenericArray<u8, _> = <[u8; 32]>::try_from(&root[..]).unwrap().into();
    p.verify(&root).is_ok()
}

impl KeyPair {
    /// Whether the public key belongs to the private key.
    pub open spec fn wf(self) -> bool {
        self.public_key@ == ec_mul(generator_encoding(), self.private_key@)
    }

    /// A fresh key pair.
    pub fn create() -> (r: KeyPair)
        ensures
            r.wf(),
            0 < r.private_key@ < group_order(),
    {
        let private_key = Scalar::random();
        let public_key = Point::generator().times(&private_key);
        KeyPair { public_key, private_key }
    }
}

/// The encodings of all points of all broadcasts, one after the other.
pub open spec fn concatenated(broadcasts: Seq<Vec<Point>>) -> Seq<u8>
    decreases broadcasts.len(),
{
    if broadcasts.len() == 0 {
        Seq::empty()
    } else {
        concatenated(broadcasts.drop_last()) + joined(encodings(broadcasts.last()@))
    }
}

/// The encodings of a sequence of points, one after the other.
pub open spec fn joined(points: Seq<Seq<u8>>) -> Seq<u8>
    decreases points.len(),
{
    if points.len() == 0 {
        Seq::empty()
    } else {
        joined(points.drop_last()) + points.last()
    }
}

/// Whether `y` is a signer's part, or the sum of all parts, of a signature
/// under the long-term key `i`, the ephemeral key `x` and the challenge `e`:
/// `G · y == X + e · I`.
pub open spec fn part_valid(i: Seq<u8>, x: Seq<u8>, y: nat, e: nat) -> bool {
    ec_mul(generator_encoding(), y) == ec_add(x, ec_mul(i, e))
}

impl Keys {
    /// Fresh long-term and ephemeral keys.
    pub fn create() -> (r: Keys)
        ensures
            r.I.wf(),
            r.X.wf(),
    {
        Keys { I: KeyPair::create(), X: KeyPair::create() }
    }

    /// What a signer broadcasts: its long-term and its ephemeral public key.
    pub fn broadcast(keys: &Keys) -> (r: Vec<Point>)
        ensures
            r@ == seq![keys.I.public_key, keys.X.public_key],
    {
        let mut r: Vec<Point> = Vec::new();
        r.push(keys.I.public_key);
        r.push(keys.X.public_key);
        assert(r@ =~= seq![keys.I.public_key, keys.X.public_key]);
        r
    }

    /// The challenge that the signers' broadcasts determine: the hash of all
    /// their points, in the order given.
    pub fn collect_and_compute_challenge(ix_vec: &Vec<Vec<Point>>) -> (e: Scalar)
        ensures
            e@ == hash_value(concatenated(ix_vec@)),
    {
        let mut data: Vec<u8> = Vec::new();
        let mut i: usize = 0;
        assert(ix_vec@.take(0) =~= Seq::<Vec<Point>>::empty());
        while i < ix_vec.len()
            invariant
                i <= ix_vec.len(),
                data@ == concatenated(ix_vec@.take(i as int)),
            decreases ix_vec.len() - i,
        {
            let points = &ix_vec[i];
            let ghost before = data@;
            let ghost all = encodings(points@);
            let mut j: usize = 0;
            assert(all.take(0) =~= Seq::<Seq<u8>>::empty());
            while j < points.len()
                invariant
                    j <= points.len(),
                    all == encodings(points@),
                    data@ == before + joined(all.take(j as int)),
                decreases points.len() - j,
            {
                append_point(&mut data, &points[j]);
                proof {
                    assert(all.take(j + 1).drop_last() =~= all.take(j as int));
                    assert(all.take(j + 1).last() == points[j as int]@);
                    assert(data@ =~= before + joined(all.take(j + 1)));
                }
                j += 1;
            }
            proof {
                assert(all.take(j as int) =~= all);
                assert(ix_vec@.take(i + 1).drop_last() =~= ix_vec@.take(i as int));
                assert(ix_vec@.take(i + 1).last() == ix_vec@[i as int]);
            }
            i += 1;
        }
        assert(ix_vec@.take(i as int) =~= ix_vec@);
        hash_to_scalar(&data)
    }
}

/// A signer's part of the signature: `y_i = x_i + e · i_i`.
pub fn partial_sign(keys: &Keys, e: &Scalar) -> (y: Scalar)
    ensures
        y@ == (keys.X.private_key@ + e@ * keys.I.private_key@) % group_order(),
{
    let es = e.times(&keys.I.private_key);
    let y = keys.X.private_key.plus(&es);
    proof {
        lemma_add_mod_noop_right(
            keys.X.private_key@ as int,
            (e@ * keys.I.private_key@) as int,
            group_order() as int,
        );
    }
    y
}

/// Checks `G · y == X + e · I`: a signer's part against its keys, or the sum
/// of the parts against the sums of the keys.
#[allow(non_snake_case)]
pub fn verify(I: &Point, X: &Point, y: &Scalar, e: &Scalar) -> (r: Result<(), Error>)
    ensures
        r is Ok <==> part_valid(I@, X@, y@, e@),
        r matches Err(err) ==> err == Error::InvalidSig,
{
    let y_g = Point::generator().times(y);
    let e_i = I.times(e);
    let x_plus_e_i = X.plus(&e_i);
    if y_g.equals(&x_plus_e_i) {
        Ok(())
    } else {
        Err(Error::InvalidSig)
    }
}

impl EphKey {
    /// A fresh ephemeral key.
    pub fn gen_commit() -> (r: EphKey)
        ensures
            r.eph_key_pair.wf(),
    {
        EphKey { eph_key_pair: KeyPair::create() }
    }

    /// The sums `It` of the long-term and `Xt` of the ephemeral public keys
    /// and the challenge `e = H(It ‖ Xt ‖ m)`. There must be a key of each
    /// kind at least.
    pub fn compute_joint_comm_e(
        pub_key_vec: Vec<Point>,
        eph_pub_key_vec: Vec<Point>,
        message: &[u8],
    ) -> (r: Result<(Point, Point, Scalar), Error>)
        ensures
            r is Ok <==> pub_key_vec.len() >= 1 && eph_pub_key_vec.len() >= 1,
            r matches Err(e) ==> e == Error::InvalidParameters,
            r matches Ok(joint) ==> {
                &&& joint.0@ == point_sum(encodings(pub_key_vec@))
                &&& joint.1@ == point_sum(encodings(eph_pub_key_vec@))
                &&& joint.2@ == challenge_value(joint.0@, joint.1@, message@)
            },
    {
        if pub_key_vec.len() < 1 || eph_pub_key_vec.len() < 1 {
            return Err(Error::InvalidParameters);
        }
        let i_t = sum_points(&pub_key_vec);
        let x_t = sum_points(&eph_pub_key_vec);
        let e = challenge(&i_t, &x_t, message);
        Ok((i_t, x_t, e))
    }

    /// The sum of the signers' parts.
    pub fn add_signature_parts(sig_vec: &Vec<Scalar>) -> (y: Scalar)
        ensures
            y@ == scalar_sum(numbers(sig_vec@)),
    {
        sum_scalars(sig_vec)
    }
}

impl MT256 {
    /// The tree over the given points.
    pub fn create_tree(vec: &Vec<Point>) -> (tree: MT256)
        ensures
            tree.leaves@ == vec@,
    {
        let mut leaves: Vec<Point> = Vec::new();
        let mut i: usize = 0;
        while i < vec.len()
            invariant
                i <= vec.len(),
                leaves@ == vec@.subrange(0, i as int),
            decreases vec.len() - i,
        {
            leaves.push(vec[i]);
            assert(leaves@ =~= vec@.subrange(0, i + 1));
            i += 1;
        }
        assert(leaves@ =~= vec@);
        MT256 { leaves }
    }

    /// The proof that `value` is a leaf of the tree; `None` where it is none.
    pub fn gen_proof_for_ge(&self, value: &Point) -> (r: Option<Proof>)
        ensures
            r is Some == merkle_proof(encodings(self.leaves@), value@) is Some,
            r matches Some(p) ==> p.point == *value && (p.index, hashes(p.lemmas@))
                == merkle_proof(encodings(self.leaves@), value@)->0,
    {
        curv_merkle_proof(&self.leaves, value)
    }

    /// The root of the tree.
    pub fn get_root(&self) -> (root: Vec<u8>)
        ensures
            root@ == merkle_root(encodings(self.leaves@)),
    {
        curv_merkle_root(&self.leaves)
    }

    /// Whether the root and every hash of the proof are 32 bytes long.
    pub open spec fn well_sized(proof: Proof, root: Seq<u8>) -> bool {
        &&& root.len() == 32
        &&& forall|k: int| 0 <= k < proof.lemmas@.len() ==> (#[trigger] proof.lemmas@[k])@.len() == 32
    }

    /// Checks a proof against a root.
    pub fn validate_proof(proof: &Proof, root: &Vec<u8>) -> (r: Result<(), Error>)
        ensures
            r is Ok <==> Self::well_sized(*proof, root@) && merkle_proof_valid(
                proof.index,
                hashes(proof.lemmas@),
                proof.point@,
                root@,
            ),
            r matches Err(e) ==> e == Error::InvalidCommitment,
    {
        if root.len() != 32 {
            return Err(Error::InvalidCommitment);
        }
        let mut k: usize = 0;
        while k < proof.lemmas.len()
            invariant
                k <= proof.lemmas.len(),
                forall|q: int| 0 <= q < k ==> (#[trigger] proof.lemmas@[q])@.len() == 32,
            decreases proof.lemmas.len() - k,
        {
            if proof.lemmas[k].len() != 32 {
                return Err(Error::InvalidCommitment);
            }
            k += 1;
        }
        if curv_merkle_verify(proof, root) {
            Ok(())
        } else {
            Err(Error::InvalidCommitment)
        }
    }
}

} // verus!
