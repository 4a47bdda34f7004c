//! Feldman's verifiable secret sharing, as curv provides it: dealing, the check
//! of a share against the dealer's commitments, and reconstruction.
//!
//! The calls into curv hand scalars and points over by their bytes. What
//! `Scalar::to_bytes` and `Point::to_bytes` return is, by their contracts,
//! what curv reads back as a scalar and as a group element.

use crate::curve::{ec_mul, generator_encoding, Point, Scalar};
use curv::cryptographic_primitives::secret_sharing::feldman_vss::{
    ShamirSecretSharing as CurvParameters, VerifiableSS as CurvVss,
};
use curv::elliptic::curves::Point as CurvPoint;
use curv::elliptic::curves::Scalar as CurvScalar;
use curv::elliptic::curves::Secp256k1;
use vstd::prelude::*;

verus! {

/// Whether `point` is what the polynomial committed to by `commitments`
/// takes, in the exponent, at `index`.
pub uninterp spec fn vss_point_valid(commitments: Seq<Seq<u8>>, point: Seq<u8>, index: u16) -> bool;

/// The value at zero of the polynomial of least degree over the scalar field
/// that takes `values[i]` at `points[i]`.
pub uninterp spec fn lagrange_at_zero(points: Seq<nat>, values: Seq<nat>) -> nat;

/// The encodings of a sequence of points.
pub open spec fn encodings(points: Seq<Point>) -> Seq<Seq<u8>> {
    points.map_values(|p: Point| p@)
}

/// The numbers of a sequence of scalars.
pub open spec fn numbers(scalars: Seq<Scalar>) -> Seq<nat> {
    scalars.map_values(|s: Scalar| s@)
}

/// The evaluation points of a sequence of 0-based indices: each plus one.
pub open spec fn points_of(indices: Seq<u16>) -> Seq<nat> {
    indices.map_values(|i: u16| (i + 1) as nat)
}

/// Whether no value occurs twice in a sequence of indices.
pub open spec fn distinct(indices: Seq<u16>) -> bool {
    forall|i: int, j: int| 0 <= i < j < indices.len() ==> indices[i] != indices[j]
}

/// The parameters of a sharing: `threshold + 1` shares out of `share_count`
/// reconstruct the secret.
#[derive(Clone, Copy, Debug)]
pub struct ShamirSecretSharing {
    pub threshold: u16,
    pub share_count: u16,
}

/// A dealer's public commitments to the coefficients of its polynomial.
#[derive(Clone, Debug)]
pub struct VerifiableSS {
    pub parameters: ShamirSecretSharing,
    pub commitments: Vec<Point>,
}

/// What a sharing says: its parameters and the encodings of its commitments.
pub struct VssView {
    pub threshold: u16,
    pub share_count: u16,
    pub commitments: Seq<Seq<u8>>,
}

impl View for VerifiableSS {
    type V = VssView;

    open spec fn view(&self) -> VssView {
        VssView {
            threshold: self.parameters.threshold,
            share_count: self.parameters.share_count,
            commitments: encodings(self.commitments@),
        }
    }
}

/// Calls `VerifiableSS::share_at_indices` of curv, which draws `t` random
/// coefficients above the secret. Whatever the draw, the commitments are
/// `G` times the `t + 1` coefficients, the first of which is the secret, and
/// share `j` is the polynomial's value at `indices[j]`: the share that
/// `validate_share` accepts at that index.
#[verifier::external_body]
fn curv_share_at_indices(t: u16, n: u16, secret: &Scalar, indices: &Vec<u16>) -> (r: (
    VerifiableSS,
    Vec<Scalar>,
))
    requires
        indices.len() == n,
    ensures
        r.0.parameters.threshold == t,
        r.0.parameters.share_count == n,
        r.0.commitments.len() == t + 1,
        r.0.commitments[0]@ == ec_mul(generator_encoding(), secret@),
        r.1.len() == n,
        forall|j: int|
            0 <= j < n ==> share_valid(
                encodings(r.0.commitments@),
                (#[trigger] r.1[j])@,
                indices[j],
            ),
{
    let s = CurvScalar::<Secp256k1>::from_bytes(&secret.to_bytes()).unwrap();
    let (vss, shares) = CurvVss::<Secp256k1>::share_at_indices(t, n, &s, indices);
    let commitments = vss.commitments.iter().map(
        |c| Point::from_bytes((*c.to_bytes(true)).try_into().unwrap()).unwrap(),
    ).collect();
    let shares = shares.iter().map(
        |x| Scalar::from_bytes((*x.to_bytes()).try_into().unwrap()).unwrap(),
    ).collect();
    let parameters = ShamirSecretSharing { threshold: t, share_count: n };
    (VerifiableSS { parameters, commitments }, shares)
}

/// Calls `VerifiableSS::validate_share_public` of curv and says whether it
/// returned `Ok`. It needs one commitment at least.
#[verifier::external_body]
fn curv_validate_share_public(vss: &VerifiableSS, point: &Point, index: u16) -> (ok: bool)
    requires
        vss.commitments.len() > 0,
    ensures
        ok == vss_point_valid(encodings(vss.commitments@), point@, index),
{
    let commitments = vss.commitments.iter().map(
        |c| CurvPoint::from_bytes(&c.to_bytes()).unwrap(),
    ).collect();
    let threshold = vss.parameters.threshold;
    let parameters = CurvParameters { threshold, share_count: vss.parameters.share_count };
    let p = CurvPoint::<Secp256k1>::from_bytes(&point.to_bytes()).unwrap();
    CurvVss::<Secp256k1> { parameters, commitments }.validate_share_public(&p, index).is_ok()
}

/// Calls `VerifiableSS::validate_share` of curv and says whether it returned
/// `Ok`: it checks the point `G · share` as `validate_share_public` does.
#[verifier::external_body]
fn curv_validate_share(vss: &VerifiableSS, share: &Scalar, index: u16) -> (ok: bool)
    requires
        vss.commitments.len() > 0,
    ensures
        ok == vss_point_valid(
            encodings(vss.commitments@),
            ec_mul(generator_encoding(), share@),
            index,
        ),
{
    let commitments = vss.commitments.iter().map(
        |c| CurvPoint::from_bytes(&c.to_bytes()).unwrap(),
    ).collect();
    let threshold = vss.parameters.threshold;
    let parameters = CurvParameters { threshold, share_count: vss.parameters.share_count };
    let s = CurvScalar::<Secp256k1>::from_bytes(&share.to_bytes()).unwrap();
    CurvVss::<Secp256k1> { parameters, commitments }.validate_share(&s, index).is_ok()
}

/// Calls `VerifiableSS::reconstruct` of curv: the Lagrange interpolation at
/// zero through the given shares, share `i` lying at the point
/// `indices[i] + 1`. It needs as many indices as shares, more shares than the
/// threshold, a threshold and indices below the largest that 16 bits hold,
/// and points that differ from each other.
#[verifier::external_body]
fn curv_reconstruct(vss: &VerifiableSS, indices: &Vec<u16>, shares: &Vec<Scalar>) -> (r: Scalar)
    requires
        shares.len() == indices.len(),
        vss.parameters.threshold < u16::MAX,
        shares.len() >= vss.parameters.threshold + 1,
        forall|i: int| 0 <= i < indices.len() ==> indices[i] < u16::MAX,
        distinct(indices@),
    ensures
        r@ == lagrange_at_zero(points_of(indices@), numbers(shares@)),
{
    let commitments = vss.commitments.iter().map(
        |c| CurvPoint::from_bytes(&c.to_bytes()).unwrap(),
    ).collect();
    let threshold = vss.parameters.threshold;
    let parameters = CurvParameters { threshold, share_count: vss.parameters.share_count };
    let shares: Vec<_> = shares.iter().map(
        |x| CurvScalar::<Secp256k1>::from_bytes(&x.to_bytes()).unwrap(),
    ).collect();
    let sigma = CurvVss::<Secp256k1> { parameters, commitments }.reconstruct(indices, &shares);
    Scalar::from_bytes((*sigma.to_bytes()).try_into().unwrap()).unwrap()
}

impl VerifiableSS {
    /// The encodings of the commitments.
    pub open spec fn commitment_encodings(self) -> Seq<Seq<u8>> {
        encodings(self.commitments@)
    }

    /// Deals `secret` with a fresh random polynomial of degree `t`; share `j`
    /// is the polynomial's value at `indices[j]`.
    pub fn share_at_indices(t: u16, n: u16, secret: &Scalar, indices: &Vec<u16>) -> (r: (
        VerifiableSS,
        Vec<Scalar>,
    ))
        requires
            indices.len() == n,
        ensures
            r.0.parameters.threshold == t,
            r.0.parameters.share_count == n,
            r.0.commitments.len() == t + 1,
            r.0.commitments[0]@ == ec_mul(generator_encoding(), secret@),
            r.1.len() == n,
            forall|j: int|
                0 <= j < n ==> share_valid(
                    r.0.commitment_encodings(),
                    (#[trigger] r.1[j])@,
                    indices[j],
                ),
    {
        curv_share_at_indices(t, n, secret, indices)
    }

    /// Whether `share` is the value at `index` of the committed polynomial.
    pub fn validate_share(&self, share: &Scalar, index: u16) -> (ok: bool)
        requires
            self.commitments.len() > 0,
        ensures
            ok == share_valid(self.commitment_encodings(), share@, index),
    {
        curv_validate_share(self, share, index)
    }

    /// Whether `point` is `G` times the value at `index` of the committed
    /// polynomial.
    pub fn validate_share_public(&self, point: &Point, index: u16) -> (ok: bool)
        requires
            self.commitments.len() > 0,
        ensures
            ok == vss_point_valid(self.commitment_encodings(), point@, index),
    {
        curv_validate_share_public(self, point, index)
    }

    /// The secret that the shares of the parties `indices` (0-based)
    /// interpolate to.
    pub fn reconstruct(&self, indices: &Vec<u16>, shares: &Vec<Scalar>) -> (r: Scalar)
        requires
            shares.len() == indices.len(),
            self.parameters.threshold < u16::MAX,
            shares.len() >= self.parameters.threshold + 1,
            forall|i: int| 0 <= i < indices.len() ==> indices[i] < u16::MAX,
            distinct(indices@),
        ensures
            r@ == lagrange_at_zero(points_of(indices@), numbers(shares@)),
    {
        curv_reconstruct(self, indices, shares)
    }

    /// A copy of the sharing.
    pub fn copy(&self) -> (r: VerifiableSS)
        ensures
            r.parameters == self.parameters,
            r.commitments@ == self.commitments@,
            r@ == self@,
    {
        let mut commitments: Vec<Point> = Vec::new();
        let mut i: usize = 0;
        while i < self.commitments.len()
            invariant
                i <= self.commitments.len(),
                commitments@ == self.commitments@.subrange(0, i as int),
            decreases self.commitments.len() - i,
        {
            commitments.push(self.commitments[i]);
            assert(commitments@ =~= self.commitments@.subrange(0, i + 1));
            i += 1;
        }
        assert(commitments@ =~= self.commitments@);
        VerifiableSS { parameters: self.parameters, commitments }
    }
}

/// Whether the scalar `share` is the value at `index` of the polynomial
/// committed to by `commitments`.
pub open spec fn share_valid(commitments: Seq<Seq<u8>>, share: nat, index: u16) -> bool {
    vss_point_valid(commitments, ec_mul(generator_encoding(), share), index)
}

} // verus!
