//! What a single party computes: its key pair, the commitment to it, the
//! dealing and checking of shares, its local signature and the assembly and
//! verification of the joint signature.

use crate::curve::{ec_add, ec_mul, generator_encoding, group_order, Point, Scalar};
use crate::error::Error;
use crate::hashing::{
    challenge, challenge_value, commit, commitment_to, same_bytes, sample_blinding,
};
use crate::vss::{
    distinct, encodings, lagrange_at_zero, numbers, points_of, share_valid, vss_point_valid,
    VerifiableSS,
};
use vstd::arithmetic::div_mod::lemma_add_mod_noop_right;
use vstd::prelude::*;

verus! {

/// A party's contribution to the joint key: the secret `u_i` and the public
/// `y_i = G · u_i`.
#[derive(Clone, Copy, Debug)]
pub struct Keys {
    pub u_i: Scalar,
    pub y_i: Point,
    /// The party's 0-based index.
    pub party_index: usize,
}

/// The hash commitment to a party's public contribution.
#[derive(Clone, Debug)]
pub struct KeyGenBroadcastMessage1 {
    pub com: Vec<u8>,
}

impl View for KeyGenBroadcastMessage1 {
    type V = Seq<u8>;

    open spec fn view(&self) -> Seq<u8> {
        self.com@
    }
}

/// The threshold `t` and the number of shares `n`: any `t + 1` of the `n`
/// parties can sign.
#[derive(Clone, Copy, Debug)]
pub struct Parameters {
    pub threshold: u16,
    pub share_count: u16,
}

/// A party's share `x_i` of a jointly held secret and the public point `y`
/// that belongs to the secret.
#[derive(Clone, Copy, Debug)]
pub struct SharedKeys {
    pub y: Point,
    pub x_i: Scalar,
}

/// A party's share of a signature: `gamma_i = r_i + e · x_i`.
#[derive(Clone, Copy, Debug)]
pub struct LocalSig {
    pub gamma_i: Scalar,
    pub e: Scalar,
}

/// A Schnorr signature: the nonce point `v` and the scalar `sigma`.
#[derive(Clone, Copy, Debug)]
pub struct Signature {
    pub sigma: Scalar,
    pub v: Point,
}

/// The sum of a non-empty sequence of encoded points, taken from the left.
pub open spec fn point_sum(points: Seq<Seq<u8>>) -> Seq<u8>
    decreases points.len(),
{
    if points.len() <= 1 {
        points[0]
    } else {
        ec_add(point_sum(points.drop_last()), points.last())
    }
}

/// The sum of a sequence of numbers.
pub open spec fn total(numbers: Seq<nat>) -> nat
    decreases numbers.len(),
{
    if numbers.len() == 0 {
        0
    } else {
        total(numbers.drop_last()) + numbers.last()
    }
}

/// The sum of a sequence of scalars: the sum of their numbers modulo the
/// group order.
pub open spec fn scalar_sum(numbers: Seq<nat>) -> nat {
    total(numbers) % group_order()
}

/// Whether every index is a party's 1-based index that fits 16 bits, and
/// none occurs twice.
pub open spec fn indices_valid(parties: Seq<usize>) -> bool {
    &&& forall|i: int| 0 <= i < parties.len() ==> 1 <= #[trigger] parties[i] <= 0xFFFF
    &&& forall|i: int, j: int| 0 <= i < j < parties.len() ==> parties[i] != parties[j]
}

/// Whether every decommitment opens the commitment that came with it.
pub open spec fn openings_match(
    comms: Seq<KeyGenBroadcastMessage1>,
    ys: Seq<Point>,
    blinds: Seq<Vec<u8>>,
) -> bool {
    forall|j: int|
        0 <= j < comms.len() ==> (#[trigger] comms[j]).com@ == commitment_to(ys[j]@, blinds[j]@)
}

/// What `Keys::phase1_verify_com_phase2_distribute` asks of its inputs.
pub open spec fn distribute_inputs_valid(
    params: Parameters,
    blinds: Seq<Vec<u8>>,
    ys: Seq<Point>,
    comms: Seq<KeyGenBroadcastMessage1>,
    parties: Seq<usize>,
) -> bool {
    &&& blinds.len() == params.share_count
    &&& ys.len() == params.share_count
    &&& comms.len() == params.share_count
    &&& parties.len() == params.share_count
    &&& params.threshold < params.share_count
    &&& indices_valid(parties)
}

/// What `Keys::phase2_verify_vss_construct_keypair` asks of its inputs.
pub open spec fn construct_inputs_valid(
    params: Parameters,
    ys: Seq<Point>,
    shares: Seq<Scalar>,
    schemes: Seq<VerifiableSS>,
    index: usize,
) -> bool {
    &&& params.share_count >= 1
    &&& ys.len() == params.share_count
    &&& shares.len() == params.share_count
    &&& schemes.len() == params.share_count
    &&& 1 <= index <= 0xFFFF
    &&& forall|j: int| 0 <= j < schemes.len() ==> (#[trigger] schemes[j]).commitments.len() >= 1
}

/// Whether every received share lies on its dealer's committed polynomial at
/// `index`, and every dealer's constant commitment is its public
/// contribution.
pub open spec fn shares_match(
    ys: Seq<Point>,
    shares: Seq<Scalar>,
    schemes: Seq<VerifiableSS>,
    index: u16,
) -> bool {
    forall|j: int|
        0 <= j < schemes.len() ==> {
            &&& share_valid((#[trigger] schemes[j]).commitment_encodings(), shares[j]@, index)
            &&& schemes[j].commitments[0]@ == ys[j]@
        }
}

/// The Schnorr equation `G · sigma == R + e · Y` with `e = H(R ‖ Y ‖ m)`.
pub open spec fn signature_valid(y: Seq<u8>, r: Seq<u8>, sigma: nat, message: Seq<u8>) -> bool {
    ec_mul(generator_encoding(), sigma) == ec_add(r, ec_mul(y, challenge_value(r, y, message)))
}

/// The commitment to coefficient `i` of the polynomial that the local
/// signatures lie on: the dealers' long-term commitments to coefficient `i`,
/// each times the challenge `e`, and then their ephemeral ones, added up.
pub open spec fn joint_commitment(
    i: int,
    e: nat,
    long_term: Seq<VerifiableSS>,
    ephemeral: Seq<VerifiableSS>,
) -> Seq<u8> {
    point_sum(
        Seq::new(long_term.len(), |j: int| ec_mul(long_term[j].commitments[i]@, e)) + Seq::new(
            ephemeral.len(),
            |j: int| ephemeral[j].commitments[i]@,
        ),
    )
}

/// The commitments to the coefficients `0..=t`, the one to coefficient `i`
/// taken with the challenge of local signature `i`.
pub open spec fn joint_commitments(
    sigs: Seq<LocalSig>,
    long_term: Seq<VerifiableSS>,
    ephemeral: Seq<VerifiableSS>,
    t: u16,
) -> Seq<Seq<u8>> {
    Seq::new((t + 1) as nat, |i: int| joint_commitment(i, sigs[i].e@, long_term, ephemeral))
}

/// What `LocalSig::verify_local_sigs` asks of its inputs: a dealing of each
/// kind at least, more signers than the threshold of the first long-term
/// dealing, one local signature for each signer, every dealing with a
/// commitment to each coefficient up to the threshold, and 0-based signer
/// indices whose points fit 16 bits.
pub open spec fn local_sigs_inputs_valid(
    sigs: Seq<LocalSig>,
    parties: Seq<usize>,
    long_term: Seq<VerifiableSS>,
    ephemeral: Seq<VerifiableSS>,
) -> bool {
    &&& long_term.len() >= 1
    &&& ephemeral.len() >= 1
    &&& parties.len() > long_term[0].parameters.threshold
    &&& sigs.len() == parties.len()
    &&& forall|j: int|
        0 <= j < long_term.len() ==> (#[trigger] long_term[j]).commitments.len()
            > long_term[0].parameters.threshold
    &&& forall|j: int|
        0 <= j < ephemeral.len() ==> (#[trigger] ephemeral[j]).commitments.len()
            > long_term[0].parameters.threshold
    &&& forall|i: int| 0 <= i < parties.len() ==> #[trigger] parties[i] < 0xFFFF
}

/// Whether every signer's `G · gamma_i` is what the jointly committed
/// polynomial takes at the signer's point.
pub open spec fn local_sigs_match(
    sigs: Seq<LocalSig>,
    parties: Seq<usize>,
    joint: Seq<Seq<u8>>,
) -> bool {
    forall|i: int|
        0 <= i < parties.len() ==> vss_point_valid(
            joint,
            ec_mul(generator_encoding(), (#[trigger] sigs[i]).gamma_i@),
            (parties[i] + 1) as u16,
        )
}

/// What `Signature::generate` asks of its inputs when the threshold is `t`:
/// `t + 1` fits 16 bits, there are at least `t + 1` signers and a local
/// signature for each, and among the first `t + 1` signer indices (0-based)
/// none occurs twice and none has a point that does not fit 16 bits.
pub open spec fn generate_inputs_valid(t: u16, sigs: Seq<LocalSig>, parties: Seq<usize>) -> bool {
    &&& t < 0xFFFF
    &&& parties.len() >= t + 1
    &&& sigs.len() >= parties.len()
    &&& forall|i: int| 0 <= i <= t ==> #[trigger] parties[i] < 0xFFFF
    &&& forall|i: int, j: int| 0 <= i < j <= t ==> parties[i] != parties[j]
}

/// The scalar that the first `t + 1` local signatures interpolate to at
/// zero, signer `i` lying at the point `parties[i] + 1`.
pub open spec fn interpolated_sigma(t: u16, sigs: Seq<LocalSig>, parties: Seq<usize>) -> nat {
    lagrange_at_zero(
        Seq::new((t + 1) as nat, |i: int| (parties[i] + 1) as nat),
        Seq::new((t + 1) as nat, |i: int| sigs[i].gamma_i@),
    )
}

/// Converts 1-based party indices to 16 bits; `None` where one is zero or
/// does not fit.
fn narrow_indices(parties: &Vec<usize>) -> (r: Option<Vec<u16>>)
    ensures
        r.is_some() == (forall|i: int|
            0 <= i < parties.len() ==> 1 <= #[trigger] parties[i] <= 0xFFFF),
        r matches Some(v) ==> v.len() == parties.len() && forall|i: int|
            0 <= i < v.len() ==> #[trigger] v[i] == parties[i],
{
    let mut v: Vec<u16> = Vec::new();
    let mut i: usize = 0;
    while i < parties.len()
        invariant
            i <= parties.len(),
            v.len() == i,
            forall|k: int| 0 <= k < i ==> 1 <= #[trigger] parties[k] <= 0xFFFF,
            forall|k: int| 0 <= k < i ==> #[trigger] v[k] == parties[k],
        decreases parties.len() - i,
    {
        let p = parties[i];
        if p < 1 || p > 0xFFFF {
            return None;
        }
        v.push(p as u16);
        i += 1;
    }
    Some(v)
}

/// Whether no index occurs twice.
fn all_distinct(v: &Vec<u16>) -> (r: bool)
    ensures
        r == distinct(v@),
{
    let mut j: usize = 0;
    while j < v.len()
        invariant
            j <= v.len(),
            forall|a: int, b: int| 0 <= a < b < j ==> v[a] != v[b],
        decreases v.len() - j,
    {
        let mut i: usize = 0;
        while i < j
            invariant
                i <= j < v.len(),
                forall|a: int| 0 <= a < i ==> v[a] != v[j as int],
            decreases j - i,
        {
            if v[i] == v[j] {
                return false;
            }
            i += 1;
        }
        j += 1;
    }
    true
}

impl Keys {
    /// Whether the public contribution belongs to the secret one.
    pub open spec fn wf(self) -> bool {
        self.y_i@ == ec_mul(generator_encoding(), self.u_i@)
    }

    /// Draws a fresh secret `u_i` and computes `y_i = G · u_i`.
    pub fn phase1_create(index: usize) -> (keys: Keys)
        ensures
            keys.party_index == index,
            keys.wf(),
            0 < keys.u_i@ < group_order(),
    {
        let u = Scalar::random();
        let y = Point::generator().times(&u);
        Keys { u_i: u, y_i: y, party_index: index }
    }

    /// Commits to `y_i` under a fresh blinding factor and returns the
    /// commitment with the factor that opens it.
    pub fn phase1_broadcast(&self) -> (r: (KeyGenBroadcastMessage1, Vec<u8>))
        ensures
            r.0.com@ == commitment_to(self.y_i@, r.1@),
    {
        let blind_factor = sample_blinding();
        let com = commit(&self.y_i, &blind_factor);
        (KeyGenBroadcastMessage1 { com }, blind_factor)
    }

    /// Checks that every party's decommitment opens its commitment, then
    /// deals this party's secret among `parties` with a fresh polynomial of
    /// degree `params.threshold`.
    pub fn phase1_verify_com_phase2_distribute(
        &self,
        params: &Parameters,
        blind_vec: &Vec<Vec<u8>>,
        y_vec: &Vec<Point>,
        bc1_vec: &Vec<KeyGenBroadcastMessage1>,
        parties: &Vec<usize>,
    ) -> (r: Result<(VerifiableSS, Vec<Scalar>, usize), Error>)
        ensures
            r is Ok <==> distribute_inputs_valid(*params, blind_vec@, y_vec@, bc1_vec@, parties@)
                && openings_match(bc1_vec@, y_vec@, blind_vec@),
            r matches Err(e) ==> e == (if distribute_inputs_valid(
                *params,
                blind_vec@,
                y_vec@,
                bc1_vec@,
                parties@,
            ) {
                Error::InvalidCommitment
            } else {
                Error::InvalidParameters
            }),
            r matches Ok(dealt) ==> {
                &&& dealt.2 == self.party_index
                &&& dealt.0.parameters.threshold == params.threshold
                &&& dealt.0.parameters.share_count == params.share_count
                &&& dealt.0.commitments.len() == params.threshold + 1
                &&& dealt.0.commitments[0]@ == ec_mul(generator_encoding(), self.u_i@)
                &&& dealt.1.len() == params.share_count
                &&& forall|j: int|
                    0 <= j < dealt.1.len() ==> share_valid(
                        dealt.0.commitment_encodings(),
                        (#[trigger] dealt.1[j])@,
                        parties[j] as u16,
                    )
            },
    {
        let n = params.share_count as usize;
        if blind_vec.len() != n || y_vec.len() != n || bc1_vec.len() != n || parties.len() != n
            || params.threshold >= params.share_count {
            return Err(Error::InvalidParameters);
        }
        let indices = match narrow_indices(parties) {
            Some(v) => v,
            None => {
                return Err(Error::InvalidParameters);
            },
        };
        if !all_distinct(&indices) {
            assert(!indices_valid(parties@)) by {
                if indices_valid(parties@) {
                    assert forall|i: int, j: int| 0 <= i < j < indices.len() implies indices[i]
                        != indices[j] by {
                        assert(indices[i] == parties[i]);
                        assert(indices[j] == parties[j]);
                    }
                }
            }
            return Err(Error::InvalidParameters);
        }
        assert(indices_valid(parties@)) by {
            assert forall|i: int, j: int| 0 <= i < j < parties.len() implies parties[i]
                != parties[j] by {
                assert(indices[i] == parties[i]);
                assert(indices[j] == parties[j]);
            }
        }
        let mut j: usize = 0;
        while j < n
            invariant
                j <= n,
                n == bc1_vec.len(),
                n == y_vec.len(),
                n == blind_vec.len(),
                distribute_inputs_valid(*params, blind_vec@, y_vec@, bc1_vec@, parties@),
                forall|k: int|
                    0 <= k < j ==> (#[trigger] bc1_vec[k]).com@ == commitment_to(
                        y_vec[k]@,
                        blind_vec[k]@,
                    ),
            decreases n - j,
        {
            let expected = commit(&y_vec[j], &blind_vec[j]);
            if !same_bytes(&expected, &bc1_vec[j].com) {
                return Err(Error::InvalidCommitment);
            }
            j += 1;
        }
        let (vss_scheme, secret_shares) = VerifiableSS::share_at_indices(
            params.threshold,
            params.share_count,
            &self.u_i,
            &indices,
        );
        Ok((vss_scheme, secret_shares, self.party_index))
    }

    /// Checks every received share against its dealer's commitments at this
    /// party's point `index` (1-based), then adds the shares up to this
    /// party's share `x_i` of the joint secret and the public contributions
    /// to the joint public key `y`.
    pub fn phase2_verify_vss_construct_keypair(
        &self,
        params: &Parameters,
        y_vec: &Vec<Point>,
        secret_shares_vec: &Vec<Scalar>,
        vss_scheme_vec: &Vec<VerifiableSS>,
        index: &usize,
    ) -> (r: Result<SharedKeys, Error>)
        ensures
            r is Ok <==> construct_inputs_valid(
                *params,
                y_vec@,
                secret_shares_vec@,
                vss_scheme_vec@,
                *index,
            ) && shares_match(y_vec@, secret_shares_vec@, vss_scheme_vec@, *index as u16),
            r matches Err(e) ==> e == (if construct_inputs_valid(
                *params,
                y_vec@,
                secret_shares_vec@,
                vss_scheme_vec@,
                *index,
            ) {
                Error::InvalidSS
            } else {
                Error::InvalidParameters
            }),
            r matches Ok(keys) ==> {
                &&& keys.y@ == point_sum(encodings(y_vec@))
                &&& keys.x_i@ == scalar_sum(numbers(secret_shares_vec@))
            },
    {
        let n = params.share_count as usize;
        if n < 1 || y_vec.len() != n || secret_shares_vec.len() != n || vss_scheme_vec.len() != n
            || *index < 1 || *index > 0xFFFF {
            return Err(Error::InvalidParameters);
        }
        let point = *index as u16;
        let mut j: usize = 0;
        while j < n
            invariant
                j <= n,
                n == vss_scheme_vec.len(),
                forall|k: int|
                    0 <= k < j ==> (#[trigger] vss_scheme_vec[k]).commitments.len() >= 1,
            decreases n - j,
        {
            if vss_scheme_vec[j].commitments.len() < 1 {
                return Err(Error::InvalidParameters);
            }
            j += 1;
        }
        j = 0;
        while j < n
            invariant
                j <= n,
                n == vss_scheme_vec.len(),
                n == y_vec.len(),
                n == secret_shares_vec.len(),
                point == *index,
                construct_inputs_valid(
                    *params,
                    y_vec@,
                    secret_shares_vec@,
                    vss_scheme_vec@,
                    *index,
                ),
                forall|k: int|
                    0 <= k < j ==> {
                        &&& share_valid(
                            (#[trigger] vss_scheme_vec[k]).commitment_encodings(),
                            secret_shares_vec[k]@,
                            point,
                        )
                        &&& vss_scheme_vec[k].commitments[0]@ == y_vec[k]@
                    },
            decreases n - j,
        {
            let scheme = &vss_scheme_vec[j];
            if !scheme.validate_share(&secret_shares_vec[j], point) || !scheme.commitments[0].equals(
                &y_vec[j],
            ) {
                return Err(Error::InvalidSS);
            }
            j += 1;
        }
        let y = sum_points(y_vec);
        let x_i = sum_scalars(secret_shares_vec);
        Ok(SharedKeys { y, x_i })
    }
}

/// Adds up a non-empty sequence of points, from the left.
pub fn sum_points(points: &Vec<Point>) -> (r: Point)
    requires
        points.len() >= 1,
    ensures
        r@ == point_sum(encodings(points@)),
{
    let ghost all = encodings(points@);
    let mut acc = points[0];
    assert(all.take(1) =~= seq![points[0]@]);
    let mut k: usize = 1;
    while k < points.len()
        invariant
            1 <= k <= points.len(),
            all == encodings(points@),
            acc@ == point_sum(all.take(k as int)),
        decreases points.len() - k,
    {
        acc = acc.plus(&points[k]);
        assert(all.take(k + 1).drop_last() =~= all.take(k as int));
        assert(all.take(k + 1).last() == points[k as int]@);
        k += 1;
    }
    assert(all.take(k as int) =~= all);
    acc
}

/// Adds up a sequence of scalars.
pub fn sum_scalars(scalars: &Vec<Scalar>) -> (r: Scalar)
    ensures
        r@ == scalar_sum(numbers(scalars@)),
{
    let ghost all = numbers(scalars@);
    let mut acc = Scalar::zero();
    assert(total(all.take(0)) == 0);
    let mut k: usize = 0;
    while k < scalars.len()
        invariant
            k <= scalars.len(),
            all == numbers(scalars@),
            acc@ == total(all.take(k as int)) % group_order(),
        decreases scalars.len() - k,
    {
        let ghost before = acc@;
        acc = scalars[k].plus(&acc);
        proof {
            assert(all.take(k + 1).drop_last() =~= all.take(k as int));
            assert(all.take(k + 1).last() == scalars[k as int]@);
            lemma_add_mod_noop_right(
                scalars[k as int]@ as int,
                total(all.take(k as int)) as int,
                group_order() as int,
            );
        }
        k += 1;
    }
    assert(all.take(k as int) =~= all);
    acc
}

impl LocalSig {
    /// Computes this party's share of the signature on `message`: the
    /// challenge `e = H(R ‖ Y ‖ m)` and `gamma_i = r_i + e · x_i`, where
    /// `(r_i, R)` are the ephemeral and `(x_i, Y)` the long-term shared keys.
    pub fn compute(
        message: &[u8],
        local_ephemeral_key: &SharedKeys,
        local_private_key: &SharedKeys,
    ) -> (sig: LocalSig)
        ensures
            sig.e@ == challenge_value(local_ephemeral_key.y@, local_private_key.y@, message@),
            sig.gamma_i@ == (local_ephemeral_key.x_i@ + sig.e@ * local_private_key.x_i@)
                % group_order(),
    {
        let e = challenge(&local_ephemeral_key.y, &local_private_key.y, message);
        let e_x = e.times(&local_private_key.x_i);
        let gamma_i = local_ephemeral_key.x_i.plus(&e_x);
        proof {
            lemma_add_mod_noop_right(
                local_ephemeral_key.x_i@ as int,
                (e@ * local_private_key.x_i@) as int,
                group_order() as int,
            );
        }
        LocalSig { gamma_i, e }
    }
}

impl LocalSig {
    /// Checks the signers' local signatures against the dealers' long-term
    /// and ephemeral commitments and returns the joint commitments, which the
    /// signature is reconstructed under. `parties_index_vec` holds the
    /// signers' 0-based indices.
    pub fn verify_local_sigs(
        gamma_vec: &Vec<LocalSig>,
        parties_index_vec: &Vec<usize>,
        vss_private_keys: &Vec<VerifiableSS>,
        vss_ephemeral_keys: &Vec<VerifiableSS>,
    ) -> (r: Result<VerifiableSS, Error>)
        ensures
            r is Ok <==> local_sigs_inputs_valid(
                gamma_vec@,
                parties_index_vec@,
                vss_private_keys@,
                vss_ephemeral_keys@,
            ) && local_sigs_match(
                gamma_vec@,
                parties_index_vec@,
                joint_commitments(
                    gamma_vec@,
                    vss_private_keys@,
                    vss_ephemeral_keys@,
                    vss_private_keys[0].parameters.threshold,
                ),
            ),
            r matches Err(e) ==> e == (if local_sigs_inputs_valid(
                gamma_vec@,
                parties_index_vec@,
                vss_private_keys@,
                vss_ephemeral_keys@,
            ) {
                Error::InvalidSS
            } else {
                Error::InvalidParameters
            }),
            r matches Ok(vss_sum) ==> {
                &&& vss_sum.parameters == vss_ephemeral_keys[0].parameters
                &&& vss_sum.commitment_encodings() == joint_commitments(
                    gamma_vec@,
                    vss_private_keys@,
                    vss_ephemeral_keys@,
                    vss_private_keys[0].parameters.threshold,
                )
            },
    {
        if vss_private_keys.len() < 1 || vss_ephemeral_keys.len() < 1 {
            return Err(Error::InvalidParameters);
        }
        let t = vss_private_keys[0].parameters.threshold;
        let limit = t as usize + 1;
        if parties_index_vec.len() < limit || gamma_vec.len() != parties_index_vec.len() {
            return Err(Error::InvalidParameters);
        }
        if !enough_commitments(vss_private_keys, limit) || !enough_commitments(
            vss_ephemeral_keys,
            limit,
        ) {
            return Err(Error::InvalidParameters);
        }
        let mut i: usize = 0;
        while i < parties_index_vec.len()
            invariant
                i <= parties_index_vec.len(),
                forall|k: int| 0 <= k < i ==> #[trigger] parties_index_vec[k] < 0xFFFF,
            decreases parties_index_vec.len() - i,
        {
            if parties_index_vec[i] >= 0xFFFF {
                return Err(Error::InvalidParameters);
            }
            i += 1;
        }
        assert(local_sigs_inputs_valid(
            gamma_vec@,
            parties_index_vec@,
            vss_private_keys@,
            vss_ephemeral_keys@,
        ));
        let ghost joint = joint_commitments(
            gamma_vec@,
            vss_private_keys@,
            vss_ephemeral_keys@,
            t,
        );
        let mut comm_vec: Vec<Point> = Vec::new();
        i = 0;
        while i < limit
            invariant
                i <= limit,
                limit == t + 1,
                limit <= gamma_vec.len(),
                vss_private_keys.len() >= 1,
                vss_ephemeral_keys.len() >= 1,
                forall|j: int|
                    0 <= j < vss_private_keys.len() ==> (
                    #[trigger] vss_private_keys[j]).commitments.len() >= limit,
                forall|j: int|
                    0 <= j < vss_ephemeral_keys.len() ==> (
                    #[trigger] vss_ephemeral_keys[j]).commitments.len() >= limit,
                joint == joint_commitments(
                    gamma_vec@,
                    vss_private_keys@,
                    vss_ephemeral_keys@,
                    t,
                ),
                comm_vec.len() == i,
                forall|k: int| 0 <= k < i ==> (#[trigger] comm_vec[k])@ == joint[k],
            decreases limit - i,
        {
            let c = sum_column(i, &gamma_vec[i].e, vss_private_keys, vss_ephemeral_keys);
            comm_vec.push(c);
            i += 1;
        }
        let vss_sum = VerifiableSS {
            parameters: vss_ephemeral_keys[0].parameters,
            commitments: comm_vec,
        };
        assert(vss_sum.commitment_encodings() =~= joint);
        let g = Point::generator();
        i = 0;
        while i < parties_index_vec.len()
            invariant
                i <= parties_index_vec.len(),
                gamma_vec.len() == parties_index_vec.len(),
                vss_sum.commitments.len() >= 1,
                vss_sum.commitment_encodings() == joint,
                g@ == generator_encoding(),
                t == vss_private_keys[0].parameters.threshold,
                joint == joint_commitments(
                    gamma_vec@,
                    vss_private_keys@,
                    vss_ephemeral_keys@,
                    t,
                ),
                local_sigs_inputs_valid(
                    gamma_vec@,
                    parties_index_vec@,
                    vss_private_keys@,
                    vss_ephemeral_keys@,
                ),
                forall|k: int| 0 <= k < parties_index_vec.len() ==> #[trigger] parties_index_vec[k] < 0xFFFF,
                forall|k: int|
                    0 <= k < i ==> vss_point_valid(
                        joint,
                        ec_mul(generator_encoding(), (#[trigger] gamma_vec[k]).gamma_i@),
                        (parties_index_vec[k] + 1) as u16,
                    ),
            decreases parties_index_vec.len() - i,
        {
            let gamma_i_g = g.times(&gamma_vec[i].gamma_i);
            let point = (parties_index_vec[i] + 1) as u16;
            if !vss_sum.validate_share_public(&gamma_i_g, point) {
                return Err(Error::InvalidSS);
            }
            i += 1;
        }
        Ok(vss_sum)
    }
}

/// Whether every dealing commits to `limit` coefficients at least.
fn enough_commitments(schemes: &Vec<VerifiableSS>, limit: usize) -> (r: bool)
    ensures
        r == forall|j: int|
            0 <= j < schemes.len() ==> (#[trigger] schemes[j]).commitments.len() >= limit,
{
    let mut j: usize = 0;
    while j < schemes.len()
        invariant
            j <= schemes.len(),
            forall|k: int| 0 <= k < j ==> (#[trigger] schemes[k]).commitments.len() >= limit,
        decreases schemes.len() - j,
    {
        if schemes[j].commitments.len() < limit {
            return false;
        }
        j += 1;
    }
    true
}

/// Adds up the dealers' commitments to coefficient `i`: the long-term ones
/// times `e`, then the ephemeral ones.
fn sum_column(
    i: usize,
    e: &Scalar,
    long_term: &Vec<VerifiableSS>,
    ephemeral: &Vec<VerifiableSS>,
) -> (r: Point)
    requires
        long_term.len() >= 1,
        forall|j: int| 0 <= j < long_term.len() ==> (#[trigger] long_term[j]).commitments.len() > i,
        forall|j: int| 0 <= j < ephemeral.len() ==> (#[trigger] ephemeral[j]).commitments.len() > i,
    ensures
        r@ == joint_commitment(i as int, e@, long_term@, ephemeral@),
{
    let ghost weighted = Seq::new(
        long_term.len() as nat,
        |j: int| ec_mul(long_term[j].commitments[i as int]@, e@),
    );
    let ghost plain = Seq::new(ephemeral.len() as nat, |j: int| ephemeral[j].commitments[i as int]@);
    let mut terms: Vec<Point> = Vec::new();
    let mut j: usize = 0;
    while j < long_term.len()
        invariant
            j <= long_term.len(),
            forall|k: int|
                0 <= k < long_term.len() ==> (#[trigger] long_term[k]).commitments.len() > i,
            terms.len() == j,
            forall|k: int|
                0 <= k < j ==> (#[trigger] terms[k])@ == ec_mul(
                    long_term[k].commitments[i as int]@,
                    e@,
                ),
        decreases long_term.len() - j,
    {
        let weighted_commitment = long_term[j].commitments[i].times(e);
        terms.push(weighted_commitment);
        j += 1;
    }
    j = 0;
    while j < ephemeral.len()
        invariant
            j <= ephemeral.len(),
            forall|k: int|
                0 <= k < ephemeral.len() ==> (#[trigger] ephemeral[k]).commitments.len() > i,
            terms.len() == long_term.len() + j,
            forall|k: int|
                0 <= k < long_term.len() ==> (#[trigger] terms[k])@ == ec_mul(
                    long_term[k].commitments[i as int]@,
                    e@,
                ),
            forall|k: int|
                0 <= k < j ==> (#[trigger] terms[long_term.len() + k])@
                    == ephemeral[k].commitments[i as int]@,
        decreases ephemeral.len() - j,
    {
        terms.push(ephemeral[j].commitments[i]);
        j += 1;
    }
    assert(encodings(terms@) =~= weighted + plain) by {
        assert forall|k: int| 0 <= k < terms.len() implies encodings(terms@)[k] == (weighted
            + plain)[k] by {
            if k >= long_term.len() {
                assert(terms[long_term.len() + (k - long_term.len())]@ == plain[k
                    - long_term.len()]);
            } else {
                assert(terms[k]@ == weighted[k]);
            }
        }
    }
    sum_points(&terms)
}

impl Signature {
    /// Assembles the signature: `sigma` is interpolated from the first
    /// `t + 1` local signatures, `t` being the threshold of
    /// `vss_sum_local_sigs`, and `v` is the joint nonce point.
    pub fn generate(
        vss_sum_local_sigs: &VerifiableSS,
        local_sig_vec: &Vec<LocalSig>,
        parties_index_vec: &Vec<usize>,
        v: Point,
    ) -> (r: Result<Signature, Error>)
        ensures
            r is Ok <==> generate_inputs_valid(
                vss_sum_local_sigs.parameters.threshold,
                local_sig_vec@,
                parties_index_vec@,
            ),
            r matches Err(e) ==> e == Error::InvalidParameters,
            r matches Ok(sig) ==> {
                &&& sig.v == v
                &&& sig.sigma@ == interpolated_sigma(
                    vss_sum_local_sigs.parameters.threshold,
                    local_sig_vec@,
                    parties_index_vec@,
                )
            },
    {
        let t = vss_sum_local_sigs.parameters.threshold;
        let reconstruct_limit = t as usize + 1;
        if t == u16::MAX || parties_index_vec.len() < reconstruct_limit || local_sig_vec.len()
            < parties_index_vec.len() {
            return Err(Error::InvalidParameters);
        }
        let mut indices: Vec<u16> = Vec::new();
        let mut gamma_vec: Vec<Scalar> = Vec::new();
        let mut i: usize = 0;
        while i < reconstruct_limit
            invariant
                i <= reconstruct_limit,
                reconstruct_limit == t + 1,
                t == vss_sum_local_sigs.parameters.threshold,
                reconstruct_limit <= parties_index_vec.len(),
                parties_index_vec.len() <= local_sig_vec.len(),
                indices.len() == i,
                gamma_vec.len() == i,
                forall|k: int| 0 <= k < i ==> #[trigger] parties_index_vec[k] < 0xFFFF,
                forall|k: int| 0 <= k < i ==> #[trigger] indices[k] == parties_index_vec[k],
                forall|k: int| 0 <= k < i ==> (#[trigger] gamma_vec[k]) == local_sig_vec[k].gamma_i,
            decreases reconstruct_limit - i,
        {
            if parties_index_vec[i] >= 0xFFFF {
                return Err(Error::InvalidParameters);
            }
            indices.push(parties_index_vec[i] as u16);
            gamma_vec.push(local_sig_vec[i].gamma_i);
            i += 1;
        }
        if !all_distinct(&indices) {
            assert(!generate_inputs_valid(t, local_sig_vec@, parties_index_vec@)) by {
                if generate_inputs_valid(t, local_sig_vec@, parties_index_vec@) {
                    assert forall|a: int, b: int| 0 <= a < b < indices.len() implies indices[a]
                        != indices[b] by {
                        assert(indices[a] == parties_index_vec[a]);
                        assert(indices[b] == parties_index_vec[b]);
                    }
                }
            }
            return Err(Error::InvalidParameters);
        }
        assert(generate_inputs_valid(t, local_sig_vec@, parties_index_vec@)) by {
            assert forall|a: int, b: int| 0 <= a < b <= t implies parties_index_vec[a]
                != parties_index_vec[b] by {
                assert(indices[a] == parties_index_vec[a]);
                assert(indices[b] == parties_index_vec[b]);
            }
        }
        let sigma = vss_sum_local_sigs.reconstruct(&indices, &gamma_vec);
        proof {
            assert(points_of(indices@) =~= Seq::new(
                (t + 1) as nat,
                |i: int| (parties_index_vec[i] + 1) as nat,
            ));
            assert(numbers(gamma_vec@) =~= Seq::new(
                (t + 1) as nat,
                |i: int| local_sig_vec[i].gamma_i@,
            ));
        }
        Ok(Signature { sigma, v })
    }

    /// Checks the signature on `message` against the public key `pubkey_y`.
    pub fn verify(&self, message: &[u8], pubkey_y: &Point) -> (r: Result<(), Error>)
        ensures
            r is Ok <==> signature_valid(pubkey_y@, self.v@, self.sigma@, message@),
            r matches Err(e) ==> e == Error::InvalidSig,
    {
        if verify(pubkey_y, &self.v, &self.sigma, message) {
            Ok(())
        } else {
            Err(Error::InvalidSig)
        }
    }
}

/// Whether `(r, sigma)` is a Schnorr signature on `message` under the public
/// key `y`: recomputes `e = H(R ‖ Y ‖ m)` and accepts if and only if
/// `G · sigma == R + e · Y`.
pub fn verify(y: &Point, r: &Point, sigma: &Scalar, message: &[u8]) -> (ok: bool)
    ensures
        ok == signature_valid(y@, r@, sigma@, message@),
{
    let e = challenge(r, y, message);
    let sigma_g = Point::generator().times(sigma);
    let e_y = y.times(&e);
    let r_plus_e_y = r.plus(&e_y);
    sigma_g.equals(&r_plus_e_y)
}

} // verus!
