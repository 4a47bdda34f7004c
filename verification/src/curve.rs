//! The prime-order group the protocols run in: scalars modulo the order of
//! secp256k1 and points of the curve, both held in their canonical encodings.

use crate::error::Error;
use curv::arithmetic::Converter;
use curv::elliptic::curves::Point as CurvPoint;
use curv::elliptic::curves::Scalar as CurvScalar;
use curv::elliptic::curves::Secp256k1;
use curv::BigInt;
use vstd::prelude::*;

verus! {

/// The order of the group: the number of points of secp256k1.
pub open spec fn group_order() -> nat {
    0xFFFFFFFFFFFFFFFFFFFFFFFFFFFFFFFEBAAEDCE6AF48A03BBFD25E8CD0364141nat
}

/// The number that a byte string denotes when read big-endian.
pub open spec fn be_value(s: Seq<u8>) -> nat
    decreases s.len(),
{
    if s.len() == 0 {
        0
    } else {
        be_value(s.drop_last()) * 256 + s.last() as nat
    }
}

/// Whether 33 bytes are the encoding of a group element: the all-zero string
/// for the identity, or the compressed form of a point of the curve.
pub uninterp spec fn is_point_encoding(bytes: Seq<u8>) -> bool;

/// The encoding of the sum of two encoded group elements.
pub uninterp spec fn ec_add(a: Seq<u8>, b: Seq<u8>) -> Seq<u8>;

/// The encoding of the `k`-fold multiple of an encoded group element.
pub uninterp spec fn ec_mul(p: Seq<u8>, k: nat) -> Seq<u8>;

/// The compressed encoding of the generator `G`.
pub open spec fn generator_encoding() -> Seq<u8> {
    seq![
        0x02u8, 0x79, 0xBE, 0x66, 0x7E, 0xF9, 0xDC, 0xBB, 0xAC, 0x55, 0xA0, 0x62, 0x95, 0xCE, 0x87,
        0x0B, 0x07, 0x02, 0x9B, 0xFC, 0xDB, 0x2D, 0xCE, 0x28, 0xD9, 0x59, 0xF2, 0x81, 0x5B, 0x16,
        0xF8, 0x17, 0x98,
    ]
}

/// The encoding of the identity of the group: 33 zero bytes.
pub open spec fn identity_encoding() -> Seq<u8> {
    Seq::new(33, |i: int| 0u8)
}

/// An element of the scalar field, as 32 big-endian bytes that denote a
/// number below the group order.
#[derive(Clone, Copy, Debug)]
pub struct Scalar {
    bytes: [u8; 32],
}

/// A group element, as its 33-byte encoding: the all-zero string for the
/// identity, the compressed form for a point of the curve.
#[derive(Clone, Copy, Debug)]
pub struct Point {
    bytes: [u8; 33],
}

impl View for Scalar {
    type V = nat;

    /// The number in `[0, q)` that the scalar stands for.
    closed spec fn view(&self) -> nat {
        be_value(self.bytes@)
    }
}

impl View for Point {
    type V = Seq<u8>;

    /// The element's 33-byte encoding.
    closed spec fn view(&self) -> Seq<u8> {
        self.bytes@
    }
}

/// Calls `Scalar::from_bytes` of curv on 32 bytes and says whether it took
/// them. It takes the all-zero string as zero and otherwise what secp256k1
/// takes as a secret key: a big-endian number in `[1, q)`.
#[verifier::external_body]
fn curv_scalar_accepts(bytes: &[u8; 32]) -> (ok: bool)
    ensures
        ok == (be_value(bytes@) < group_order()),
{
    CurvScalar::<Secp256k1>::from_bytes(bytes).is_ok()
}

/// Calls `Scalar::random` of curv, which draws from the thread's random
/// number generator until the draw is not zero. The result is a scalar in
/// `[1, q)`; nothing more is known of it.
#[verifier::external_body]
fn curv_random_scalar() -> (r: Scalar)
    ensures
        0 < r@ < group_order(),
{
    let s = CurvScalar::<Secp256k1>::random();
    Scalar { bytes: (*s.to_bytes()).try_into().unwrap() }
}

/// Calls `Scalar::zero` of curv: the scalar 0.
#[verifier::external_body]
fn curv_scalar_zero() -> (r: Scalar)
    ensures
        r@ == 0,
{
    let s = CurvScalar::<Secp256k1>::zero();
    Scalar { bytes: (*s.to_bytes()).try_into().unwrap() }
}

/// Calls `Scalar::from_bigint` of curv on the number that `bytes` denote
/// big-endian: that number reduced modulo the group order.
#[verifier::external_body]
fn curv_scalar_reduce(bytes: &Vec<u8>) -> (r: Scalar)
    ensures
        r@ == be_value(bytes@) % group_order(),
{
    let s = CurvScalar::<Secp256k1>::from_bigint(&BigInt::from_bytes(bytes));
    Scalar { bytes: (*s.to_bytes()).try_into().unwrap() }
}

/// Calls the `+` of curv's scalars: addition modulo the group order. The
/// arguments are below the order, so that curv reads them back.
#[verifier::external_body]
fn curv_scalar_add(a: &Scalar, b: &Scalar) -> (r: Scalar)
    requires
        a@ < group_order(),
        b@ < group_order(),
    ensures
        r@ == (a@ + b@) % group_order(),
{
    let x = CurvScalar::<Secp256k1>::from_bytes(&a.bytes).unwrap();
    let y = CurvScalar::<Secp256k1>::from_bytes(&b.bytes).unwrap();
    Scalar { bytes: (*(x + y).to_bytes()).try_into().unwrap() }
}

/// Calls the `*` of curv's scalars: multiplication modulo the group order.
/// The arguments are below the order, so that curv reads them back.
#[verifier::external_body]
fn curv_scalar_mul(a: &Scalar, b: &Scalar) -> (r: Scalar)
    requires
        a@ < group_order(),
        b@ < group_order(),
    ensures
        r@ == (a@ * b@) % group_order(),
{
    let x = CurvScalar::<Secp256k1>::from_bytes(&a.bytes).unwrap();
    let y = CurvScalar::<Secp256k1>::from_bytes(&b.bytes).unwrap();
    Scalar { bytes: (*(x * y).to_bytes()).try_into().unwrap() }
}

/// Calls `Point::from_bytes` of curv on 33 bytes and says whether it took
/// them as a group element.
#[verifier::external_body]
fn curv_point_accepts(bytes: &[u8; 33]) -> (ok: bool)
    ensures
        ok == is_point_encoding(bytes@),
{
    CurvPoint::<Secp256k1>::from_bytes(bytes).is_ok()
}

/// Calls `Point::generator` of curv: the base point `G` of secp256k1, whose
/// compressed encoding is the constant written out in `generator_encoding`.
#[verifier::external_body]
fn curv_generator() -> (r: Point)
    ensures
        r@ == generator_encoding(),
        is_point_encoding(r@),
{
    let g = CurvPoint::<Secp256k1>::generator().to_point();
    Point { bytes: (*g.to_bytes(true)).try_into().unwrap() }
}

/// Calls `Point::zero` of curv: the identity of the group, which curv
/// encodes as 33 zero bytes.
#[verifier::external_body]
fn curv_point_zero() -> (r: Point)
    ensures
        r@ == identity_encoding(),
        is_point_encoding(r@),
{
    let o = CurvPoint::<Secp256k1>::zero();
    Point { bytes: (*o.to_bytes(true)).try_into().unwrap() }
}

/// Calls the `+` of curv's points. The result is the group sum; it is the
/// identity where one argument is the inverse of the other. The arguments
/// are encodings that curv takes, and so is the result.
#[verifier::external_body]
fn curv_point_add(a: &Point, b: &Point) -> (r: Point)
    requires
        is_point_encoding(a@),
        is_point_encoding(b@),
    ensures
        r@ == ec_add(a@, b@),
        is_point_encoding(r@),
{
    let x = CurvPoint::<Secp256k1>::from_bytes(&a.bytes).unwrap();
    let y = CurvPoint::<Secp256k1>::from_bytes(&b.bytes).unwrap();
    Point { bytes: (*(x + y).to_bytes(true)).try_into().unwrap() }
}

/// Calls the `*` of a curv point and a curv scalar. The result is the
/// multiple of the point by the scalar's number; it is the identity where
/// the number is zero. The arguments are encodings that curv takes, and so
/// is the result.
#[verifier::external_body]
fn curv_point_mul(p: &Point, k: &Scalar) -> (r: Point)
    requires
        is_point_encoding(p@),
        k@ < group_order(),
    ensures
        r@ == ec_mul(p@, k@),
        is_point_encoding(r@),
{
    let x = CurvPoint::<Secp256k1>::from_bytes(&p.bytes).unwrap();
    let y = CurvScalar::<Secp256k1>::from_bytes(&k.bytes).unwrap();
    Point { bytes: (*(x * y).to_bytes(true)).try_into().unwrap() }
}

impl Scalar {
    /// Every scalar is below the group order.
    #[verifier::type_invariant]
    spec fn canonical(self) -> bool {
        be_value(self.bytes@) < group_order()
    }

    /// The scalar's 32 big-endian bytes.
    pub closed spec fn encoding(self) -> Seq<u8> {
        self.bytes@
    }

    /// Reads a scalar from 32 big-endian bytes; `None` where the number they
    /// denote is not below the group order.
    pub fn from_bytes(bytes: [u8; 32]) -> (r: Option<Scalar>)
        ensures
            r.is_some() == (be_value(bytes@) < group_order()),
            r matches Some(s) ==> s@ == be_value(bytes@) && s.encoding() == bytes@,
    {
        if curv_scalar_accepts(&bytes) {
            Some(Scalar { bytes })
        } else {
            None
        }
    }

    /// Reads a scalar from a byte string: 32 big-endian bytes that denote a
    /// number below the group order.
    pub fn decode(bytes: &[u8]) -> (r: Result<Scalar, Error>)
        ensures
            r is Ok <==> bytes@.len() == 32 && be_value(bytes@) < group_order(),
            r matches Err(e) ==> e == Error::InternalCurve,
            r matches Ok(s) ==> s@ == be_value(bytes@) && s.encoding() == bytes@,
    {
        if bytes.len() != 32 {
            return Err(Error::InternalCurve);
        }
        let mut buffer = [0u8; 32];
        let mut i: usize = 0;
        while i < 32
            invariant
                i <= 32,
                bytes@.len() == 32,
                forall|k: int| 0 <= k < i ==> buffer@[k] == bytes@[k],
            decreases 32 - i,
        {
            buffer[i] = bytes[i];
            i += 1;
        }
        assert(buffer@ =~= bytes@);
        match Scalar::from_bytes(buffer) {
            Some(s) => Ok(s),
            None => Err(Error::InternalCurve),
        }
    }

    /// The scalar's 32 big-endian bytes.
    pub fn to_bytes(&self) -> (r: [u8; 32])
        ensures
            r@ == self.encoding(),
            be_value(r@) == self@,
            self@ < group_order(),
    {
        proof {
            use_type_invariant(self);
        }
        self.bytes
    }

    /// A fresh scalar in `[1, q)` from the system's randomness.
    pub fn random() -> (r: Scalar)
        ensures
            0 < r@ < group_order(),
    {
        curv_random_scalar()
    }

    /// The scalar 0.
    pub fn zero() -> (r: Scalar)
        ensures
            r@ == 0,
    {
        curv_scalar_zero()
    }

    /// The scalar that a big-endian byte string of any length denotes modulo
    /// the group order.
    pub fn reduce(bytes: &Vec<u8>) -> (r: Scalar)
        ensures
            r@ == be_value(bytes@) % group_order(),
    {
        curv_scalar_reduce(bytes)
    }

    /// The sum of two scalars.
    pub fn plus(&self, other: &Scalar) -> (r: Scalar)
        ensures
            r@ == (self@ + other@) % group_order(),
    {
        proof {
            use_type_invariant(self);
            use_type_invariant(other);
        }
        curv_scalar_add(self, other)
    }

    /// The product of two scalars.
    pub fn times(&self, other: &Scalar) -> (r: Scalar)
        ensures
            r@ == (self@ * other@) % group_order(),
    {
        proof {
            use_type_invariant(self);
            use_type_invariant(other);
        }
        curv_scalar_mul(self, other)
    }
}

impl Point {
    /// Every point holds an encoding that curv takes as a group element.
    #[verifier::type_invariant]
    spec fn on_curve(self) -> bool {
        is_point_encoding(self.bytes@)
    }

    /// Reads a group element from its 33-byte encoding; `None` where the
    /// bytes encode none.
    pub fn from_bytes(bytes: [u8; 33]) -> (r: Option<Point>)
        ensures
            r.is_some() == is_point_encoding(bytes@),
            r matches Some(p) ==> p@ == bytes@,
    {
        if curv_point_accepts(&bytes) {
            Some(Point { bytes })
        } else {
            None
        }
    }

    /// Reads a group element from a byte string: its 33-byte encoding.
    pub fn decode(bytes: &[u8]) -> (r: Result<Point, Error>)
        ensures
            r is Ok <==> bytes@.len() == 33 && is_point_encoding(bytes@),
            r matches Err(e) ==> e == Error::InternalCurve,
            r matches Ok(p) ==> p@ == bytes@,
    {
        if bytes.len() != 33 {
            return Err(Error::InternalCurve);
        }
        let mut buffer = [0u8; 33];
        let mut i: usize = 0;
        while i < 33
            invariant
                i <= 33,
                bytes@.len() == 33,
                forall|k: int| 0 <= k < i ==> buffer@[k] == bytes@[k],
            decreases 33 - i,
        {
            buffer[i] = bytes[i];
            i += 1;
        }
        assert(buffer@ =~= bytes@);
        match Point::from_bytes(buffer) {
            Some(p) => Ok(p),
            None => Err(Error::InternalCurve),
        }
    }

    /// The element's 33-byte encoding, which curv takes as a group element.
    pub fn to_bytes(&self) -> (r: [u8; 33])
        ensures
            r@ == self@,
            is_point_encoding(r@),
    {
        proof {
            use_type_invariant(self);
        }
        self.bytes
    }

    /// The generator `G`.
    pub fn generator() -> (r: Point)
        ensures
            r@ == generator_encoding(),
    {
        curv_generator()
    }

    /// The identity of the group.
    pub fn identity() -> (r: Point)
        ensures
            r@ == identity_encoding(),
    {
        curv_point_zero()
    }

    /// The sum of two group elements.
    pub fn plus(&self, other: &Point) -> (r: Point)
        ensures
            r@ == ec_add(self@, other@),
    {
        proof {
            use_type_invariant(self);
            use_type_invariant(other);
        }
        curv_point_add(self, other)
    }

    /// The multiple of a group element by a scalar.
    pub fn times(&self, k: &Scalar) -> (r: Point)
        ensures
            r@ == ec_mul(self@, k@),
    {
        proof {
            use_type_invariant(self);
            use_type_invariant(k);
        }
        curv_point_mul(self, k)
    }

    /// Whether two group elements are the same.
    pub fn equals(&self, other: &Point) -> (r: bool)
        ensures
            r == (self@ == other@),
    {
        let mut i: usize = 0;
        while i < 33
            invariant
                i <= 33,
                forall|j: int| 0 <= j < i ==> self.bytes@[j] == other.bytes@[j],
            decreases 33 - i,
        {
            if self.bytes[i] != other.bytes[i] {
                return false;
            }
            i += 1;
        }
        assert(self.bytes@ =~= other.bytes@);
        true
    }
}

} // verus!
