//! Points of the ristretto255 prime-order group, carried as canonical
//! 32-byte compressed encodings.  Group arithmetic is done by
//! curve25519-dalek; each operation's result is exposed to proofs as a named
//! function of the operand encodings, so that equalities between composed
//! operations can be stated and proved exactly.

use vstd::prelude::*;

use crate::CryptoError;
use crate::scalar::{Scalar, is_canonical_scalar};
use curve25519_dalek::ristretto::CompressedRistretto as DalekCompressed;
use curve25519_dalek::ristretto::RistrettoPoint as DalekPoint;
use curve25519_dalek::scalar::Scalar as DalekScalar;
use curve25519_dalek::traits::VartimeMultiscalarMul;

verus! {

/// Whether `b` is a canonical 32-byte encoding of a group element, i.e.
/// decompression succeeds on it.
pub uninterp spec fn is_valid_point(b: Seq<u8>) -> bool;

/// The canonical encoding of the sum of the group elements encoded by `a`
/// and `b`.
pub uninterp spec fn pt_add_of(a: Seq<u8>, b: Seq<u8>) -> Seq<u8>;

/// The canonical encoding of the difference of the group elements encoded
/// by `a` and `b`.
pub uninterp spec fn pt_sub_of(a: Seq<u8>, b: Seq<u8>) -> Seq<u8>;

/// The canonical encoding of the scalar multiple `s`·P, where P is the
/// group element encoded by `p`.
pub uninterp spec fn pt_mul_of(p: Seq<u8>, s: Seq<u8>) -> Seq<u8>;

/// The canonical encoding of the group element obtained from 64 uniform
/// bytes by the Ristretto-flavored double-Elligator map.
pub uninterp spec fn pt_from_uniform_of(b: Seq<u8>) -> Seq<u8>;

/// The canonical encoding of the group element obtained by hashing
/// arbitrary bytes into the group (SHA3-512 followed by the
/// double-Elligator map).
pub uninterp spec fn hash_to_point_of(input: Seq<u8>) -> Seq<u8>;

/// The canonical encoding of the identity element: 32 zero bytes.
pub open spec fn spec_identity_enc() -> Seq<u8> {
    Seq::new(32, |i: int| 0u8)
}

/// The canonical encoding of the ristretto255 base point.
pub open spec fn spec_basepoint_enc() -> Seq<u8> {
    seq![
        0xe2u8, 0xf2, 0xae, 0x0a, 0x6a, 0xbc, 0x4e, 0x71,
        0xa8, 0x84, 0xa9, 0x61, 0xc5, 0x00, 0x51, 0x5f,
        0x58, 0xe3, 0x0b, 0x6a, 0xa5, 0x82, 0xdd, 0x8d,
        0xb6, 0xa6, 0x59, 0x45, 0xe0, 0x8d, 0x2d, 0x76,
    ]
}

/// Whether every encoding in `s` is a canonical scalar encoding.
pub open spec fn all_canonical_scalars(s: Seq<Seq<u8>>) -> bool {
    forall|i: int| 0 <= i < s.len() ==> is_canonical_scalar(#[trigger] s[i])
}

/// Whether every encoding in `s` is a valid group-element encoding.
pub open spec fn all_valid_points(s: Seq<Seq<u8>>) -> bool {
    forall|i: int| 0 <= i < s.len() ==> is_valid_point(#[trigger] s[i])
}

/// The encodings of a sequence of scalars.
pub open spec fn scalar_views(s: Seq<Scalar>) -> Seq<Seq<u8>> {
    s.map_values(|x: Scalar| x@)
}

/// The encodings of a sequence of points.
pub open spec fn point_views(s: Seq<RistrettoPoint>) -> Seq<Seq<u8>> {
    s.map_values(|x: RistrettoPoint| x@)
}

/// The multiscalar product Σ scalars[i]·points[i], folded left over the
/// named single operations; the empty product is the identity.
pub open spec fn spec_msm(scalars: Seq<Seq<u8>>, points: Seq<Seq<u8>>) -> Seq<u8>
    decreases scalars.len(),
{
    if scalars.len() == 0 {
        spec_identity_enc()
    } else if scalars.len() == 1 {
        pt_mul_of(points[0], scalars[0])
    } else {
        pt_add_of(
            spec_msm(scalars.drop_last(), points.drop_last()),
            pt_mul_of(points.last(), scalars.last()),
        )
    }
}

/// A multiscalar product of two scalar/point pairs is exactly the sum of
/// the two single scalar multiples.
pub proof fn lemma_msm_pair(s1: Seq<u8>, s2: Seq<u8>, p1: Seq<u8>, p2: Seq<u8>)
    ensures
        spec_msm(seq![s1, s2], seq![p1, p2]) == pt_add_of(pt_mul_of(p1, s1), pt_mul_of(p2, s2)),
{
    let ss = seq![s1, s2];
    let ps = seq![p1, p2];
    assert(ss.drop_last() =~= seq![s1]);
    assert(ps.drop_last() =~= seq![p1]);
    assert(spec_msm(seq![s1], seq![p1]) == pt_mul_of(p1, s1));
}

/// A group element of ristretto255, held as its canonical 32-byte
/// compressed encoding.
#[derive(Clone, Copy, Debug, PartialEq)]
pub struct RistrettoPoint {
    bytes: [u8; 32],
}

impl View for RistrettoPoint {
    type V = Seq<u8>;

    closed spec fn view(&self) -> Seq<u8> {
        self.bytes@
    }
}

/// Relies on curve25519_dalek::ristretto::CompressedRistretto::decompress:
/// it returns Some exactly when the 32 bytes are a canonical encoding of a
/// group element.
#[verifier::external_body]
pub(crate) fn point_encoding_is_valid(bytes: &[u8; 32]) -> (r: bool)
    ensures
        r == is_valid_point(bytes@),
{
    DalekCompressed(*bytes).decompress().is_some()
}

impl RistrettoPoint {
    /// Copy out the 32-byte compressed encoding.
    pub fn to_bytes(&self) -> (r: [u8; 32])
        ensures
            r@ == self@,
    {
        self.bytes
    }

    /// Decode a point from bytes: the buffer must hold exactly 32 bytes
    /// (`InvalidLength` otherwise) forming a canonical group-element
    /// encoding (`InvalidEncoding` otherwise).
    pub fn from_bytes(bytes: &[u8]) -> (r: Result<Self, CryptoError>)
        ensures
            bytes@.len() != 32 ==> r == Err::<Self, CryptoError>(CryptoError::InvalidLength),
            bytes@.len() == 32 && !is_valid_point(bytes@) ==> r == Err::<Self, CryptoError>(
                CryptoError::InvalidEncoding,
            ),
            r matches Ok(p) ==> p@ == bytes@ && is_valid_point(bytes@),
            bytes@.len() == 32 && is_valid_point(bytes@) ==> r is Ok,
    {
        if bytes.len() != 32 {
            return Err(CryptoError::InvalidLength);
        }
        let mut buf = [0u8; 32];
        let mut i: usize = 0;
        while i < 32
            invariant
                i <= 32,
                bytes@.len() == 32,
                forall|j: int| 0 <= j < i ==> buf@[j] == bytes@[j],
            decreases 32 - i,
        {
            buf[i] = bytes[i];
            i += 1;
        }
        proof {
            assert(buf@ =~= bytes@);
        }
        if point_encoding_is_valid(&buf) {
            Ok(RistrettoPoint { bytes: buf })
        } else {
            Err(CryptoError::InvalidEncoding)
        }
    }

    /// Add two group elements.
    ///
    /// Relies on curve25519_dalek's Add for RistrettoPoint, together with
    /// decompress/compress: compression of a group element is canonical, so
    /// the result is again a valid encoding.
    #[verifier::external_body]
    pub fn add(&self, other: &Self) -> (r: Result<Self, CryptoError>)
        ensures
            r is Ok <==> (is_valid_point(self@) && is_valid_point(other@)),
            r matches Ok(p) ==> p@ == pt_add_of(self@, other@),
            r matches Ok(p) ==> is_valid_point(p@),
            r matches Err(e) ==> e == CryptoError::InvalidEncoding,
    {
        match (DalekCompressed(self.bytes).decompress(), DalekCompressed(other.bytes).decompress())
        {
            (Some(a), Some(b)) => Ok(RistrettoPoint { bytes: (a + b).compress().to_bytes() }),
            _ => Err(CryptoError::InvalidEncoding),
        }
    }

    /// Subtract two group elements.
    ///
    /// Relies on curve25519_dalek's Sub for RistrettoPoint, together with
    /// decompress/compress: compression of a group element is canonical, so
    /// the result is again a valid encoding.
    #[verifier::external_body]
    pub fn subtract(&self, other: &Self) -> (r: Result<Self, CryptoError>)
        ensures
            r is Ok <==> (is_valid_point(self@) && is_valid_point(other@)),
            r matches Ok(p) ==> p@ == pt_sub_of(self@, other@),
            r matches Ok(p) ==> is_valid_point(p@),
            r matches Err(e) ==> e == CryptoError::InvalidEncoding,
    {
        match (DalekCompressed(self.bytes).decompress(), DalekCompressed(other.bytes).decompress())
        {
            (Some(a), Some(b)) => Ok(RistrettoPoint { bytes: (a - b).compress().to_bytes() }),
            _ => Err(CryptoError::InvalidEncoding),
        }
    }

    /// Multiply a group element by a scalar.
    ///
    /// Relies on curve25519_dalek's Mul of a Scalar and a RistrettoPoint,
    /// together with decompress/compress and from_canonical_bytes.
    #[verifier::external_body]
    pub fn multiply(&self, other: &Scalar) -> (r: Result<Self, CryptoError>)
        ensures
            r is Ok <==> (is_valid_point(self@) && is_canonical_scalar(other@)),
            r matches Ok(p) ==> p@ == pt_mul_of(self@, other@),
            r matches Ok(p) ==> is_valid_point(p@),
            r matches Err(e) ==> e == CryptoError::InvalidEncoding,
    {
        let s = DalekScalar::from_canonical_bytes(other.to_bytes());
        match (DalekCompressed(self.bytes).decompress(), s) {
            (Some(p), Some(s)) => Ok(RistrettoPoint { bytes: (p * s).compress().to_bytes() }),
            _ => Err(CryptoError::InvalidEncoding),
        }
    }

    /// Compute the multiscalar product Σ scalars[i]·points[i].  Fails with
    /// `LengthMismatch` on unequal operand lengths, and with
    /// `InvalidEncoding` when a scalar is not canonical or a point does not
    /// decode.
    pub fn multiscalar_multiply(scalars: &[Scalar], points: &[RistrettoPoint]) -> (r: Result<
        Self,
        CryptoError,
    >)
        ensures
            scalars@.len() != points@.len() ==> r == Err::<Self, CryptoError>(
                CryptoError::LengthMismatch,
            ),
            scalars@.len() == points@.len() ==> (r is Ok <==> (all_canonical_scalars(
                scalar_views(scalars@),
            ) && all_valid_points(point_views(points@)))),
            r matches Ok(p) ==> p@ == spec_msm(scalar_views(scalars@), point_views(points@)),
            r matches Ok(p) ==> is_valid_point(p@),
            scalars@.len() == points@.len() && r is Err ==> r == Err::<Self, CryptoError>(
                CryptoError::InvalidEncoding,
            ),
    {
        if scalars.len() != points.len() {
            return Err(CryptoError::LengthMismatch);
        }
        msm_call(scalars, points)
    }
}

/// Relies on curve25519_dalek's VartimeMultiscalarMul for RistrettoPoint:
/// given equally many scalars and points it computes Σ scalars[i]·points[i]
/// (the identity for empty input, whose canonical encoding is 32 zero
/// bytes), returning None when a point fails to decompress.
#[verifier::external_body]
fn msm_call(scalars: &[Scalar], points: &[RistrettoPoint]) -> (r: Result<
    RistrettoPoint,
    CryptoError,
>)
    requires
        scalars@.len() == points@.len(),
    ensures
        r is Ok <==> (all_canonical_scalars(scalar_views(scalars@)) && all_valid_points(
            point_views(points@),
        )),
        r matches Ok(p) ==> p@ == spec_msm(scalar_views(scalars@), point_views(points@)),
        r matches Ok(p) ==> is_valid_point(p@),
        r matches Err(e) ==> e == CryptoError::InvalidEncoding,
{
    let ss: Option<Vec<DalekScalar>> = scalars.iter().map(
        |s: &Scalar| DalekScalar::from_canonical_bytes(s.to_bytes()),
    ).collect();
    let ps = points.iter().map(|p: &RistrettoPoint| DalekCompressed(p.to_bytes()).decompress());
    match ss {
        Some(ss) => match DalekPoint::optional_multiscalar_mul(ss, ps) {
            Some(p) => Ok(RistrettoPoint { bytes: p.compress().to_bytes() }),
            None => Err(CryptoError::InvalidEncoding),
        },
        None => Err(CryptoError::InvalidEncoding),
    }
}

impl RistrettoPoint {
    /// Hash arbitrary bytes to a group element.
    ///
    /// Relies on curve25519_dalek::ristretto::RistrettoPoint::hash_from_bytes
    /// with SHA3-512: a fixed, deterministic map from bytes to the group,
    /// used to derive nothing-up-my-sleeve constants.
    #[verifier::external_body]
    pub fn hash_from_bytes(input: &[u8]) -> (r: Self)
        ensures
            r@ == hash_to_point_of(input@),
            is_valid_point(r@),
    {
        let p = DalekPoint::hash_from_bytes::<sha3::Sha3_512>(input);
        RistrettoPoint { bytes: p.compress().to_bytes() }
    }
}

/// Relies on curve25519_dalek::ristretto::RistrettoPoint::from_uniform_bytes:
/// the Ristretto-flavored double-Elligator map from 64 bytes to the group.
#[verifier::external_body]
pub(crate) fn point_from_uniform_bytes(bytes: &[u8; 64]) -> (r: RistrettoPoint)
    ensures
        r@ == pt_from_uniform_of(bytes@),
        is_valid_point(r@),
{
    let p = DalekPoint::from_uniform_bytes(bytes);
    RistrettoPoint { bytes: p.compress().to_bytes() }
}

/// The ristretto255 base point.
///
/// Relies on curve25519_dalek::constants::RISTRETTO_BASEPOINT_COMPRESSED,
/// whose published canonical encoding is repeated in `spec_basepoint_enc`.
#[verifier::external_body]
pub fn ristretto_basepoint_point() -> (r: RistrettoPoint)
    ensures
        r@ == spec_basepoint_enc(),
        is_valid_point(r@),
{
    RistrettoPoint {
        bytes: curve25519_dalek::constants::RISTRETTO_BASEPOINT_COMPRESSED.to_bytes(),
    }
}

/// A compressed ristretto255 point: bare 32-byte storage with no validity
/// judgement attached.
pub struct CompressedRistretto(pub [u8; 32]);

impl View for CompressedRistretto {
    type V = Seq<u8>;

    closed spec fn view(&self) -> Seq<u8> {
        self.0@
    }
}

impl CompressedRistretto {
    /// Copy the bytes of this `CompressedRistretto`.
    pub fn to_bytes(&self) -> (r: [u8; 32])
        ensures
            r@ == self@,
    {
        self.0
    }
}

/// The compressed encoding of the ristretto255 base point.
pub fn ristretto_basepoint_compressed() -> (r: CompressedRistretto)
    ensures
        r@ == spec_basepoint_enc(),
{
    let bytes: [u8; 32] = [
        0xe2u8, 0xf2, 0xae, 0x0a, 0x6a, 0xbc, 0x4e, 0x71, 0xa8, 0x84, 0xa9, 0x61, 0xc5, 0x00,
        0x51, 0x5f, 0x58, 0xe3, 0x0b, 0x6a, 0xa5, 0x82, 0xdd, 0x8d, 0xb6, 0xa6, 0x59, 0x45, 0xe0,
        0x8d, 0x2d, 0x76,
    ];
    let r = CompressedRistretto(bytes);
    proof {
        assert(r@ =~= spec_basepoint_enc());
    }
    r
}

} // verus!
