//! Scalars of the ristretto255 group: opaque field elements carried as
//! canonical 32-byte little-endian encodings.  Field arithmetic is done by
//! curve25519-dalek; its results are exposed to proofs through named
//! functions of the operand encodings.

use vstd::prelude::*;

use crate::CryptoError;
use curve25519_dalek::scalar::Scalar as DalekScalar;

verus! {

/// The encoding of the sum (mod the group order) of the scalars encoded by
/// `a` and `b`.
pub uninterp spec fn sc_add_of(a: Seq<u8>, b: Seq<u8>) -> Seq<u8>;

/// The encoding of the difference (mod the group order) of the scalars
/// encoded by `a` and `b`.
pub uninterp spec fn sc_sub_of(a: Seq<u8>, b: Seq<u8>) -> Seq<u8>;

/// The encoding of the product (mod the group order) of the scalars encoded
/// by `a` and `b`.
pub uninterp spec fn sc_mul_of(a: Seq<u8>, b: Seq<u8>) -> Seq<u8>;

/// Whether `b` is the canonical little-endian encoding of a scalar, i.e. a
/// 32-byte value below the group order.
pub uninterp spec fn is_canonical_scalar(b: Seq<u8>) -> bool;

/// The canonical encoding of the zero scalar: 32 zero bytes.
pub open spec fn spec_scalar_zero() -> Seq<u8> {
    Seq::new(32, |i: int| 0u8)
}

/// A scalar of the ristretto255 group, held as its 32-byte encoding.
#[derive(Clone, Copy, Debug, PartialEq)]
pub struct Scalar {
    bytes: [u8; 32],
}

impl View for Scalar {
    type V = Seq<u8>;

    closed spec fn view(&self) -> Seq<u8> {
        self.bytes@
    }
}

/// Relies on curve25519_dalek::scalar::Scalar::from_canonical_bytes: it
/// returns Some exactly when the 32 bytes are the canonical encoding of a
/// scalar below the group order.
#[verifier::external_body]
pub(crate) fn scalar_encoding_is_canonical(bytes: &[u8; 32]) -> (r: bool)
    ensures
        r == is_canonical_scalar(bytes@),
{
    curve25519_dalek::scalar::Scalar::from_canonical_bytes(*bytes).is_some()
}

impl Scalar {
    /// Copy out the 32-byte encoding.
    pub fn to_bytes(&self) -> (r: [u8; 32])
        ensures
            r@ == self@,
    {
        self.bytes
    }

    /// Decode a scalar from bytes: the buffer must hold exactly 32 bytes
    /// (`InvalidLength` otherwise) forming a canonical encoding
    /// (`InvalidEncoding` otherwise).
    pub fn from_bytes(bytes: &[u8]) -> (r: Result<Self, CryptoError>)
        ensures
            bytes@.len() != 32 ==> r == Err::<Self, CryptoError>(CryptoError::InvalidLength),
            bytes@.len() == 32 && !is_canonical_scalar(bytes@) ==> r == Err::<Self, CryptoError>(
                CryptoError::InvalidEncoding,
            ),
            r matches Ok(s) ==> s@ == bytes@ && is_canonical_scalar(bytes@),
            bytes@.len() == 32 && is_canonical_scalar(bytes@) ==> r is Ok,
    {
        if bytes.len() != 32 {
            return Err(CryptoError::InvalidLength);
        }
        let mut buf = [0u8; 32];
        let mut i: usize = 0;
        while i < 32
            invariant
                i <= 32,
                bytes@.len() == 32,
                forall|j: int| 0 <= j < i ==> buf@[j] == bytes@[j],
            decreases 32 - i,
        {
            buf[i] = bytes[i];
            i += 1;
        }
        proof {
            assert(buf@ =~= bytes@);
        }
        if scalar_encoding_is_canonical(&buf) {
            Ok(Scalar { bytes: buf })
        } else {
            Err(CryptoError::InvalidEncoding)
        }
    }

    /// The zero scalar.
    ///
    /// Relies on curve25519_dalek::scalar::Scalar::zero: the additive
    /// identity, whose canonical encoding is 32 zero bytes.
    #[verifier::external_body]
    pub fn zero() -> (r: Self)
        ensures
            r@ == spec_scalar_zero(),
            is_canonical_scalar(r@),
    {
        Scalar { bytes: curve25519_dalek::scalar::Scalar::zero().to_bytes() }
    }

    /// Add two scalars mod the group order.
    ///
    /// Relies on curve25519_dalek's Add for Scalar: defined for canonical
    /// operands, it reduces the sum mod the group order, so the result is
    /// again canonical.
    #[verifier::external_body]
    pub fn add_scalar(self, other: Scalar) -> (r: Result<Self, CryptoError>)
        ensures
            r is Ok <==> (is_canonical_scalar(self@) && is_canonical_scalar(other@)),
            r matches Ok(s) ==> s@ == sc_add_of(self@, other@),
            r matches Ok(s) ==> is_canonical_scalar(s@),
    {
        match (
            DalekScalar::from_canonical_bytes(self.bytes),
            DalekScalar::from_canonical_bytes(other.bytes),
        ) {
            (Some(a), Some(b)) => Ok(Scalar { bytes: (a + b).to_bytes() }),
            _ => Err(CryptoError::InvalidEncoding),
        }
    }

    /// Subtract two scalars mod the group order.
    ///
    /// Relies on curve25519_dalek's Sub for Scalar: defined for canonical
    /// operands, it reduces the difference mod the group order, so the
    /// result is again canonical.
    #[verifier::external_body]
    pub fn subtract_scalar(self, other: Scalar) -> (r: Result<Self, CryptoError>)
        ensures
            r is Ok <==> (is_canonical_scalar(self@) && is_canonical_scalar(other@)),
            r matches Ok(s) ==> s@ == sc_sub_of(self@, other@),
            r matches Ok(s) ==> is_canonical_scalar(s@),
    {
        match (
            DalekScalar::from_canonical_bytes(self.bytes),
            DalekScalar::from_canonical_bytes(other.bytes),
        ) {
            (Some(a), Some(b)) => Ok(Scalar { bytes: (a - b).to_bytes() }),
            _ => Err(CryptoError::InvalidEncoding),
        }
    }

    /// Multiply two scalars mod the group order.
    ///
    /// Relies on curve25519_dalek's Mul for Scalar: defined for canonical
    /// operands, it reduces the product mod the group order, so the result
    /// is again canonical.
    #[verifier::external_body]
    pub fn multiply_scalar(self, other: Scalar) -> (r: Result<Self, CryptoError>)
        ensures
            r is Ok <==> (is_canonical_scalar(self@) && is_canonical_scalar(other@)),
            r matches Ok(s) ==> s@ == sc_mul_of(self@, other@),
            r matches Ok(s) ==> is_canonical_scalar(s@),
    {
        match (
            DalekScalar::from_canonical_bytes(self.bytes),
            DalekScalar::from_canonical_bytes(other.bytes),
        ) {
            (Some(a), Some(b)) => Ok(Scalar { bytes: (a * b).to_bytes() }),
            _ => Err(CryptoError::InvalidEncoding),
        }
    }
}

} // verus!
