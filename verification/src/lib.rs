//! Building blocks for zero-knowledge range proofs over the ristretto255
//! prime-order group: deterministic generator derivation, a Fiat-Shamir
//! transcript, Pedersen commitments, and the scalar/point-vector polynomial
//! arithmetic that the inner-product argument consumes.
//!
//! Curve and hash primitives are computed by the backing crates behind a
//! small trusted boundary.  Each primitive's result is named as a pure
//! function of the operand encodings, and every contract of this library is
//! stated over those names: that is the bit-level determinism contract any
//! interchangeable arithmetic backend must meet.

use vstd::prelude::*;

pub mod generators;
pub mod instructions;
pub mod ristretto;
pub mod scalar;
pub mod transcript;
pub mod util;

verus! {

/// Errors reported by this library.
///
/// `InvalidLength` is a wrong-sized byte buffer; `InvalidEncoding` a
/// well-sized buffer that is not a canonical field or group element;
/// `LengthMismatch` a vector operation over unequal-length operands;
/// `CapacityViolation` an aggregation request beyond the derived generator
/// capacity; `InvalidInstructionData` a malformed instruction byte string.
#[derive(Clone, Copy, Debug, PartialEq, Eq, Structural)]
pub enum CryptoError {
    InvalidLength,
    InvalidEncoding,
    LengthMismatch,
    CapacityViolation,
    InvalidInstructionData,
}

} // verus!
