//! The byte-level instruction codec of the exercise program built on this
//! library: five labelled operations, packed to and parsed from a tagged
//! little-endian wire layout, and an interpreter that carries each parsed
//! instruction out against the library.

use vstd::prelude::*;

use vstd::bytes::{
    lemma_auto_spec_u32_to_from_le_bytes, lemma_auto_spec_u64_to_from_le_bytes,
    spec_u32_from_le_bytes, spec_u32_to_le_bytes, spec_u64_from_le_bytes, spec_u64_to_le_bytes,
    u32_from_le_bytes, u64_from_le_bytes,
};

use crate::CryptoError;
use crate::ristretto::{
    RistrettoPoint, all_canonical_scalars, all_valid_points, is_valid_point, point_views,
    pt_add_of, pt_mul_of, pt_sub_of, scalar_views, spec_msm,
};
use crate::scalar::{Scalar, is_canonical_scalar};
use crate::transcript::{
    Transcript, append_bytes, encode_usize_as_u32, spec_append_message, spec_challenge_absorbed,
    spec_squeeze_stream, spec_transcript_new,
};
use crate::util::read32;

verus! {

/// The instructions understood by the exercise program.
#[derive(Clone, Debug, PartialEq)]
pub enum BoomerangTestInstructions {
    /// Derive a transcript challenge from a message and a number.
    Transcript { message: Vec<u8>, append_u64: u64 },
    /// Add two group elements.
    AddRistretto { left_point: RistrettoPoint, right_point: RistrettoPoint },
    /// Subtract two group elements.
    SubtractRistretto { left_point: RistrettoPoint, right_point: RistrettoPoint },
    /// Multiply a group element by a scalar.
    MultiplyRistretto { point: RistrettoPoint, scalar: Scalar },
    /// Compute a multiscalar product.
    MultiscalarMultiplyRistretto { scalars: Vec<Scalar>, points: Vec<RistrettoPoint> },
}

/// The ghost shape of an instruction: every field as its byte encoding.
pub enum InstructionView {
    Transcript { message: Seq<u8>, value: u64 },
    Add { left: Seq<u8>, right: Seq<u8> },
    Sub { left: Seq<u8>, right: Seq<u8> },
    Mul { point: Seq<u8>, scalar: Seq<u8> },
    Msm { scalars: Seq<Seq<u8>>, points: Seq<Seq<u8>> },
}

impl View for BoomerangTestInstructions {
    type V = InstructionView;

    open spec fn view(&self) -> InstructionView {
        match self {
            BoomerangTestInstructions::Transcript { message, append_u64 } => {
                InstructionView::Transcript { message: message@, value: *append_u64 }
            },
            BoomerangTestInstructions::AddRistretto { left_point, right_point } => {
                InstructionView::Add { left: left_point@, right: right_point@ }
            },
            BoomerangTestInstructions::SubtractRistretto { left_point, right_point } => {
                InstructionView::Sub { left: left_point@, right: right_point@ }
            },
            BoomerangTestInstructions::MultiplyRistretto { point, scalar } => {
                InstructionView::Mul { point: point@, scalar: scalar@ }
            },
            BoomerangTestInstructions::MultiscalarMultiplyRistretto { scalars, points } => {
                InstructionView::Msm {
                    scalars: scalar_views(scalars@),
                    points: point_views(points@),
                }
            },
        }
    }
}

/// The 32-byte chunks of `input` starting at `base`: chunk `i` is the
/// subrange at offset `base + 32·i`.
pub open spec fn spec_chunks32(input: Seq<u8>, base: int, count: int) -> Seq<Seq<u8>> {
    Seq::new(count as nat, |i: int| input.subrange(base + 32 * i, base + 32 * i + 32))
}

/// The instruction encoded by `input`, if any: a tag byte followed by the
/// variant's fields in the exact wire layout that `pack` writes.
pub open spec fn spec_unpack(input: Seq<u8>) -> Option<InstructionView> {
    if input.len() < 1 {
        None
    } else if input[0] == 0 {
        spec_unpack_transcript(input)
    } else if input[0] == 1 || input[0] == 2 {
        spec_unpack_point_pair(input)
    } else if input[0] == 3 {
        spec_unpack_mul(input)
    } else if input[0] == 4 {
        spec_unpack_msm(input)
    } else {
        None
    }
}

/// Tag 0: a 4-byte little-endian message length, the message, and an
/// 8-byte little-endian number; nothing may follow.
pub open spec fn spec_unpack_transcript(input: Seq<u8>) -> Option<InstructionView> {
    if input.len() < 5 {
        None
    } else {
        let msg_len = spec_u32_from_le_bytes(input.subrange(1, 5)) as int;
        if input.len() == 13 + msg_len {
            Some(
                InstructionView::Transcript {
                    message: input.subrange(5, 5 + msg_len),
                    value: spec_u64_from_le_bytes(input.subrange(5 + msg_len, 13 + msg_len)),
                },
            )
        } else {
            None
        }
    }
}

/// Tags 1 and 2: two 32-byte group-element encodings, both of which must
/// decode.
pub open spec fn spec_unpack_point_pair(input: Seq<u8>) -> Option<InstructionView> {
    if input.len() == 65 && is_valid_point(input.subrange(1, 33)) && is_valid_point(
        input.subrange(33, 65),
    ) {
        if input[0] == 1 {
            Some(
                InstructionView::Add {
                    left: input.subrange(1, 33),
                    right: input.subrange(33, 65),
                },
            )
        } else {
            Some(
                InstructionView::Sub {
                    left: input.subrange(1, 33),
                    right: input.subrange(33, 65),
                },
            )
        }
    } else {
        None
    }
}

/// Tag 3: a 32-byte group-element encoding and a 32-byte canonical scalar
/// encoding.
pub open spec fn spec_unpack_mul(input: Seq<u8>) -> Option<InstructionView> {
    if input.len() == 65 && is_valid_point(input.subrange(1, 33)) && is_canonical_scalar(
        input.subrange(33, 65),
    ) {
        Some(
            InstructionView::Mul { point: input.subrange(1, 33), scalar: input.subrange(33, 65) },
        )
    } else {
        None
    }
}

/// Tag 4: a 4-byte little-endian scalar count, that many 32-byte canonical
/// scalar encodings, a 4-byte little-endian point count, and exactly that
/// many 32-byte group-element encodings.
pub open spec fn spec_unpack_msm(input: Seq<u8>) -> Option<InstructionView> {
    if input.len() < 5 {
        None
    } else {
        let slen = spec_u32_from_le_bytes(input.subrange(1, 5)) as int;
        if input.len() < 5 + 32 * slen + 4 {
            None
        } else {
            let pbase = 5 + 32 * slen;
            let plen = spec_u32_from_le_bytes(input.subrange(pbase, pbase + 4)) as int;
            if input.len() == pbase + 4 + 32 * plen {
                let scalars = spec_chunks32(input, 5, slen);
                let points = spec_chunks32(input, pbase + 4, plen);
                if all_canonical_scalars(scalars) && all_valid_points(points) {
                    Some(InstructionView::Msm { scalars, points })
                } else {
                    None
                }
            } else {
                None
            }
        }
    }
}

/// The flat concatenation of a sequence of byte strings.
pub open spec fn spec_concat_prefix(s: Seq<Seq<u8>>, n: nat) -> Seq<u8>
    decreases n,
{
    if n == 0 {
        Seq::<u8>::empty()
    } else {
        spec_concat_prefix(s, (n - 1) as nat) + s[n - 1]
    }
}

/// The wire bytes of an instruction: its tag byte followed by its fields,
/// lengths written as 4-byte little-endian counts.
pub open spec fn spec_pack(v: InstructionView) -> Seq<u8> {
    match v {
        InstructionView::Transcript { message, value } => seq![0u8] + spec_u32_to_le_bytes(
            message.len() as u32,
        ) + message + spec_u64_to_le_bytes(value),
        InstructionView::Add { left, right } => seq![1u8] + left + right,
        InstructionView::Sub { left, right } => seq![2u8] + left + right,
        InstructionView::Mul { point, scalar } => seq![3u8] + point + scalar,
        InstructionView::Msm { scalars, points } => seq![4u8] + spec_u32_to_le_bytes(
            scalars.len() as u32,
        ) + spec_concat_prefix(scalars, scalars.len()) + spec_u32_to_le_bytes(points.len() as u32)
            + spec_concat_prefix(points, points.len()),
    }
}

/// Copy `len` bytes of `data` starting at `start`.
fn slice_range(data: &[u8], start: usize, len: usize) -> (r: Vec<u8>)
    requires
        start + len <= data@.len(),
    ensures
        r@ == data@.subrange(start as int, start + len),
{
    let n = data.len();
    let mut out: Vec<u8> = Vec::new();
    let mut i: usize = 0;
    while i < len
        invariant
            i <= len,
            n == data@.len(),
            start + len <= n,
            out@ == data@.subrange(start as int, start + i),
        decreases len - i,
    {
        proof {
            assert(data@.subrange(start as int, start + i + 1) =~= data@.subrange(
                start as int,
                start + i,
            ).push(data@[start + i]));
        }
        out.push(data[start + i]);
        i += 1;
    }
    out
}

impl BoomerangTestInstructions {
    /// Parse an instruction from its wire bytes; any malformed input is
    /// rejected with `InvalidInstructionData`.
    pub fn unpack(input: &[u8]) -> (r: Result<Self, CryptoError>)
        ensures
            r is Ok <==> spec_unpack(input@) is Some,
            r matches Ok(ins) ==> spec_unpack(input@) == Some(ins@),
            r matches Err(e) ==> e == CryptoError::InvalidInstructionData,
    {
        if input.len() < 1 {
            return Err(CryptoError::InvalidInstructionData);
        }
        let tag = input[0];
        if tag == 0 {
            Self::unpack_transcript(input)
        } else if tag == 1 || tag == 2 {
            Self::unpack_point_pair(input)
        } else if tag == 3 {
            Self::unpack_mul(input)
        } else if tag == 4 {
            Self::unpack_msm(input)
        } else {
            Err(CryptoError::InvalidInstructionData)
        }
    }

    fn unpack_transcript(input: &[u8]) -> (r: Result<Self, CryptoError>)
        requires
            input@.len() >= 1,
            input@[0] == 0,
        ensures
            r is Ok <==> spec_unpack(input@) is Some,
            r matches Ok(ins) ==> spec_unpack(input@) == Some(ins@),
            r matches Err(e) ==> e == CryptoError::InvalidInstructionData,
    {
        if input.len() < 5 {
            return Err(CryptoError::InvalidInstructionData);
        }
        let len_bytes = slice_range(input, 1, 4);
        let msg_len = u32_from_le_bytes(len_bytes.as_slice()) as usize;
        if input.len() < 13 || input.len() - 13 != msg_len {
            return Err(CryptoError::InvalidInstructionData);
        }
        let message = slice_range(input, 5, msg_len);
        let val_bytes = slice_range(input, 5 + msg_len, 8);
        let value = u64_from_le_bytes(val_bytes.as_slice());
        let ins = BoomerangTestInstructions::Transcript { message, append_u64: value };
        proof {
            assert(spec_unpack(input@) == Some(ins@));
        }
        Ok(ins)
    }

    fn unpack_point_pair(input: &[u8]) -> (r: Result<Self, CryptoError>)
        requires
            input@.len() >= 1,
            input@[0] == 1 || input@[0] == 2,
        ensures
            r is Ok <==> spec_unpack(input@) is Some,
            r matches Ok(ins) ==> spec_unpack(input@) == Some(ins@),
            r matches Err(e) ==> e == CryptoError::InvalidInstructionData,
    {
        if input.len() != 65 {
            return Err(CryptoError::InvalidInstructionData);
        }
        let left_bytes = slice_range(input, 1, 32);
        let right_bytes = slice_range(input, 33, 32);
        let left_point = match RistrettoPoint::from_bytes(left_bytes.as_slice()) {
            Ok(p) => p,
            Err(_) => {
                return Err(CryptoError::InvalidInstructionData);
            },
        };
        let right_point = match RistrettoPoint::from_bytes(right_bytes.as_slice()) {
            Ok(p) => p,
            Err(_) => {
                return Err(CryptoError::InvalidInstructionData);
            },
        };
        let ins = if input[0] == 1 {
            BoomerangTestInstructions::AddRistretto { left_point, right_point }
        } else {
            BoomerangTestInstructions::SubtractRistretto { left_point, right_point }
        };
        proof {
            assert(spec_unpack(input@) == Some(ins@));
        }
        Ok(ins)
    }

    fn unpack_mul(input: &[u8]) -> (r: Result<Self, CryptoError>)
        requires
            input@.len() >= 1,
            input@[0] == 3,
        ensures
            r is Ok <==> spec_unpack(input@) is Some,
            r matches Ok(ins) ==> spec_unpack(input@) == Some(ins@),
            r matches Err(e) ==> e == CryptoError::InvalidInstructionData,
    {
        if input.len() != 65 {
            return Err(CryptoError::InvalidInstructionData);
        }
        let point_bytes = slice_range(input, 1, 32);
        let scalar_bytes = slice_range(input, 33, 32);
        let point = match RistrettoPoint::from_bytes(point_bytes.as_slice()) {
            Ok(p) => p,
            Err(_) => {
                return Err(CryptoError::InvalidInstructionData);
            },
        };
        let scalar = match Scalar::from_bytes(scalar_bytes.as_slice()) {
            Ok(s) => s,
            Err(_) => {
                return Err(CryptoError::InvalidInstructionData);
            },
        };
        let ins = BoomerangTestInstructions::MultiplyRistretto { point, scalar };
        proof {
            assert(spec_unpack(input@) == Some(ins@));
        }
        Ok(ins)
    }

    fn unpack_msm(input: &[u8]) -> (r: Result<Self, CryptoError>)
        requires
            input@.len() >= 1,
            input@[0] == 4,
        ensures
            r is Ok <==> spec_unpack(input@) is Some,
            r matches Ok(ins) ==> spec_unpack(input@) == Some(ins@),
            r matches Err(e) ==> e == CryptoError::InvalidInstructionData,
    {
        if input.len() < 5 {
            return Err(CryptoError::InvalidInstructionData);
        }
        let slen_bytes = slice_range(input, 1, 4);
        let slen = u32_from_le_bytes(slen_bytes.as_slice()) as usize;
        let ghost gslen = slen as int;

        let mut scalars: Vec<Scalar> = Vec::new();
        let mut c: usize = 0;
        let mut off: usize = 5;
        while c < slen
            invariant
                input@.len() >= 1,
                input@[0] == 4,
                c <= slen,
                gslen == slen as int,
                off == 5 + 32 * c,
                off <= input@.len(),
                gslen == spec_u32_from_le_bytes(input@.subrange(1, 5)) as int,
                scalars@.len() == c,
                forall|j: int|
                    0 <= j < c ==> (#[trigger] scalars@[j])@ == input@.subrange(
                        5 + 32 * j,
                        5 + 32 * j + 32,
                    ),
                forall|j: int| 0 <= j < c ==> is_canonical_scalar(scalars@[j]@),
            decreases slen - c,
        {
            if input.len() - off < 32 {
                proof {
                    assert(32 * (c + 1) <= 32 * gslen);
                    assert(spec_unpack(input@) is None);
                }
                return Err(CryptoError::InvalidInstructionData);
            }
            let chunk = slice_range(input, off, 32);
            let s = match Scalar::from_bytes(chunk.as_slice()) {
                Ok(s) => s,
                Err(_) => {
                    proof {
                        let sv = spec_chunks32(input@, 5, gslen);
                        assert(sv[c as int] == input@.subrange(5 + 32 * c, 5 + 32 * c + 32));
                        assert(!all_canonical_scalars(sv));
                    }
                    return Err(CryptoError::InvalidInstructionData);
                },
            };
            scalars.push(s);
            c += 1;
            off += 32;
        }

        if input.len() - off < 4 {
            return Err(CryptoError::InvalidInstructionData);
        }
        let plen_bytes = slice_range(input, off, 4);
        let plen = u32_from_le_bytes(plen_bytes.as_slice()) as usize;
        let ghost gplen = plen as int;
        let ghost pbase = off + 4;

        let mut points: Vec<RistrettoPoint> = Vec::new();
        let mut pc: usize = 0;
        let mut poff: usize = off + 4;
        while pc < plen
            invariant
                input@.len() >= 1,
                input@[0] == 4,
                pc <= plen,
                gplen == plen as int,
                pbase == 5 + 32 * gslen + 4,
                gslen == slen as int,
                poff == pbase + 32 * pc,
                poff <= input@.len(),
                gslen == spec_u32_from_le_bytes(input@.subrange(1, 5)) as int,
                gplen == spec_u32_from_le_bytes(
                    input@.subrange(pbase - 4, pbase as int),
                ) as int,
                scalars@.len() == slen,
                forall|j: int|
                    0 <= j < slen ==> (#[trigger] scalars@[j])@ == input@.subrange(
                        5 + 32 * j,
                        5 + 32 * j + 32,
                    ),
                forall|j: int| 0 <= j < slen ==> is_canonical_scalar(scalars@[j]@),
                points@.len() == pc,
                forall|j: int|
                    0 <= j < pc ==> (#[trigger] points@[j])@ == input@.subrange(
                        pbase + 32 * j,
                        pbase + 32 * j + 32,
                    ),
                forall|j: int| 0 <= j < pc ==> is_valid_point(points@[j]@),
            decreases plen - pc,
        {
            if input.len() - poff < 32 {
                proof {
                    assert(32 * (pc + 1) <= 32 * gplen);
                    assert(spec_unpack(input@) is None);
                }
                return Err(CryptoError::InvalidInstructionData);
            }
            let chunk = slice_range(input, poff, 32);
            let p = match RistrettoPoint::from_bytes(chunk.as_slice()) {
                Ok(p) => p,
                Err(_) => {
                    proof {
                        let pv = spec_chunks32(input@, pbase, gplen);
                        assert(pv[pc as int] == input@.subrange(
                            pbase + 32 * pc,
                            pbase + 32 * pc + 32,
                        ));
                        assert(!all_valid_points(pv));
                    }
                    return Err(CryptoError::InvalidInstructionData);
                },
            };
            points.push(p);
            pc += 1;
            poff += 32;
        }

        if input.len() != poff {
            return Err(CryptoError::InvalidInstructionData);
        }
        let ins = BoomerangTestInstructions::MultiscalarMultiplyRistretto { scalars, points };
        proof {
            assert(scalar_views(scalars@) =~= spec_chunks32(input@, 5, gslen));
            assert(point_views(points@) =~= spec_chunks32(input@, pbase, gplen));
            assert(spec_unpack(input@) == Some(ins@));
        }
        Ok(ins)
    }

    /// Serialize the instruction to its wire bytes.  Every field count
    /// must fit in a `u32`.
    pub fn pack(&self) -> (r: Vec<u8>)
        requires
            ({
                match *self {
                    BoomerangTestInstructions::Transcript { ref message, .. } => message@.len()
                        <= u32::MAX,
                    BoomerangTestInstructions::MultiscalarMultiplyRistretto {
                        ref scalars,
                        ref points,
                    } => scalars@.len() <= u32::MAX && points@.len() <= u32::MAX,
                    _ => true,
                }
            }),
        ensures
            r@ == spec_pack(self@),
    {
        let mut buf: Vec<u8> = Vec::new();
        match self {
            BoomerangTestInstructions::Transcript { message, append_u64 } => {
                buf.push(0);
                let len_bytes = encode_usize_as_u32(message.len());
                append_bytes(&mut buf, len_bytes.as_slice());
                append_bytes(&mut buf, message.as_slice());
                let val_bytes = crate::transcript::encode_u64(*append_u64);
                append_bytes(&mut buf, val_bytes.as_slice());
                proof {
                    assert(buf@ =~= spec_pack(self@));
                }
            },
            BoomerangTestInstructions::AddRistretto { left_point, right_point } => {
                buf.push(1);
                let l = left_point.to_bytes();
                append_bytes(&mut buf, l.as_slice());
                let r = right_point.to_bytes();
                append_bytes(&mut buf, r.as_slice());
                proof {
                    assert(buf@ =~= spec_pack(self@));
                }
            },
            BoomerangTestInstructions::SubtractRistretto { left_point, right_point } => {
                buf.push(2);
                let l = left_point.to_bytes();
                append_bytes(&mut buf, l.as_slice());
                let r = right_point.to_bytes();
                append_bytes(&mut buf, r.as_slice());
                proof {
                    assert(buf@ =~= spec_pack(self@));
                }
            },
            BoomerangTestInstructions::MultiplyRistretto { point, scalar } => {
                buf.push(3);
                let p = point.to_bytes();
                append_bytes(&mut buf, p.as_slice());
                let s = scalar.to_bytes();
                append_bytes(&mut buf, s.as_slice());
                proof {
                    assert(buf@ =~= spec_pack(self@));
                }
            },
            BoomerangTestInstructions::MultiscalarMultiplyRistretto { scalars, points } => {
                buf.push(4);
                let slen_bytes = encode_usize_as_u32(scalars.len());
                append_bytes(&mut buf, slen_bytes.as_slice());
                let ghost sv = scalar_views(scalars@);
                let ghost base = buf@;
                let mut i: usize = 0;
                while i < scalars.len()
                    invariant
                        i <= scalars@.len(),
                        sv == scalar_views(scalars@),
                        buf@ == base + spec_concat_prefix(sv, i as nat),
                    decreases scalars@.len() - i,
                {
                    let b = scalars[i].to_bytes();
                    append_bytes(&mut buf, b.as_slice());
                    proof {
                        assert(sv[i as int] == scalars@[i as int]@);
                    }
                    i += 1;
                }
                let plen_bytes = encode_usize_as_u32(points.len());
                append_bytes(&mut buf, plen_bytes.as_slice());
                let ghost pv = point_views(points@);
                let ghost base2 = buf@;
                let mut j: usize = 0;
                while j < points.len()
                    invariant
                        j <= points@.len(),
                        pv == point_views(points@),
                        buf@ == base2 + spec_concat_prefix(pv, j as nat),
                    decreases points@.len() - j,
                {
                    let b = points[j].to_bytes();
                    append_bytes(&mut buf, b.as_slice());
                    proof {
                        assert(pv[j as int] == points@[j as int]@);
                    }
                    j += 1;
                }
                proof {
                    assert(buf@ =~= spec_pack(self@));
                }
            },
        }
        buf
    }

    /// Carry the instruction out against the library, returning the 32
    /// bytes it yields: the transcript challenge, or the encoding of the
    /// computed group element.
    pub fn execute(&self) -> (r: Result<[u8; 32], CryptoError>)
        requires
            ({
                match *self {
                    BoomerangTestInstructions::Transcript { ref message, .. } => message@.len()
                        <= u32::MAX,
                    _ => true,
                }
            }),
        ensures
            ({
                match self@ {
                    InstructionView::Transcript { message, value } => r matches Ok(c) && c@
                        == spec_squeeze_stream(
                        spec_challenge_absorbed(
                            spec_append_message(
                                spec_append_message(
                                    spec_transcript_new(spec_example_label()),
                                    spec_sample_label(),
                                    message,
                                ),
                                spec_sample_label(),
                                spec_u64_to_le_bytes(value),
                            ),
                            spec_sample_challenge(),
                            32,
                        ),
                        1,
                    ),
                    InstructionView::Add { left, right } => (r is Ok <==> (is_valid_point(left)
                        && is_valid_point(right))) && (r matches Ok(c) ==> c@ == pt_add_of(
                        left,
                        right,
                    )),
                    InstructionView::Sub { left, right } => (r is Ok <==> (is_valid_point(left)
                        && is_valid_point(right))) && (r matches Ok(c) ==> c@ == pt_sub_of(
                        left,
                        right,
                    )),
                    InstructionView::Mul { point, scalar } => (r is Ok <==> (is_valid_point(point)
                        && is_canonical_scalar(scalar))) && (r matches Ok(c) ==> c@ == pt_mul_of(
                        point,
                        scalar,
                    )),
                    InstructionView::Msm { scalars, points } => (r is Ok <==> (scalars.len()
                        == points.len() && all_canonical_scalars(scalars) && all_valid_points(
                        points,
                    ))) && (r matches Ok(c) ==> c@ == spec_msm(scalars, points)),
                }
            }),
    {
        match self {
            BoomerangTestInstructions::Transcript { message, append_u64 } => {
                let example_label: &'static [u8; 13] = &[
                    101, 120, 97, 109, 112, 108, 101, 32, 108, 97, 98, 101, 108,
                ];
                let sample_label: &'static [u8; 12] = &[
                    115, 97, 109, 112, 108, 101, 32, 108, 97, 98, 101, 108,
                ];
                let sample_challenge: &'static [u8; 16] = &[
                    115, 97, 109, 112, 108, 101, 32, 99, 104, 97, 108, 108, 101, 110, 103, 101,
                ];
                proof {
                    assert(example_label@ =~= spec_example_label());
                    assert(sample_label@ =~= spec_sample_label());
                    assert(sample_challenge@ =~= spec_sample_challenge());
                }
                let mut transcript = Transcript::new(example_label.as_slice());
                transcript.append_message(sample_label.as_slice(), message.as_slice());
                transcript.append_u64(sample_label.as_slice(), *append_u64);
                let challenge = transcript.challenge_bytes(sample_challenge.as_slice(), 32);
                let out = read32(challenge.as_slice());
                proof {
                    assert(out@ =~= challenge@);
                }
                Ok(out)
            },
            BoomerangTestInstructions::AddRistretto { left_point, right_point } => {
                match left_point.add(right_point) {
                    Ok(p) => Ok(p.to_bytes()),
                    Err(e) => Err(e),
                }
            },
            BoomerangTestInstructions::SubtractRistretto { left_point, right_point } => {
                match left_point.subtract(right_point) {
                    Ok(p) => Ok(p.to_bytes()),
                    Err(e) => Err(e),
                }
            },
            BoomerangTestInstructions::MultiplyRistretto { point, scalar } => {
                match point.multiply(scalar) {
                    Ok(p) => Ok(p.to_bytes()),
                    Err(e) => Err(e),
                }
            },
            BoomerangTestInstructions::MultiscalarMultiplyRistretto { scalars, points } => {
                match RistrettoPoint::multiscalar_multiply(scalars.as_slice(), points.as_slice()) {
                    Ok(p) => Ok(p.to_bytes()),
                    Err(e) => Err(e),
                }
            },
        }
    }
}

/// Whether an instruction's fields can be carried on the wire: counts fit
/// in a `u32`, and every scalar or point field is a well-formed 32-byte
/// encoding of its kind.
pub open spec fn spec_wf_instruction(v: InstructionView) -> bool {
    match v {
        InstructionView::Transcript { message, value } => message.len() <= u32::MAX,
        InstructionView::Add { left, right } => left.len() == 32 && right.len() == 32
            && is_valid_point(left) && is_valid_point(right),
        InstructionView::Sub { left, right } => left.len() == 32 && right.len() == 32
            && is_valid_point(left) && is_valid_point(right),
        InstructionView::Mul { point, scalar } => point.len() == 32 && scalar.len() == 32
            && is_valid_point(point) && is_canonical_scalar(scalar),
        InstructionView::Msm { scalars, points } => scalars.len() <= u32::MAX && points.len()
            <= u32::MAX && (forall|i: int|
            0 <= i < scalars.len() ==> (#[trigger] scalars[i]).len() == 32) && (forall|i: int|
            0 <= i < points.len() ==> (#[trigger] points[i]).len() == 32) && all_canonical_scalars(
            scalars,
        ) && all_valid_points(points),
    }
}

/// The concatenation of `n` 32-byte strings is `32·n` bytes long and its
/// `i`-th 32-byte window is exactly the `i`-th string.
proof fn lemma_concat_chunks(s: Seq<Seq<u8>>, n: nat)
    requires
        n <= s.len(),
        forall|i: int| 0 <= i < s.len() ==> (#[trigger] s[i]).len() == 32,
    ensures
        spec_concat_prefix(s, n).len() == 32 * n,
        forall|i: int|
            0 <= i < n ==> #[trigger] spec_concat_prefix(s, n).subrange(32 * i, 32 * i + 32)
                == s[i],
    decreases n,
{
    if n > 0 {
        lemma_concat_chunks(s, (n - 1) as nat);
        let shorter = spec_concat_prefix(s, (n - 1) as nat);
        let full = spec_concat_prefix(s, n);
        assert(full == shorter + s[n - 1]);
        assert forall|i: int| 0 <= i < n implies #[trigger] full.subrange(32 * i, 32 * i + 32)
            == s[i] by {
            if i < n - 1 {
                assert(full.subrange(32 * i, 32 * i + 32) =~= shorter.subrange(
                    32 * i,
                    32 * i + 32,
                ));
            } else {
                assert(full.subrange(32 * i, 32 * i + 32) =~= s[i]);
            }
        }
    }
}

/// Packing an instruction and parsing the bytes back yields the same
/// instruction, for every instruction whose fields are well-formed wire
/// values.
pub proof fn lemma_pack_unpack_round_trip(v: InstructionView)
    requires
        spec_wf_instruction(v),
    ensures
        spec_unpack(spec_pack(v)) == Some(v),
{
    lemma_auto_spec_u32_to_from_le_bytes();
    lemma_auto_spec_u64_to_from_le_bytes();
    let packed = spec_pack(v);
    match v {
        InstructionView::Transcript { message, value } => {
            let msg_len = message.len() as int;
            assert(packed.len() == 13 + msg_len);
            assert(packed[0] == 0);
            assert(packed.subrange(1, 5) =~= spec_u32_to_le_bytes(message.len() as u32));
            assert(packed.subrange(5, 5 + msg_len) =~= message);
            assert(packed.subrange(5 + msg_len, 13 + msg_len) =~= spec_u64_to_le_bytes(value));
        },
        InstructionView::Add { left, right } => {
            assert(packed.len() == 65);
            assert(packed[0] == 1);
            assert(packed.subrange(1, 33) =~= left);
            assert(packed.subrange(33, 65) =~= right);
        },
        InstructionView::Sub { left, right } => {
            assert(packed.len() == 65);
            assert(packed[0] == 2);
            assert(packed.subrange(1, 33) =~= left);
            assert(packed.subrange(33, 65) =~= right);
        },
        InstructionView::Mul { point, scalar } => {
            assert(packed.len() == 65);
            assert(packed[0] == 3);
            assert(packed.subrange(1, 33) =~= point);
            assert(packed.subrange(33, 65) =~= scalar);
        },
        InstructionView::Msm { scalars, points } => {
            let slen = scalars.len() as int;
            let plen = points.len() as int;
            lemma_concat_chunks(scalars, scalars.len());
            lemma_concat_chunks(points, points.len());
            let concat_s = spec_concat_prefix(scalars, scalars.len());
            let concat_p = spec_concat_prefix(points, points.len());
            let pbase = 5 + 32 * slen;
            assert(packed.len() == pbase + 4 + 32 * plen);
            assert(packed[0] == 4);
            assert(packed.subrange(1, 5) =~= spec_u32_to_le_bytes(scalars.len() as u32));
            assert(packed.subrange(pbase, pbase + 4) =~= spec_u32_to_le_bytes(
                points.len() as u32,
            ));
            assert forall|i: int| 0 <= i < slen implies #[trigger] packed.subrange(
                5 + 32 * i,
                5 + 32 * i + 32,
            ) == scalars[i] by {
                assert(packed.subrange(5 + 32 * i, 5 + 32 * i + 32) =~= concat_s.subrange(
                    32 * i,
                    32 * i + 32,
                ));
            }
            assert forall|i: int| 0 <= i < plen implies #[trigger] packed.subrange(
                pbase + 4 + 32 * i,
                pbase + 4 + 32 * i + 32,
            ) == points[i] by {
                assert(packed.subrange(pbase + 4 + 32 * i, pbase + 4 + 32 * i + 32)
                    =~= concat_p.subrange(32 * i, 32 * i + 32));
            }
            assert(spec_chunks32(packed, 5, slen) =~= scalars);
            assert(spec_chunks32(packed, pbase + 4, plen) =~= points);
        },
    }
}

/// The ASCII bytes of "example label", the exercise protocol label.
pub open spec fn spec_example_label() -> Seq<u8> {
    seq![101u8, 120, 97, 109, 112, 108, 101, 32, 108, 97, 98, 101, 108]
}

/// The ASCII bytes of "sample label".
pub open spec fn spec_sample_label() -> Seq<u8> {
    seq![115u8, 97, 109, 112, 108, 101, 32, 108, 97, 98, 101, 108]
}

/// The ASCII bytes of "sample challenge".
pub open spec fn spec_sample_challenge() -> Seq<u8> {
    seq![115u8, 97, 109, 112, 108, 101, 32, 99, 104, 97, 108, 108, 101, 110, 103, 101]
}

} // verus!
