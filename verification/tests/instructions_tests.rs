use bulletproofs_core::instructions::BoomerangTestInstructions;
use bulletproofs_core::ristretto::RistrettoPoint;
use bulletproofs_core::scalar::Scalar;
use bulletproofs_core::transcript::Transcript;
use bulletproofs_core::CryptoError;

const LEFT_POINT: [u8; 32] = [
    208, 165, 125, 204, 2, 100, 218, 17, 170, 194, 23, 9, 102, 156, 134, 136, 217, 190, 98, 34,
    183, 194, 228, 153, 92, 11, 108, 103, 28, 57, 88, 15,
];
const RIGHT_POINT: [u8; 32] = [
    208, 241, 72, 163, 73, 53, 32, 174, 54, 194, 71, 8, 70, 181, 244, 199, 93, 147, 99, 231, 162,
    127, 25, 40, 39, 19, 140, 132, 112, 212, 145, 108,
];
const SCALAR_A: [u8; 32] = [
    8, 161, 219, 155, 192, 137, 153, 26, 27, 40, 30, 17, 124, 194, 26, 41, 32, 7, 161, 45, 212,
    198, 212, 81, 133, 185, 164, 85, 95, 232, 106, 10,
];
const SCALAR_B: [u8; 32] = [
    135, 207, 106, 208, 107, 127, 46, 82, 66, 22, 136, 125, 105, 62, 69, 34, 213, 210, 17, 196,
    120, 114, 238, 237, 149, 170, 5, 243, 54, 77, 172, 12,
];
const POINT_X: [u8; 32] = [
    130, 35, 97, 25, 18, 199, 33, 239, 85, 143, 119, 111, 49, 51, 224, 40, 167, 185, 240, 179, 25,
    194, 213, 41, 14, 155, 104, 18, 181, 197, 15, 112,
];
const POINT_Y: [u8; 32] = [
    152, 156, 155, 197, 152, 232, 92, 206, 219, 159, 193, 134, 121, 128, 139, 36, 56, 191, 51,
    143, 72, 204, 87, 76, 110, 124, 101, 96, 238, 158, 42, 108,
];

#[test]
fn test_transcript() {
    let test_message = b"test_message".to_vec();
    let test_u64 = 77_u64;

    let ins = BoomerangTestInstructions::Transcript {
        message: test_message.clone(),
        append_u64: test_u64,
    };
    let packed = ins.pack();
    let parsed = BoomerangTestInstructions::unpack(&packed).unwrap();
    assert_eq!(parsed, ins);
    let challenge = parsed.execute().unwrap();

    // The interpreter follows the fixed example protocol exactly.
    let mut transcript = Transcript::new(b"example label");
    transcript.append_message(b"sample label", &test_message);
    transcript.append_u64(b"sample label", test_u64);
    let expected = transcript.challenge_bytes(b"sample challenge", 32);
    assert_eq!(challenge.to_vec(), expected);
}

#[test]
fn test_add_ristretto() {
    let left_point = RistrettoPoint::from_bytes(&LEFT_POINT).unwrap();
    let right_point = RistrettoPoint::from_bytes(&RIGHT_POINT).unwrap();

    let ins = BoomerangTestInstructions::AddRistretto { left_point, right_point };
    let parsed = BoomerangTestInstructions::unpack(&ins.pack()).unwrap();
    assert_eq!(parsed, ins);
    let result = parsed.execute().unwrap();
    assert_eq!(result, left_point.add(&right_point).unwrap().to_bytes());
}

#[test]
fn test_subtract_ristretto() {
    let left_point = RistrettoPoint::from_bytes(&LEFT_POINT).unwrap();
    let right_point = RistrettoPoint::from_bytes(&RIGHT_POINT).unwrap();

    let ins = BoomerangTestInstructions::SubtractRistretto { left_point, right_point };
    let parsed = BoomerangTestInstructions::unpack(&ins.pack()).unwrap();
    assert_eq!(parsed, ins);
    let result = parsed.execute().unwrap();
    assert_eq!(result, left_point.subtract(&right_point).unwrap().to_bytes());
}

#[test]
fn test_multiply_ristretto() {
    let point = RistrettoPoint::from_bytes(&LEFT_POINT).unwrap();
    let scalar = Scalar::from_bytes(&SCALAR_A).unwrap();

    let ins = BoomerangTestInstructions::MultiplyRistretto { point, scalar };
    let parsed = BoomerangTestInstructions::unpack(&ins.pack()).unwrap();
    assert_eq!(parsed, ins);
    let result = parsed.execute().unwrap();
    assert_eq!(result, point.multiply(&scalar).unwrap().to_bytes());
}

#[test]
fn test_multiscalar_multiply_ristretto() {
    let scalar_a = Scalar::from_bytes(&SCALAR_A).unwrap();
    let scalar_b = Scalar::from_bytes(&SCALAR_B).unwrap();
    let point_x = RistrettoPoint::from_bytes(&POINT_X).unwrap();
    let point_y = RistrettoPoint::from_bytes(&POINT_Y).unwrap();

    let scalars = vec![scalar_a, scalar_b];
    let points = vec![point_x, point_y];

    let ins = BoomerangTestInstructions::MultiscalarMultiplyRistretto { scalars, points };
    let parsed = BoomerangTestInstructions::unpack(&ins.pack()).unwrap();
    assert_eq!(parsed, ins);
    let result = parsed.execute().unwrap();
    let expected =
        RistrettoPoint::multiscalar_multiply(&[scalar_a, scalar_b], &[point_x, point_y]).unwrap();
    assert_eq!(result, expected.to_bytes());
}

#[test]
fn pack_transcript_exact_layout() {
    let ins = BoomerangTestInstructions::Transcript { message: vec![1, 2, 3], append_u64: 5 };
    assert_eq!(
        ins.pack(),
        vec![0, 3, 0, 0, 0, 1, 2, 3, 5, 0, 0, 0, 0, 0, 0, 0]
    );
}

#[test]
fn pack_msm_exact_layout() {
    let scalar = Scalar::zero();
    let point = RistrettoPoint::from_bytes(&POINT_X).unwrap();
    let ins = BoomerangTestInstructions::MultiscalarMultiplyRistretto {
        scalars: vec![scalar],
        points: vec![point],
    };
    let mut expected = vec![4, 1, 0, 0, 0];
    expected.extend_from_slice(&scalar.to_bytes());
    expected.extend_from_slice(&[1, 0, 0, 0]);
    expected.extend_from_slice(&point.to_bytes());
    assert_eq!(ins.pack(), expected);
}

#[test]
fn unpack_rejects_malformed_input() {
    // Empty input, unknown tag, truncated bodies, trailing garbage.
    for bad in [
        vec![],
        vec![9],
        vec![0, 1, 0],
        vec![0, 1, 0, 0, 0, 7],
        vec![1, 0, 0],
        vec![4, 2, 0, 0, 0],
    ] {
        assert_eq!(
            BoomerangTestInstructions::unpack(&bad).err(),
            Some(CryptoError::InvalidInstructionData)
        );
    }

    // A point pair whose second encoding is not a group element.
    let mut bytes = vec![1];
    bytes.extend_from_slice(&LEFT_POINT);
    bytes.extend_from_slice(&[0xff; 32]);
    assert_eq!(
        BoomerangTestInstructions::unpack(&bytes).err(),
        Some(CryptoError::InvalidInstructionData)
    );

    // Trailing byte after a complete add instruction.
    let mut long = vec![1];
    long.extend_from_slice(&LEFT_POINT);
    long.extend_from_slice(&RIGHT_POINT);
    long.push(0);
    assert_eq!(
        BoomerangTestInstructions::unpack(&long).err(),
        Some(CryptoError::InvalidInstructionData)
    );
}

#[test]
fn unpack_accepts_empty_vectors() {
    let ins = BoomerangTestInstructions::MultiscalarMultiplyRistretto {
        scalars: vec![],
        points: vec![],
    };
    let packed = ins.pack();
    assert_eq!(packed, vec![4, 0, 0, 0, 0, 0, 0, 0, 0]);
    let parsed = BoomerangTestInstructions::unpack(&packed).unwrap();
    assert_eq!(parsed, ins);
    // The empty multiscalar product is the identity, encoded as 32 zeros.
    assert_eq!(parsed.execute().unwrap(), [0u8; 32]);
}

#[test]
fn execute_transcript_depends_on_message() {
    let a = BoomerangTestInstructions::Transcript { message: vec![1], append_u64: 0 };
    let b = BoomerangTestInstructions::Transcript { message: vec![2], append_u64: 0 };
    assert_ne!(a.execute().unwrap(), b.execute().unwrap());
}

#[test]
fn transcript_instruction_with_empty_message() {
    let ins = BoomerangTestInstructions::Transcript { message: vec![], append_u64: 0 };
    let packed = ins.pack();
    assert_eq!(packed.len(), 13);
    let parsed = BoomerangTestInstructions::unpack(&packed).unwrap();
    assert_eq!(parsed, ins);
    assert!(parsed.execute().is_ok());
}
