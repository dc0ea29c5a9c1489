use bulletproofs_core::ristretto::{
    ristretto_basepoint_compressed, ristretto_basepoint_point, RistrettoPoint,
};
use bulletproofs_core::scalar::Scalar;
use bulletproofs_core::CryptoError;

fn sc(x: u64) -> Scalar {
    let mut b = [0u8; 32];
    b[..8].copy_from_slice(&x.to_le_bytes());
    Scalar::from_bytes(&b).unwrap()
}

fn pt(k: u64) -> RistrettoPoint {
    ristretto_basepoint_point().multiply(&sc(k)).unwrap()
}

#[test]
fn scalar_arithmetic_exact() {
    let two = sc(2);
    let three = sc(3);
    let five = two.add_scalar(three).unwrap();
    let mut expected = [0u8; 32];
    expected[0] = 5;
    assert_eq!(five.to_bytes(), expected);

    let six = two.multiply_scalar(three).unwrap();
    expected[0] = 6;
    assert_eq!(six.to_bytes(), expected);

    let diff = five.subtract_scalar(three).unwrap();
    expected[0] = 2;
    assert_eq!(diff.to_bytes(), expected);

    assert_eq!(Scalar::zero().to_bytes(), [0u8; 32]);
}

#[test]
fn scalar_from_bytes_errors() {
    assert_eq!(
        Scalar::from_bytes(&[0u8; 31]),
        Err(CryptoError::InvalidLength)
    );
    // 32 bytes of 0xff exceed the group order: not canonical.
    assert_eq!(
        Scalar::from_bytes(&[0xffu8; 32]),
        Err(CryptoError::InvalidEncoding)
    );
    let s = Scalar::from_bytes(&[0u8; 32]).unwrap();
    assert_eq!(s.to_bytes(), [0u8; 32]);
}

#[test]
fn point_from_bytes_errors() {
    assert_eq!(
        RistrettoPoint::from_bytes(&[0u8; 33]).err(),
        Some(CryptoError::InvalidLength)
    );
    assert_eq!(
        RistrettoPoint::from_bytes(&[0xffu8; 32]).err(),
        Some(CryptoError::InvalidEncoding)
    );
}

#[test]
fn basepoint_has_published_encoding() {
    let expected: [u8; 32] = [
        0xe2, 0xf2, 0xae, 0x0a, 0x6a, 0xbc, 0x4e, 0x71, 0xa8, 0x84, 0xa9, 0x61, 0xc5, 0x00, 0x51,
        0x5f, 0x58, 0xe3, 0x0b, 0x6a, 0xa5, 0x82, 0xdd, 0x8d, 0xb6, 0xa6, 0x59, 0x45, 0xe0, 0x8d,
        0x2d, 0x76,
    ];
    assert_eq!(ristretto_basepoint_point().to_bytes(), expected);
    assert_eq!(ristretto_basepoint_compressed().to_bytes(), expected);
}

#[test]
fn point_bytes_round_trip() {
    let p = pt(7);
    let q = RistrettoPoint::from_bytes(&p.to_bytes()).unwrap();
    assert_eq!(p.to_bytes(), q.to_bytes());
}

#[test]
fn point_add_subtract_inverse() {
    let a = pt(11);
    let b = pt(17);
    let sum = a.add(&b).unwrap();
    assert_ne!(sum.to_bytes(), a.to_bytes());
    let back = sum.subtract(&b).unwrap();
    assert_eq!(back.to_bytes(), a.to_bytes());
}

#[test]
fn point_multiply_matches_addition() {
    let a = pt(9);
    let doubled = a.add(&a).unwrap();
    let twice = a.multiply(&sc(2)).unwrap();
    assert_eq!(doubled.to_bytes(), twice.to_bytes());
    let unchanged = a.multiply(&sc(1)).unwrap();
    assert_eq!(unchanged.to_bytes(), a.to_bytes());
}

#[test]
fn multiscalar_multiply_matches_single_operations() {
    // s1·P1 + s2·P2 computed in one multiscalar call equals the sum of the
    // two single scalar multiples.
    let s1 = sc(5);
    let s2 = sc(12);
    let p1 = pt(3);
    let p2 = pt(8);
    let combined =
        RistrettoPoint::multiscalar_multiply(&[s1, s2], &[p1, p2]).unwrap();
    let separate = p1
        .multiply(&s1)
        .unwrap()
        .add(&p2.multiply(&s2).unwrap())
        .unwrap();
    assert_eq!(combined.to_bytes(), separate.to_bytes());
}

#[test]
fn multiscalar_multiply_length_mismatch() {
    let r = RistrettoPoint::multiscalar_multiply(&[sc(1)], &[pt(1), pt(2)]);
    assert_eq!(r.err(), Some(CryptoError::LengthMismatch));
}

#[test]
fn hash_from_bytes_is_deterministic_and_input_dependent() {
    let a = RistrettoPoint::hash_from_bytes(b"domain one");
    let b = RistrettoPoint::hash_from_bytes(b"domain one");
    let c = RistrettoPoint::hash_from_bytes(b"domain two");
    assert_eq!(a.to_bytes(), b.to_bytes());
    assert_ne!(a.to_bytes(), c.to_bytes());
    // The output is a valid group element, not the input handed back.
    assert!(RistrettoPoint::from_bytes(&a.to_bytes()).is_ok());
}
