use std::collections::HashSet;

use bulletproofs_core::generators::{BulletproofGens, GeneratorsChain, PedersenGens};
use bulletproofs_core::ristretto::RistrettoPoint;
use bulletproofs_core::scalar::Scalar;
use bulletproofs_core::CryptoError;

fn sc(x: u64) -> Scalar {
    let mut b = [0u8; 32];
    b[..8].copy_from_slice(&x.to_le_bytes());
    Scalar::from_bytes(&b).unwrap()
}

#[test]
fn chain_outputs_are_reproducible() {
    let mut c1 = GeneratorsChain::new(b"label");
    let mut c2 = GeneratorsChain::new(b"label");
    for _ in 0..5 {
        assert_eq!(c1.next().to_bytes(), c2.next().to_bytes());
    }
    let mut c3 = GeneratorsChain::new(b"other label");
    let mut c4 = GeneratorsChain::new(b"label");
    assert_ne!(c3.next().to_bytes(), c4.next().to_bytes());
}

#[test]
fn chain_outputs_are_distinct() {
    let mut chain = GeneratorsChain::new(b"distinct");
    let a = chain.next();
    let b = chain.next();
    assert_ne!(a.to_bytes(), b.to_bytes());
}

#[test]
fn fast_forward_equals_discarding() {
    for n in [0usize, 1, 3, 7] {
        let mut skipped = GeneratorsChain::new(b"ff label").fast_forward(n);
        let mut walked = GeneratorsChain::new(b"ff label");
        for _ in 0..n {
            let _ = walked.next();
        }
        assert_eq!(skipped.next().to_bytes(), walked.next().to_bytes());
    }
}

#[test]
fn default_chain_uses_empty_label() {
    let mut d = GeneratorsChain::default();
    let mut e = GeneratorsChain::new(b"");
    assert_eq!(d.next().to_bytes(), e.next().to_bytes());
}

#[test]
fn increase_capacity_is_idempotent_and_monotonic() {
    let mut gens = BulletproofGens::new(4, 2);
    let before = gens.G(4, 2).unwrap();
    let before_h = gens.H(4, 2).unwrap();

    // At or below the current capacity: a no-op.
    gens.increase_capacity(2);
    gens.increase_capacity(4);
    assert_eq!(gens.gens_capacity, 4);
    let unchanged = gens.G(4, 2).unwrap();
    for (a, b) in before.iter().zip(unchanged.iter()) {
        assert_eq!(a.to_bytes(), b.to_bytes());
    }

    // Growing appends, never alters previously issued generators.
    gens.increase_capacity(8);
    assert_eq!(gens.gens_capacity, 8);
    let after = gens.G(4, 2).unwrap();
    let after_h = gens.H(4, 2).unwrap();
    for (a, b) in before.iter().zip(after.iter()) {
        assert_eq!(a.to_bytes(), b.to_bytes());
    }
    for (a, b) in before_h.iter().zip(after_h.iter()) {
        assert_eq!(a.to_bytes(), b.to_bytes());
    }
}

#[test]
fn aggregated_is_party_major() {
    let gens = BulletproofGens::new(2, 2);
    let flat = gens.G(2, 2).unwrap();
    assert_eq!(flat.len(), 4);

    // Party 0's generators come from the chain labelled 'G' + index 0,
    // party 1's from 'G' + index 1, each in stream order.
    let mut chain0 = GeneratorsChain::new(&[b'G', 0, 0, 0, 0]);
    let mut chain1 = GeneratorsChain::new(&[b'G', 1, 0, 0, 0]);
    assert_eq!(flat[0].to_bytes(), chain0.next().to_bytes());
    assert_eq!(flat[1].to_bytes(), chain0.next().to_bytes());
    assert_eq!(flat[2].to_bytes(), chain1.next().to_bytes());
    assert_eq!(flat[3].to_bytes(), chain1.next().to_bytes());

    let flat_h = gens.H(2, 2).unwrap();
    let mut chain_h0 = GeneratorsChain::new(&[b'H', 0, 0, 0, 0]);
    assert_eq!(flat_h[0].to_bytes(), chain_h0.next().to_bytes());
}

#[test]
fn aggregated_rejects_capacity_violations() {
    let gens = BulletproofGens::new(4, 2);
    assert_eq!(gens.G(5, 2).err(), Some(CryptoError::CapacityViolation));
    assert_eq!(gens.G(4, 3).err(), Some(CryptoError::CapacityViolation));
    assert_eq!(gens.H(5, 2).err(), Some(CryptoError::CapacityViolation));
    assert!(gens.G(4, 2).is_ok());
}

#[test]
fn end_to_end_table_of_sixty_four() {
    let gens = BulletproofGens::new(64, 1);
    let g = gens.G(64, 1).unwrap();
    let h = gens.H(64, 1).unwrap();
    assert_eq!(g.len(), 64);
    assert_eq!(h.len(), 64);

    let mut seen: HashSet<[u8; 32]> = HashSet::new();
    for p in g.iter().chain(h.iter()) {
        let bytes = p.to_bytes();
        // Valid group encoding.
        assert!(RistrettoPoint::from_bytes(&bytes).is_ok());
        // All 128 elements pairwise distinct.
        assert!(seen.insert(bytes));
    }
}

#[test]
fn pedersen_default_derives_blinding_base_from_basepoint() {
    let gens = PedersenGens::default();
    let expected = RistrettoPoint::hash_from_bytes(&gens.B.to_bytes());
    assert_eq!(gens.B_blinding.to_bytes(), expected.to_bytes());
    assert_ne!(gens.B.to_bytes(), gens.B_blinding.to_bytes());
}

#[test]
fn commit_is_additively_homomorphic() {
    let gens = PedersenGens::default();
    let (v1, r1) = (sc(13), sc(2000));
    let (v2, r2) = (sc(29), sc(777));
    let c1 = gens.commit(v1, r1).unwrap();
    let c2 = gens.commit(v2, r2).unwrap();
    let lhs = c1.add(&c2).unwrap();
    let rhs = gens
        .commit(v1.add_scalar(v2).unwrap(), r1.add_scalar(r2).unwrap())
        .unwrap();
    assert_eq!(lhs.to_bytes(), rhs.to_bytes());
}

#[test]
fn commit_matches_single_operations() {
    let gens = PedersenGens::default();
    let (v, r) = (sc(42), sc(99));
    let commitment = gens.commit(v, r).unwrap();
    let direct = gens
        .B
        .multiply(&v)
        .unwrap()
        .add(&gens.B_blinding.multiply(&r).unwrap())
        .unwrap();
    assert_eq!(commitment.to_bytes(), direct.to_bytes());
}
