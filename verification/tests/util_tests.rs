use bulletproofs_core::scalar::Scalar;
use bulletproofs_core::util::{add_vec, inner_product, read32, Poly2, VecPoly1};
use bulletproofs_core::CryptoError;

fn sc(x: u64) -> Scalar {
    let mut b = [0u8; 32];
    b[..8].copy_from_slice(&x.to_le_bytes());
    Scalar::from_bytes(&b).unwrap()
}

fn scs(xs: &[u64]) -> Vec<Scalar> {
    xs.iter().map(|&x| sc(x)).collect()
}

/// A plain double-loop inner product over the library's scalar arithmetic.
fn naive_inner_product(a: &[Scalar], b: &[Scalar]) -> Scalar {
    let mut acc = Scalar::zero();
    for i in 0..a.len() {
        let product = a[i].multiply_scalar(b[i]).unwrap();
        acc = acc.add_scalar(product).unwrap();
    }
    acc
}

/// Pseudorandom canonical scalars for exercising vector operations.
fn varied_scalars(n: usize, salt: u64) -> Vec<Scalar> {
    (0..n as u64)
        .map(|i| sc(i.wrapping_mul(0x9e3779b9).wrapping_add(salt) % 1_000_003 + 1))
        .collect()
}

#[test]
fn inner_product_small_exact() {
    // <(1,2,3), (4,5,6)> = 4 + 10 + 18 = 32.
    let a = scs(&[1, 2, 3]);
    let b = scs(&[4, 5, 6]);
    let r = inner_product(&a, &b).unwrap();
    assert_eq!(r.to_bytes(), sc(32).to_bytes());
}

#[test]
fn inner_product_matches_naive_for_various_lengths() {
    for n in [0usize, 1, 64] {
        let a = varied_scalars(n, 17);
        let b = varied_scalars(n, 91);
        let fast = inner_product(&a, &b).unwrap();
        let slow = naive_inner_product(&a, &b);
        assert_eq!(fast.to_bytes(), slow.to_bytes());
    }
}

#[test]
fn inner_product_rejects_length_mismatch() {
    let a = scs(&[1, 2]);
    let b = scs(&[1]);
    assert_eq!(inner_product(&a, &b).err(), Some(CryptoError::LengthMismatch));
}

#[test]
fn add_vec_is_pointwise() {
    let a = scs(&[1, 2, 3]);
    let b = scs(&[10, 20, 30]);
    let sum = add_vec(&a, &b).unwrap();
    let expected = scs(&[11, 22, 33]);
    assert_eq!(sum.len(), 3);
    for (s, e) in sum.iter().zip(expected.iter()) {
        assert_eq!(s.to_bytes(), e.to_bytes());
    }
    assert_eq!(
        add_vec(&a, &b[..2]).err(),
        Some(CryptoError::LengthMismatch)
    );
}

#[test]
fn read32_takes_first_32_bytes() {
    let mut data = [0u8; 40];
    for i in 0..40 {
        data[i] = i as u8;
    }
    let first = read32(&data);
    for i in 0..32 {
        assert_eq!(first[i], i as u8);
    }
}

#[test]
fn vec_poly1_zero_is_all_zero() {
    let z = VecPoly1::zero(4);
    assert_eq!(z.0.len(), 4);
    assert_eq!(z.1.len(), 4);
    for s in z.0.iter().chain(z.1.iter()) {
        assert_eq!(s.to_bytes(), [0u8; 32]);
    }
}

#[test]
fn vec_poly1_eval_is_pointwise() {
    // (1 + 4x, 2 + 5x, 3 + 6x) at x = 10.
    let p = VecPoly1(scs(&[1, 2, 3]), scs(&[4, 5, 6]));
    let at_ten = p.eval(sc(10)).unwrap();
    let expected = scs(&[41, 52, 63]);
    for (s, e) in at_ten.iter().zip(expected.iter()) {
        assert_eq!(s.to_bytes(), e.to_bytes());
    }
}

#[test]
fn poly2_eval_exact() {
    // 7 + 5x + 2x² at x = 3: 7 + 15 + 18 = 40.
    let p = Poly2(sc(7), sc(5), sc(2));
    assert_eq!(p.eval(sc(3)).unwrap().to_bytes(), sc(40).to_bytes());
}

#[test]
fn vec_poly1_inner_product_small_exact() {
    // l(x) = (1 + 3x), r(x) = (2 + 4x): t0 = 2, t1 = 4 + 6 = 10, t2 = 12.
    let l = VecPoly1(scs(&[1]), scs(&[3]));
    let r = VecPoly1(scs(&[2]), scs(&[4]));
    let t = l.inner_product(&r).unwrap();
    assert_eq!(t.0.to_bytes(), sc(2).to_bytes());
    assert_eq!(t.1.to_bytes(), sc(10).to_bytes());
    assert_eq!(t.2.to_bytes(), sc(12).to_bytes());
}

#[test]
fn vec_poly1_inner_product_matches_convolution() {
    // The Karatsuba identity t1 = <l0+l1, r0+r1> - t0 - t2 must agree with
    // the direct convolution t1 = <l0, r1> + <l1, r0>.
    for n in [1usize, 4, 32] {
        let l = VecPoly1(varied_scalars(n, 3), varied_scalars(n, 5));
        let r = VecPoly1(varied_scalars(n, 7), varied_scalars(n, 11));
        let karatsuba = l.inner_product(&r).unwrap();

        let t0 = naive_inner_product(&l.0, &r.0);
        let t2 = naive_inner_product(&l.1, &r.1);
        let t1 = naive_inner_product(&l.0, &r.1)
            .add_scalar(naive_inner_product(&l.1, &r.0))
            .unwrap();
        assert_eq!(karatsuba.0.to_bytes(), t0.to_bytes());
        assert_eq!(karatsuba.1.to_bytes(), t1.to_bytes());
        assert_eq!(karatsuba.2.to_bytes(), t2.to_bytes());
    }
}

#[test]
fn vec_poly1_inner_product_rejects_length_mismatch() {
    let l = VecPoly1(scs(&[1, 2]), scs(&[3, 4]));
    let r = VecPoly1(scs(&[1]), scs(&[2]));
    assert_eq!(
        l.inner_product(&r).err(),
        Some(CryptoError::LengthMismatch)
    );
}

#[test]
fn vec_poly1_eval_evaluates_inner_product() {
    // <l(x), r(x)> evaluated at x equals t(x) for the inner-product poly.
    let l = VecPoly1(scs(&[1, 2]), scs(&[3, 4]));
    let r = VecPoly1(scs(&[5, 6]), scs(&[7, 8]));
    let t = l.inner_product(&r).unwrap();
    let x = sc(9);
    let lx = l.eval(x).unwrap();
    let rx = r.eval(x).unwrap();
    let lhs = naive_inner_product(&lx, &rx);
    let rhs = t.eval(x).unwrap();
    assert_eq!(lhs.to_bytes(), rhs.to_bytes());
}

#[test]
fn zero_length_polynomials() {
    let l = VecPoly1::zero(0);
    let r = VecPoly1::zero(0);
    let t = l.inner_product(&r).unwrap();
    assert_eq!(t.0.to_bytes(), [0u8; 32]);
    assert_eq!(t.1.to_bytes(), [0u8; 32]);
    assert_eq!(t.2.to_bytes(), [0u8; 32]);
    assert_eq!(l.eval(Scalar::zero()).unwrap().len(), 0);
}
