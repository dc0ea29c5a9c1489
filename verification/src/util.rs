//! Scalar-vector utilities for the inner-product argument: inner products,
//! pointwise sums, and degree-1 vector / degree-2 scalar polynomials.

use vstd::prelude::*;

use crate::CryptoError;
use crate::ristretto::{all_canonical_scalars, scalar_views};
use crate::scalar::{Scalar, is_canonical_scalar, sc_add_of, sc_mul_of, sc_sub_of, spec_scalar_zero};

verus! {

/// The inner product of the first `n` coordinates of `a` and `b`, folded
/// left from the zero scalar.
pub open spec fn spec_inner_product_prefix(a: Seq<Seq<u8>>, b: Seq<Seq<u8>>, n: nat) -> Seq<u8>
    decreases n,
{
    if n == 0 {
        spec_scalar_zero()
    } else {
        sc_add_of(
            spec_inner_product_prefix(a, b, (n - 1) as nat),
            sc_mul_of(a[n - 1], b[n - 1]),
        )
    }
}

/// The inner product Σ a[i]·b[i] of two equally long coordinate sequences.
pub open spec fn spec_inner_product(a: Seq<Seq<u8>>, b: Seq<Seq<u8>>) -> Seq<u8> {
    spec_inner_product_prefix(a, b, a.len())
}

/// The pointwise sum of two equally long coordinate sequences.
pub open spec fn spec_add_vec(a: Seq<Seq<u8>>, b: Seq<Seq<u8>>) -> Seq<Seq<u8>> {
    Seq::new(a.len(), |i: int| sc_add_of(a[i], b[i]))
}

/// Computes the inner product of two scalar vectors.  Fails with
/// `LengthMismatch` on unequal lengths and with `InvalidEncoding` when an
/// element is not a canonical scalar encoding.
pub fn inner_product(a: &[Scalar], b: &[Scalar]) -> (r: Result<Scalar, CryptoError>)
    ensures
        a@.len() != b@.len() ==> r == Err::<Scalar, CryptoError>(CryptoError::LengthMismatch),
        a@.len() == b@.len() ==> (r is Ok <==> (all_canonical_scalars(scalar_views(a@))
            && all_canonical_scalars(scalar_views(b@)))),
        r matches Ok(s) ==> s@ == spec_inner_product(scalar_views(a@), scalar_views(b@)),
        r matches Ok(s) ==> is_canonical_scalar(s@),
        a@.len() == b@.len() && r is Err ==> r == Err::<Scalar, CryptoError>(
            CryptoError::InvalidEncoding,
        ),
{
    let mut result = Scalar::zero();
    if a.len() != b.len() {
        return Err(CryptoError::LengthMismatch);
    }
    let ghost av = scalar_views(a@);
    let ghost bv = scalar_views(b@);
    let mut i: usize = 0;
    while i < a.len()
        invariant
            i <= a@.len(),
            a@.len() == b@.len(),
            av == scalar_views(a@),
            bv == scalar_views(b@),
            result@ == spec_inner_product_prefix(av, bv, i as nat),
            is_canonical_scalar(result@),
            forall|j: int| 0 <= j < i ==> is_canonical_scalar(#[trigger] av[j]),
            forall|j: int| 0 <= j < i ==> is_canonical_scalar(#[trigger] bv[j]),
        decreases a@.len() - i,
    {
        let product = match a[i].multiply_scalar(b[i]) {
            Ok(p) => p,
            Err(_) => {
                proof {
                    assert(av[i as int] == a@[i as int]@);
                    assert(bv[i as int] == b@[i as int]@);
                }
                return Err(CryptoError::InvalidEncoding);
            },
        };
        proof {
            assert(av[i as int] == a@[i as int]@);
            assert(bv[i as int] == b@[i as int]@);
        }
        result = match result.add_scalar(product) {
            Ok(s) => s,
            Err(_) => {
                proof {
                    assert(false);
                }
                return Err(CryptoError::InvalidEncoding);
            },
        };
        i += 1;
    }
    Ok(result)
}

/// Computes the pointwise sum of two scalar vectors.  Fails with
/// `LengthMismatch` on unequal lengths and with `InvalidEncoding` when an
/// element is not a canonical scalar encoding.
pub fn add_vec(a: &[Scalar], b: &[Scalar]) -> (r: Result<Vec<Scalar>, CryptoError>)
    ensures
        a@.len() != b@.len() ==> r == Err::<Vec<Scalar>, CryptoError>(CryptoError::LengthMismatch),
        a@.len() == b@.len() ==> (r is Ok <==> (all_canonical_scalars(scalar_views(a@))
            && all_canonical_scalars(scalar_views(b@)))),
        r matches Ok(v) ==> scalar_views(v@) == spec_add_vec(scalar_views(a@), scalar_views(b@)),
        r matches Ok(v) ==> all_canonical_scalars(scalar_views(v@)),
        a@.len() == b@.len() && r is Err ==> r == Err::<Vec<Scalar>, CryptoError>(
            CryptoError::InvalidEncoding,
        ),
{
    if a.len() != b.len() {
        return Err(CryptoError::LengthMismatch);
    }
    let ghost av = scalar_views(a@);
    let ghost bv = scalar_views(b@);
    let mut result: Vec<Scalar> = Vec::new();
    let mut i: usize = 0;
    while i < a.len()
        invariant
            i <= a@.len(),
            a@.len() == b@.len(),
            av == scalar_views(a@),
            bv == scalar_views(b@),
            result@.len() == i,
            forall|j: int| 0 <= j < i ==> (#[trigger] result@[j])@ == sc_add_of(av[j], bv[j]),
            forall|j: int| 0 <= j < i ==> is_canonical_scalar(result@[j]@),
            forall|j: int| 0 <= j < i ==> is_canonical_scalar(#[trigger] av[j]),
            forall|j: int| 0 <= j < i ==> is_canonical_scalar(#[trigger] bv[j]),
        decreases a@.len() - i,
    {
        let s = match a[i].add_scalar(b[i]) {
            Ok(s) => s,
            Err(_) => {
                proof {
                    assert(av[i as int] == a@[i as int]@);
                    assert(bv[i as int] == b@[i as int]@);
                }
                return Err(CryptoError::InvalidEncoding);
            },
        };
        proof {
            assert(av[i as int] == a@[i as int]@);
            assert(bv[i as int] == b@[i as int]@);
        }
        result.push(s);
        i += 1;
    }
    proof {
        assert(scalar_views(result@) =~= spec_add_vec(av, bv));
    }
    Ok(result)
}

/// Given `data` with at least 32 bytes, return the first 32 bytes.
pub fn read32(data: &[u8]) -> (r: [u8; 32])
    requires
        data@.len() >= 32,
    ensures
        r@ == data@.subrange(0, 32),
{
    let mut buf32 = [0u8; 32];
    let mut i: usize = 0;
    while i < 32
        invariant
            i <= 32,
            data@.len() >= 32,
            forall|j: int| 0 <= j < i ==> buf32@[j] == data@[j],
        decreases 32 - i,
    {
        buf32[i] = data[i];
        i += 1;
    }
    proof {
        assert(buf32@ =~= data@.subrange(0, 32));
    }
    buf32
}

/// A degree-1 vector polynomial `a + b·x`, held as its two equally long
/// coefficient vectors.
pub struct VecPoly1(pub Vec<Scalar>, pub Vec<Scalar>);

/// A degree-2 scalar polynomial `a + b·x + c·x²`, held as its three
/// coefficients.
pub struct Poly2(pub Scalar, pub Scalar, pub Scalar);

/// The exact outcome of `VecPoly1::inner_product` on coefficient views
/// `(l0, l1)` and `(r0, r1)`: the three coefficients `t0 = ⟨l0,r0⟩`,
/// `t2 = ⟨l1,r1⟩` and `t1 = ⟨l0+l1, r0+r1⟩ - t0 - t2`, or the first error
/// met while computing them in that order.
pub open spec fn spec_vec_poly1_inner_product(
    l0: Seq<Seq<u8>>,
    l1: Seq<Seq<u8>>,
    r0: Seq<Seq<u8>>,
    r1: Seq<Seq<u8>>,
) -> Result<(Seq<u8>, Seq<u8>, Seq<u8>), CryptoError> {
    if l0.len() != r0.len() {
        Err(CryptoError::LengthMismatch)
    } else if !(all_canonical_scalars(l0) && all_canonical_scalars(r0)) {
        Err(CryptoError::InvalidEncoding)
    } else if l1.len() != r1.len() {
        Err(CryptoError::LengthMismatch)
    } else if !(all_canonical_scalars(l1) && all_canonical_scalars(r1)) {
        Err(CryptoError::InvalidEncoding)
    } else if l0.len() != l1.len() {
        Err(CryptoError::LengthMismatch)
    } else {
        let t0 = spec_inner_product(l0, r0);
        let t2 = spec_inner_product(l1, r1);
        let tm = spec_inner_product(spec_add_vec(l0, l1), spec_add_vec(r0, r1));
        Ok((t0, sc_sub_of(sc_sub_of(tm, t0), t2), t2))
    }
}

impl VecPoly1 {
    /// The zero polynomial on `n` coordinates: two length-`n` vectors of
    /// zero scalars.
    pub fn zero(n: usize) -> (r: Self)
        ensures
            r.0@.len() == n,
            r.1@.len() == n,
            forall|i: int| 0 <= i < n ==> (#[trigger] r.0@[i])@ == spec_scalar_zero(),
            forall|i: int| 0 <= i < n ==> (#[trigger] r.1@[i])@ == spec_scalar_zero(),
    {
        let mut a: Vec<Scalar> = Vec::new();
        let mut i: usize = 0;
        while i < n
            invariant
                i <= n,
                a@.len() == i,
                forall|j: int| 0 <= j < i ==> (#[trigger] a@[j])@ == spec_scalar_zero(),
            decreases n - i,
        {
            a.push(Scalar::zero());
            i += 1;
        }
        let mut b: Vec<Scalar> = Vec::new();
        let mut j: usize = 0;
        while j < n
            invariant
                j <= n,
                b@.len() == j,
                forall|k: int| 0 <= k < j ==> (#[trigger] b@[k])@ == spec_scalar_zero(),
            decreases n - j,
        {
            b.push(Scalar::zero());
            j += 1;
        }
        VecPoly1(a, b)
    }

    /// The inner product of two degree-1 vector polynomials, computed with
    /// the 3-multiplication Karatsuba identity over the coefficient
    /// vectors.
    pub fn inner_product(&self, rhs: &VecPoly1) -> (r: Result<Poly2, CryptoError>)
        ensures
            ({
                let s = spec_vec_poly1_inner_product(
                    scalar_views(self.0@),
                    scalar_views(self.1@),
                    scalar_views(rhs.0@),
                    scalar_views(rhs.1@),
                );
                &&& (r is Ok <==> s is Ok)
                &&& (s matches Ok(t) ==> r matches Ok(p) && p.0@ == t.0 && p.1@ == t.1 && p.2@
                    == t.2)
                &&& (s matches Err(e) ==> r == Err::<Poly2, CryptoError>(e))
            }),
    {
        let l = self;
        let r = rhs;

        let t0 = match inner_product(l.0.as_slice(), r.0.as_slice()) {
            Ok(s) => s,
            Err(e) => {
                return Err(e);
            },
        };
        let t2 = match inner_product(l.1.as_slice(), r.1.as_slice()) {
            Ok(s) => s,
            Err(e) => {
                return Err(e);
            },
        };

        let l0_plus_l1 = match add_vec(l.0.as_slice(), l.1.as_slice()) {
            Ok(v) => v,
            Err(e) => {
                return Err(e);
            },
        };
        proof {
            assert(rhs.0@.len() == rhs.1@.len());
            assert(all_canonical_scalars(scalar_views(rhs.0@)));
            assert(all_canonical_scalars(scalar_views(rhs.1@)));
        }
        let rr = add_vec(r.0.as_slice(), r.1.as_slice());
        proof {
            assert(rr is Ok);
        }
        let r0_plus_r1 = match rr {
            Ok(v) => v,
            Err(e) => {
                return Err(e);
            },
        };

        proof {
            assert(scalar_views(l0_plus_l1@).len() == l0_plus_l1@.len());
            assert(scalar_views(r0_plus_r1@).len() == r0_plus_r1@.len());
        }
        let tmr = inner_product(l0_plus_l1.as_slice(), r0_plus_r1.as_slice());
        proof {
            assert(tmr is Ok);
        }
        let tm = match tmr {
            Ok(s) => s,
            Err(_) => {
                return Err(CryptoError::InvalidEncoding);
            },
        };
        let t1a = tm.subtract_scalar(t0);
        proof {
            assert(t1a is Ok);
        }
        let t1 = match t1a {
            Ok(s) => s,
            Err(_) => {
                return Err(CryptoError::InvalidEncoding);
            },
        };
        let t1b = t1.subtract_scalar(t2);
        proof {
            assert(t1b is Ok);
        }
        let t1 = match t1b {
            Ok(s) => s,
            Err(_) => {
                return Err(CryptoError::InvalidEncoding);
            },
        };

        Ok(Poly2(t0, t1, t2))
    }

    /// Evaluate the vector polynomial at `x`, giving the coordinate vector
    /// `self.0[i] + self.1[i]·x`.
    pub fn eval(&self, x: Scalar) -> (r: Result<Vec<Scalar>, CryptoError>)
        ensures
            self.0@.len() != self.1@.len() ==> r == Err::<Vec<Scalar>, CryptoError>(
                CryptoError::LengthMismatch,
            ),
            self.0@.len() == self.1@.len() ==> (r is Ok <==> (self.0@.len() == 0 || (
            is_canonical_scalar(x@) && all_canonical_scalars(scalar_views(self.0@))
                && all_canonical_scalars(scalar_views(self.1@))))),
            r matches Ok(v) ==> v@.len() == self.0@.len(),
            r matches Ok(v) ==> (forall|i: int|
                0 <= i < v@.len() ==> (#[trigger] v@[i])@ == sc_add_of(
                    scalar_views(self.0@)[i],
                    sc_mul_of(scalar_views(self.1@)[i], x@),
                )),
            self.0@.len() == self.1@.len() && r is Err ==> r == Err::<Vec<Scalar>, CryptoError>(
                CryptoError::InvalidEncoding,
            ),
    {
        if self.0.len() != self.1.len() {
            return Err(CryptoError::LengthMismatch);
        }
        let n = self.0.len();
        let ghost av = scalar_views(self.0@);
        let ghost bv = scalar_views(self.1@);
        let mut result: Vec<Scalar> = Vec::new();
        let mut i: usize = 0;
        while i < n
            invariant
                i <= n,
                n == self.0@.len(),
                n == self.1@.len(),
                av == scalar_views(self.0@),
                bv == scalar_views(self.1@),
                result@.len() == i,
                forall|j: int| 0 <= j < i ==> (#[trigger] result@[j])@ == sc_add_of(
                    av[j],
                    sc_mul_of(bv[j], x@),
                ),
                i > 0 ==> is_canonical_scalar(x@),
                forall|j: int| 0 <= j < i ==> is_canonical_scalar(#[trigger] av[j]),
                forall|j: int| 0 <= j < i ==> is_canonical_scalar(#[trigger] bv[j]),
            decreases n - i,
        {
            proof {
                assert(av[i as int] == self.0@[i as int]@);
                assert(bv[i as int] == self.1@[i as int]@);
            }
            let product = match self.1[i].multiply_scalar(x) {
                Ok(p) => p,
                Err(_) => {
                    return Err(CryptoError::InvalidEncoding);
                },
            };
            let s = match self.0[i].add_scalar(product) {
                Ok(s) => s,
                Err(_) => {
                    return Err(CryptoError::InvalidEncoding);
                },
            };
            result.push(s);
            i += 1;
        }
        Ok(result)
    }
}

impl Poly2 {
    /// Evaluate the polynomial at `x` by Horner's rule:
    /// `self.0 + x·(self.1 + x·self.2)`.
    pub fn eval(&self, x: Scalar) -> (r: Result<Scalar, CryptoError>)
        ensures
            r is Ok <==> (is_canonical_scalar(x@) && is_canonical_scalar(self.0@)
                && is_canonical_scalar(self.1@) && is_canonical_scalar(self.2@)),
            r matches Ok(s) ==> s@ == sc_add_of(
                sc_mul_of(sc_add_of(sc_mul_of(x@, self.2@), self.1@), x@),
                self.0@,
            ),
            r is Err ==> r == Err::<Scalar, CryptoError>(CryptoError::InvalidEncoding),
    {
        let result = match x.multiply_scalar(self.2) {
            Ok(s) => s,
            Err(_) => {
                return Err(CryptoError::InvalidEncoding);
            },
        };
        let result = match result.add_scalar(self.1) {
            Ok(s) => s,
            Err(_) => {
                return Err(CryptoError::InvalidEncoding);
            },
        };
        let result = match result.multiply_scalar(x) {
            Ok(s) => s,
            Err(_) => {
                proof {
                    assert(false);
                }
                return Err(CryptoError::InvalidEncoding);
            },
        };
        match result.add_scalar(self.0) {
            Ok(s) => Ok(s),
            Err(_) => {
                return Err(CryptoError::InvalidEncoding);
            },
        }
    }
}

} // verus!
