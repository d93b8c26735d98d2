//! Polynomials over Z_q: elements of the ring R_q = Z_q[X]/(X^256 + 1).
//!
//! A `Polynomial` is a fixed-length sequence of exactly 256 canonical
//! `FieldElement` coefficients in ascending degree order, stored in a
//! `hybrid_array::Array` so the length is part of the type.  The three ring
//! operations work coefficient-wise; no operation here reduces modulo
//! `X^256 + 1`, since all of them preserve the degree.

use vstd::prelude::*;
use crate::field::{FieldElement, fe_val, is_canonical, add_mod, sub_mod, mul_mod};
use crate::field::{lemma_add_identity, lemma_mul_identity};

verus! {

/// The coefficient container: a `hybrid_array` array whose length 256 is
/// part of its type.  Verus cannot read that type's declaration, so the
/// container is held opaquely and reached only through the accessors
/// below, whose contracts speak of `coeff_seq`.
#[verifier::external_body]
pub struct CoeffArray {
    data: hybrid_array::Array<FieldElement, hybrid_array::sizes::U256>,
}

impl Clone for CoeffArray {
    /// Relies on `hybrid_array::Array` being `Copy` for `Copy` elements:
    /// the copy holds the same coefficients.
    #[verifier::external_body]
    fn clone(&self) -> (r: Self)
        ensures
            coeff_seq(r) == coeff_seq(*self),
    {
        CoeffArray { data: self.data }
    }
}

/// The coefficients held by a length-256 array, in order.
pub uninterp spec fn coeff_seq(a: CoeffArray) -> Seq<FieldElement>;

/// Relies on `hybrid_array::Array`'s `TryFrom<&[T]>`: it succeeds exactly
/// when the slice length equals the type-level length, and clones the slice
/// elements in order.
#[verifier::external_body]
fn coeffs_from_vec(v: &Vec<FieldElement>) -> (a: CoeffArray)
    requires
        v@.len() == 256,
    ensures
        coeff_seq(a) == v@,
{
    CoeffArray {
        data: hybrid_array::Array::<FieldElement, hybrid_array::sizes::U256>::try_from(
            v.as_slice(),
        ).unwrap(),
    }
}

/// Relies on `hybrid_array::Array`'s `Index` impl, which indexes the
/// underlying `[T; 256]`; an index below 256 is always in bounds there.
#[verifier::external_body]
fn coeff_at(a: &CoeffArray, i: usize) -> (r: FieldElement)
    requires
        i < 256,
    ensures
        r == coeff_seq(*a)[i as int],
{
    a.data[i]
}

/// An element of the ring R_q: a polynomial of degree below 256 over Z_q.
#[derive(Clone)]
pub struct Polynomial(pub CoeffArray);

impl PartialEq for Polynomial {
    /// Two polynomials are equal when all 256 coefficients agree.
    fn eq(&self, other: &Polynomial) -> (r: bool) {
        let mut i: usize = 0;
        while i < 256
            invariant
                i <= 256,
                forall|j: int|
                    0 <= j < i ==> #[trigger] coeff_seq(self.0)[j] == coeff_seq(other.0)[j],
            decreases 256 - i,
        {
            let a = coeff_at(&self.0, i);
            let b = coeff_at(&other.0, i);
            if a.0 != b.0 {
                return false;
            }
            i = i + 1;
        }
        true
    }
}

impl vstd::std_specs::cmp::PartialEqSpecImpl for Polynomial {
    open spec fn obeys_eq_spec() -> bool {
        true
    }

    open spec fn eq_spec(&self, other: &Polynomial) -> bool {
        forall|j: int| 0 <= j < 256 ==> #[trigger] coeff_seq(self.0)[j] == coeff_seq(other.0)[j]
    }
}

/// Coefficient-wise sum of two coefficient sequences, each entry reduced
/// modulo q.
pub open spec fn poly_add(a: Seq<FieldElement>, b: Seq<FieldElement>) -> Seq<FieldElement> {
    Seq::new(a.len(), |i: int| FieldElement(add_mod(fe_val(a[i]), fe_val(b[i])) as u32))
}

/// Coefficient-wise difference of two coefficient sequences modulo q.
pub open spec fn poly_sub(a: Seq<FieldElement>, b: Seq<FieldElement>) -> Seq<FieldElement> {
    Seq::new(a.len(), |i: int| FieldElement(sub_mod(fe_val(a[i]), fe_val(b[i])) as u32))
}

/// Every coefficient multiplied by the scalar `s`, modulo q.
pub open spec fn poly_scalar_mul(s: FieldElement, a: Seq<FieldElement>) -> Seq<FieldElement> {
    Seq::new(a.len(), |i: int| FieldElement(mul_mod(fe_val(s), fe_val(a[i])) as u32))
}

impl Polynomial {
    /// The coefficient sequence, lowest degree first.
    pub open spec fn coeffs(self) -> Seq<FieldElement> {
        coeff_seq(self.0)
    }

    /// Well-formed: exactly 256 coefficients, each canonical.
    pub open spec fn wf(self) -> bool {
        &&& self.coeffs().len() == 256
        &&& forall|i: int| 0 <= i < 256 ==> is_canonical(#[trigger] self.coeffs()[i])
    }

    /// Build a polynomial from its 256 coefficients, lowest degree first.
    /// Canonical coefficients are the caller's obligation, as everywhere at
    /// this layer's boundary.
    pub fn new(coeffs: Vec<FieldElement>) -> (p: Polynomial)
        requires
            coeffs@.len() == 256,
            forall|i: int| 0 <= i < 256 ==> is_canonical(#[trigger] coeffs@[i]),
        ensures
            p.wf(),
            p.coeffs() == coeffs@,
    {
        Polynomial(coeffs_from_vec(&coeffs))
    }

    /// The zero polynomial: all 256 coefficients are the additive identity.
    pub fn zero() -> (p: Polynomial)
        ensures
            p.wf(),
            forall|i: int| 0 <= i < 256 ==> #[trigger] p.coeffs()[i] == FieldElement(0u32),
    {
        let mut v: Vec<FieldElement> = Vec::new();
        let mut i: usize = 0;
        while i < 256
            invariant
                i <= 256,
                v@.len() == i as int,
                forall|j: int| 0 <= j < i ==> #[trigger] v@[j] == FieldElement(0u32),
            decreases 256 - i,
        {
            v.push(FieldElement(0));
            i = i + 1;
        }
        Polynomial::new(v)
    }

    /// The coefficient of `X^i`.
    pub fn coefficient(&self, i: usize) -> (r: FieldElement)
        requires
            self.wf(),
            i < 256,
        ensures
            r == self.coeffs()[i as int],
            is_canonical(r),
    {
        coeff_at(&self.0, i)
    }

    /// Coefficient-wise sum: the result's coefficient `i` is
    /// `(self[i] + rhs[i]) mod q`.  Operands are read-only; a fresh
    /// polynomial is returned.
    pub fn add(&self, rhs: &Polynomial) -> (r: Polynomial)
        requires
            self.wf(),
            rhs.wf(),
        ensures
            r.wf(),
            r.coeffs() == poly_add(self.coeffs(), rhs.coeffs()),
    {
        let mut v: Vec<FieldElement> = Vec::new();
        let mut i: usize = 0;
        while i < 256
            invariant
                i <= 256,
                v@.len() == i as int,
                self.wf(),
                rhs.wf(),
                forall|j: int| 0 <= j < i ==> #[trigger] v@[j] == poly_add(
                    self.coeffs(),
                    rhs.coeffs(),
                )[j],
            decreases 256 - i,
        {
            let c = self.coefficient(i) + rhs.coefficient(i);
            v.push(c);
            i = i + 1;
        }
        let r = Polynomial::new(v);
        proof {
            assert(r.coeffs() =~= poly_add(self.coeffs(), rhs.coeffs()));
        }
        r
    }

    /// Coefficient-wise difference: the result's coefficient `i` is
    /// `(self[i] - rhs[i]) mod q`.
    pub fn sub(&self, rhs: &Polynomial) -> (r: Polynomial)
        requires
            self.wf(),
            rhs.wf(),
        ensures
            r.wf(),
            r.coeffs() == poly_sub(self.coeffs(), rhs.coeffs()),
    {
        let mut v: Vec<FieldElement> = Vec::new();
        let mut i: usize = 0;
        while i < 256
            invariant
                i <= 256,
                v@.len() == i as int,
                self.wf(),
                rhs.wf(),
                forall|j: int| 0 <= j < i ==> #[trigger] v@[j] == poly_sub(
                    self.coeffs(),
                    rhs.coeffs(),
                )[j],
            decreases 256 - i,
        {
            let c = self.coefficient(i) - rhs.coefficient(i);
            v.push(c);
            i = i + 1;
        }
        let r = Polynomial::new(v);
        proof {
            assert(r.coeffs() =~= poly_sub(self.coeffs(), rhs.coeffs()));
        }
        r
    }

    /// Scalar-by-polynomial product: the result's coefficient `i` is
    /// `(s * self[i]) mod q`.
    pub fn scalar_mul(&self, s: FieldElement) -> (r: Polynomial)
        requires
            self.wf(),
            is_canonical(s),
        ensures
            r.wf(),
            r.coeffs() == poly_scalar_mul(s, self.coeffs()),
    {
        let mut v: Vec<FieldElement> = Vec::new();
        let mut i: usize = 0;
        while i < 256
            invariant
                i <= 256,
                v@.len() == i as int,
                self.wf(),
                is_canonical(s),
                forall|j: int| 0 <= j < i ==> #[trigger] v@[j] == poly_scalar_mul(
                    s,
                    self.coeffs(),
                )[j],
            decreases 256 - i,
        {
            let c = s * self.coefficient(i);
            v.push(c);
            i = i + 1;
        }
        let r = Polynomial::new(v);
        proof {
            assert(r.coeffs() =~= poly_scalar_mul(s, self.coeffs()));
        }
        r
    }
}

impl Default for Polynomial {
    /// The zero polynomial.
    fn default() -> (p: Self)
        ensures
            p.wf(),
            forall|i: int| 0 <= i < 256 ==> #[trigger] p.coeffs()[i] == FieldElement(0u32),
    {
        Polynomial::zero()
    }
}

/// Adding the zero polynomial changes nothing.
pub proof fn lemma_poly_add_zero(a: Seq<FieldElement>, z: Seq<FieldElement>)
    requires
        a.len() == 256,
        z.len() == 256,
        forall|i: int| 0 <= i < 256 ==> is_canonical(#[trigger] a[i]),
        forall|i: int| 0 <= i < 256 ==> #[trigger] z[i] == FieldElement(0u32),
    ensures
        poly_add(a, z) == a,
{
    assert forall|i: int| 0 <= i < 256 implies #[trigger] poly_add(a, z)[i] == a[i] by {
        lemma_add_identity(fe_val(a[i]));
    }
    assert(poly_add(a, z) =~= a);
}

/// Scaling by the multiplicative identity changes nothing.
pub proof fn lemma_poly_scalar_mul_one(a: Seq<FieldElement>)
    requires
        a.len() == 256,
        forall|i: int| 0 <= i < 256 ==> is_canonical(#[trigger] a[i]),
    ensures
        poly_scalar_mul(FieldElement(1u32), a) == a,
{
    assert forall|i: int| 0 <= i < 256 implies #[trigger] poly_scalar_mul(FieldElement(1u32), a)[i]
        == a[i] by {
        lemma_mul_identity(fe_val(a[i]));
        vstd::arithmetic::mul::lemma_mul_is_commutative(1, fe_val(a[i]));
    }
    assert(poly_scalar_mul(FieldElement(1u32), a) =~= a);
}

} // verus!
