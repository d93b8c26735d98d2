//! Scalar arithmetic in the finite field Z_q, q = 8380417.
//!
//! A `FieldElement` holds a single unsigned integer that is canonical
//! (in `[0, q)`) whenever it came out of one of the public operations.
//! Multiplication runs through Montgomery reduction, so the expensive
//! division-based reduction is replaced by multiplies and a shift; a final
//! "small reduce" (one conditional subtraction of q, phrased as a mask
//! multiply rather than a data-dependent branch) restores canonical form.

use vstd::prelude::*;
use vstd::arithmetic::div_mod::{
    lemma_small_mod, lemma_mod_sub_multiples_vanish, lemma_mod_add_multiples_vanish,
    lemma_mod_multiples_vanish, lemma_mul_mod_noop_left, lemma_mul_mod_noop_right,
    lemma_add_mod_noop, lemma_add_mod_noop_right, lemma_sub_mod_noop,
    lemma_fundamental_div_mod, lemma_mod_division_less_than_divisor, lemma_multiply_divide_lt,
};
use vstd::arithmetic::mul::{
    lemma_mul_is_associative, lemma_mul_is_commutative, lemma_mul_is_distributive_sub_other_way,
    lemma_mul_upper_bound, lemma_mul_inequality,
};
use vstd::bits::lemma_u64_shr_is_div;
use vstd::arithmetic::power2::lemma2_to64;
use core::ops::{Add, Mul, Sub};

verus! {

/// The unsigned integer width used to store a field element.  Although `q`
/// fits in 23 bits, the wider type lets unreduced sums reach `2q` without
/// overflow, so modular reduction can be deferred to a single conditional
/// subtraction.
pub type Integer = u32;

/// An element of GF(q).
#[derive(Copy, Clone, Debug, PartialEq, Eq, Structural)]
pub struct FieldElement(pub Integer);

/// The value of a field element as a mathematical integer.
pub open spec fn fe_val(e: FieldElement) -> int {
    e.0 as int
}

/// Canonical form: the stored value lies in `[0, q)`.
pub open spec fn is_canonical(e: FieldElement) -> bool {
    e.0 < FieldElement::Q
}

/// Field addition on values: `(a + b) mod q`.
pub open spec fn add_mod(a: int, b: int) -> int {
    (a + b) % (FieldElement::Q as int)
}

/// Field subtraction on values: `(a - b) mod q`.
pub open spec fn sub_mod(a: int, b: int) -> int {
    (a - b) % (FieldElement::Q as int)
}

/// Field multiplication on values: `(a * b) mod q`.
pub open spec fn mul_mod(a: int, b: int) -> int {
    (a * b) % (FieldElement::Q as int)
}

impl FieldElement {
    /// The field modulus, a 23-bit prime.
    pub const Q: u32 = 8380417;

    /// The modulus as a `u64`, for double-width intermediate products.
    pub const Q64: u64 = 8380417;

    /// `Q^(-1) mod 2^32`: the fixed-point inverse used by Montgomery
    /// reduction to clear the low 32 bits of the accumulator.
    const QINV: u64 = 58728449;

    /// The Montgomery radix `R = 2^32`.
    pub const MONT_R: u64 = 0x1_0000_0000;

    /// `R^2 mod q`; multiplying by it under Montgomery reduction undoes
    /// the `R^(-1)` factor that one reduction introduces.
    const MONT_R2: u32 = 2365951;

    /// `R^(-1) mod q`, used only in proofs to cancel the radix.
    const MONT_RINV: u64 = 8265825;

    /// Reduce a value known to lie in `[0, 2q)` to canonical form by one
    /// conditional subtraction of `q`, written as a mask multiply.
    pub fn small_reduce(x: u32) -> (r: u32)
        requires
            x < 2 * FieldElement::Q,
        ensures
            r == x as int % (FieldElement::Q as int),
            r < FieldElement::Q,
    {
        let mask: u32 = if x >= Self::Q { 1 } else { 0 };
        proof {
            if x < Self::Q {
                lemma_small_mod(x as nat, Self::Q as nat);
            } else {
                lemma_mod_sub_multiples_vanish(x as int, Self::Q as int);
                lemma_small_mod((x - Self::Q) as nat, Self::Q as nat);
            }
        }
        x - mask * Self::Q
    }

    /// Montgomery reduction of the double-width product `a * b`: returns the
    /// canonical element congruent to `a * b * R^(-1) mod q`, computed with
    /// one double-width multiply, one fixed-point multiply by `QINV`, and a
    /// shift, instead of a division by `q`.
    pub fn montgomery_mul(a: Self, b: Self) -> (r: Self)
        requires
            is_canonical(a),
            is_canonical(b),
        ensures
            is_canonical(r),
            (fe_val(r) * Self::MONT_R) % (Self::Q as int) == (fe_val(a) * fe_val(b)) % (
            Self::Q as int),
    {
        proof {
            lemma_mul_upper_bound(a.0 as int, 8380416, b.0 as int, 8380416);
        }
        let prod: u64 = (a.0 as u64) * (b.0 as u64);
        let lo: u64 = prod % Self::MONT_R;
        proof {
            lemma_mod_division_less_than_divisor(prod as int, 0x1_0000_0000);
            lemma_mul_upper_bound(lo as int, 0xffff_ffff, Self::QINV as int, 58728449);
        }
        let t: u64 = (lo * Self::QINV) % Self::MONT_R;
        proof {
            lemma_mod_division_less_than_divisor((lo as int) * 58728449, 0x1_0000_0000);
            lemma_mul_inequality((Self::MONT_R - t) as int, 0x1_0000_0000, 8380417);
        }
        // `prod + (R - t) * q` equals `prod - t * q + R * q`: nonnegative, and
        // divisible by `R` because `t * q` is congruent to `prod` modulo `R`.
        let s: u64 = prod + (Self::MONT_R - t) * Self::Q64;
        let r64: u64 = s >> 32;
        proof {
            lemma_montgomery_reduce(prod as int, lo as int, t as int, s as int);
            lemma_u64_shr_is_div(s, 32);
            lemma2_to64();
            assert(r64 as int == s as int / 0x1_0000_0000);
        }
        let res: u32 = Self::small_reduce(r64 as u32);
        proof {
            // Reducing r64 modulo q does not change the class of r64 * R.
            lemma_mul_mod_noop_left(r64 as int, 0x1_0000_0000, 8380417);
        }
        Self(res)
    }
}

impl Add<FieldElement> for FieldElement {
    type Output = FieldElement;

    /// Unreduced sum (always below `2q` for canonical inputs) followed by
    /// one conditional subtraction of `q`.
    fn add(self, rhs: FieldElement) -> (r: FieldElement) {
        let r = FieldElement(Self::small_reduce(self.0 + rhs.0));
        proof {
            assert(fe_val(r) == add_mod(fe_val(self), fe_val(rhs)));
        }
        r
    }
}

impl vstd::std_specs::ops::AddSpecImpl<FieldElement> for FieldElement {
    open spec fn obeys_add_spec() -> bool {
        true
    }

    open spec fn add_req(self, rhs: FieldElement) -> bool {
        is_canonical(self) && is_canonical(rhs)
    }

    open spec fn add_spec(self, rhs: FieldElement) -> FieldElement {
        FieldElement(add_mod(fe_val(self), fe_val(rhs)) as u32)
    }
}

impl Sub<FieldElement> for FieldElement {
    type Output = FieldElement;

    /// Adding `q` to the minuend first keeps the difference nonnegative
    /// (no underflow) and below `2q`, so one small reduce suffices.
    fn sub(self, rhs: FieldElement) -> (r: FieldElement) {
        let r = FieldElement(Self::small_reduce(self.0 + Self::Q - rhs.0));
        proof {
            lemma_mod_add_multiples_vanish(fe_val(self) - fe_val(rhs), Self::Q as int);
            assert(fe_val(r) == sub_mod(fe_val(self), fe_val(rhs)));
        }
        r
    }
}

impl vstd::std_specs::ops::SubSpecImpl<FieldElement> for FieldElement {
    open spec fn obeys_sub_spec() -> bool {
        true
    }

    open spec fn sub_req(self, rhs: FieldElement) -> bool {
        is_canonical(self) && is_canonical(rhs)
    }

    open spec fn sub_spec(self, rhs: FieldElement) -> FieldElement {
        FieldElement(sub_mod(fe_val(self), fe_val(rhs)) as u32)
    }
}

impl Mul<FieldElement> for FieldElement {
    type Output = FieldElement;

    /// The exact product `(a * b) mod q`: one Montgomery reduction leaves a
    /// stray `R^(-1)` factor, and a second reduction against `R^2 mod q`
    /// removes it, so the result is in the plain (non-Montgomery) domain.
    fn mul(self, rhs: FieldElement) -> (r: FieldElement) {
        let ghost qi: int = Self::Q as int;
        let ghost ri: int = Self::MONT_R as int;
        let m = Self::montgomery_mul(self, rhs);
        let r = Self::montgomery_mul(m, FieldElement(Self::MONT_R2));
        proof {
            let ai = fe_val(self);
            let bi = fe_val(rhs);
            let mi = fe_val(m);
            let zi = mul_mod(ai, bi);
            // r * R ≡ m * R2 ≡ m * R * R (mod q), since R2 ≡ R * R (mod q).
            assert(ri * ri == 0x1_0000_0000 * 0x1_0000_0000);
            assert(0x1_0000_0000 * 0x1_0000_0000 % 8380417 == 2365951);
            assert((Self::MONT_R2 as int) == (ri * ri) % qi);
            lemma_mul_mod_noop_right(mi, ri * ri, qi);
            lemma_mul_is_associative(mi, ri, ri);
            // z * R ≡ (a * b) * R ≡ (m * R) * R ≡ m * R * R (mod q).
            lemma_mod_division_less_than_divisor(ai * bi, qi);
            lemma_mul_mod_noop_left(ai * bi, ri, qi);
            lemma_mul_mod_noop_left(mi * ri, ri, qi);
            assert((zi * ri) % qi == (fe_val(r) * ri) % qi);
            lemma_mont_unique(zi, fe_val(r));
            assert(fe_val(r) == zi);
        }
        r
    }
}

impl vstd::std_specs::ops::MulSpecImpl<FieldElement> for FieldElement {
    open spec fn obeys_mul_spec() -> bool {
        true
    }

    open spec fn mul_req(self, rhs: FieldElement) -> bool {
        is_canonical(self) && is_canonical(rhs)
    }

    open spec fn mul_spec(self, rhs: FieldElement) -> FieldElement {
        FieldElement(mul_mod(fe_val(self), fe_val(rhs)) as u32)
    }
}

impl Default for FieldElement {
    /// The additive identity.
    fn default() -> (r: Self)
        ensures
            r == FieldElement(0u32),
    {
        FieldElement(0)
    }
}

/// The arithmetic heart of Montgomery reduction, over unbounded integers:
/// with `t` built from the low half of `p` and the fixed-point inverse of
/// `q` modulo `R = 2^32`, the sum `s = p + (R - t) * q` is divisible by `R`,
/// its quotient stays below `2q`, and the quotient times `R` is congruent
/// to `p` modulo `q`.
proof fn lemma_montgomery_reduce(p: int, lo: int, t: int, s: int)
    requires
        0 <= p <= 8380416 * 8380416,
        lo == p % 0x1_0000_0000,
        t == (lo * 58728449) % 0x1_0000_0000,
        s == p + (0x1_0000_0000 - t) * 8380417,
    ensures
        s % 0x1_0000_0000 == 0,
        0 <= s / 0x1_0000_0000 < 2 * 8380417,
        ((s / 0x1_0000_0000) * 0x1_0000_0000) % 8380417 == p % 8380417,
{
    let ri: int = 0x1_0000_0000;
    let qi: int = 8380417;
    // t * q ≡ p (mod R), because q * QINV ≡ 1 (mod R).
    lemma_mod_division_less_than_divisor(p, ri);
    lemma_mod_division_less_than_divisor(lo * 58728449, ri);
    lemma_mul_mod_noop_left(lo * 58728449, qi, ri);
    lemma_mul_is_associative(lo, 58728449, qi);
    lemma_mul_mod_noop_right(lo, 58728449 * qi, ri);
    lemma_small_mod(lo as nat, ri as nat);
    assert((t * qi) % ri == lo);
    // s == p - t * q + R * q, so s ≡ p - t * q ≡ lo - lo ≡ 0 (mod R).
    lemma_mul_is_distributive_sub_other_way(qi, ri, t);
    lemma_mod_multiples_vanish(qi, p - t * qi, ri);
    lemma_sub_mod_noop(p, t * qi, ri);
    lemma_small_mod(0nat, ri as nat);
    assert(s % ri == 0);
    // 0 <= s <= (q - 1)^2 + R * q < R * 2q, so the quotient is below 2q.
    lemma_mul_inequality(ri - t, ri, qi);
    lemma_multiply_divide_lt(s, ri, 2 * qi);
    vstd::arithmetic::div_mod::lemma_div_pos_is_pos(s, ri);
    // s == R * (s / R) exactly, and adding (R - t) multiples of q to p
    // does not change its remainder modulo q.
    lemma_fundamental_div_mod(s, ri);
    lemma_mul_is_commutative(ri, s / ri);
    lemma_mul_is_commutative(ri - t, qi);
    lemma_mod_multiples_vanish(ri - t, p, qi);
}

/// Multiplication by the Montgomery radix is injective on canonical values:
/// the radix is invertible modulo the prime `q`.
proof fn lemma_mont_unique(x: int, y: int)
    requires
        0 <= x < FieldElement::Q,
        0 <= y < FieldElement::Q,
        (x * FieldElement::MONT_R) % (FieldElement::Q as int) == (y * FieldElement::MONT_R) % (
        FieldElement::Q as int),
    ensures
        x == y,
{
    let qi: int = FieldElement::Q as int;
    let ri: int = FieldElement::MONT_R as int;
    let wi: int = FieldElement::MONT_RINV as int;
    assert(ri * wi == 0x1_0000_0000 * 8265825);
    assert(0x1_0000_0000 * 8265825 % 8380417 == 1);
    assert((ri * wi) % qi == 1);
    lemma_mul_mod_noop_left(x * ri, wi, qi);
    lemma_mul_is_associative(x, ri, wi);
    lemma_mul_mod_noop_right(x, ri * wi, qi);
    lemma_small_mod(x as nat, qi as nat);
    assert(((x * ri) % qi * wi) % qi == x);
    lemma_mul_mod_noop_left(y * ri, wi, qi);
    lemma_mul_is_associative(y, ri, wi);
    lemma_mul_mod_noop_right(y, ri * wi, qi);
    lemma_small_mod(y as nat, qi as nat);
    assert(((y * ri) % qi * wi) % qi == y);
}

/// Closure: on canonical inputs each field operation lands in `[0, q)`.
pub proof fn lemma_field_ops_closed(a: int, b: int)
    requires
        0 <= a < FieldElement::Q,
        0 <= b < FieldElement::Q,
    ensures
        0 <= add_mod(a, b) < FieldElement::Q,
        0 <= sub_mod(a, b) < FieldElement::Q,
        0 <= mul_mod(a, b) < FieldElement::Q,
{
    let qi: int = FieldElement::Q as int;
    lemma_mod_division_less_than_divisor(a + b, qi);
    lemma_mod_division_less_than_divisor(a - b, qi);
    lemma_mod_division_less_than_divisor(a * b, qi);
}

/// Adding the additive identity changes nothing.
pub proof fn lemma_add_identity(a: int)
    requires
        0 <= a < FieldElement::Q,
    ensures
        add_mod(a, 0) == a,
{
    lemma_small_mod(a as nat, FieldElement::Q as nat);
}

/// Subtracting an element from itself gives the additive identity.
pub proof fn lemma_sub_self(a: int)
    requires
        0 <= a < FieldElement::Q,
    ensures
        sub_mod(a, a) == 0,
{
    lemma_small_mod(0nat, FieldElement::Q as nat);
}

/// Multiplying by the representation of one changes nothing; the public
/// product is in the plain domain, so one is the literal integer 1.
pub proof fn lemma_mul_identity(a: int)
    requires
        0 <= a < FieldElement::Q,
    ensures
        mul_mod(a, 1) == a,
{
    lemma_small_mod(a as nat, FieldElement::Q as nat);
}

/// Addition is commutative.
pub proof fn lemma_add_commutative(a: int, b: int)
    ensures
        add_mod(a, b) == add_mod(b, a),
{
}

/// Addition is associative.
pub proof fn lemma_add_associative(a: int, b: int, c: int)
    ensures
        add_mod(add_mod(a, b), c) == add_mod(a, add_mod(b, c)),
{
    let qi: int = FieldElement::Q as int;
    lemma_add_mod_noop(a + b, c, qi);
    lemma_mod_division_less_than_divisor(c, qi);
    vstd::arithmetic::div_mod::lemma_mod_twice(c, qi);
    lemma_add_mod_noop_right(a, b + c, qi);
    assert((add_mod(a, b) + c % qi) % qi == ((a + b) + c) % qi);
    assert(add_mod(a, add_mod(b, c)) == (a + (b + c)) % qi);
}

/// Multiplication is commutative.
pub proof fn lemma_mul_commutative(a: int, b: int)
    ensures
        mul_mod(a, b) == mul_mod(b, a),
{
    lemma_mul_is_commutative(a, b);
}

/// Multiplication is associative.
pub proof fn lemma_mul_associative(a: int, b: int, c: int)
    ensures
        mul_mod(mul_mod(a, b), c) == mul_mod(a, mul_mod(b, c)),
{
    let qi: int = FieldElement::Q as int;
    lemma_mul_mod_noop_left(a * b, c, qi);
    lemma_mul_mod_noop_right(a, b * c, qi);
    lemma_mul_is_associative(a, b, c);
}

/// Subtraction is addition of the additive inverse.
pub proof fn lemma_sub_is_add_inverse(a: int, b: int)
    requires
        0 <= a < FieldElement::Q,
        0 <= b < FieldElement::Q,
    ensures
        sub_mod(a, b) == add_mod(a, sub_mod(0, b)),
{
    let qi: int = FieldElement::Q as int;
    lemma_add_mod_noop_right(a, 0 - b, qi);
}

} // verus!
