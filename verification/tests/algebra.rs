//! Tests for the field and polynomial arithmetic.

use ml_dsa::field::FieldElement;
use ml_dsa::poly::Polynomial;

const Q: u32 = 8380417;

/// A small deterministic generator, so the cross-checks cover many pairs
/// without an outside crate.
fn next_rand(state: &mut u64) -> u64 {
    *state = state
        .wrapping_mul(6364136223846793005)
        .wrapping_add(1442695040888963407);
    *state >> 16
}

fn canonical(state: &mut u64) -> u32 {
    (next_rand(state) % (Q as u64)) as u32
}

#[test]
fn add_wraps_exactly_once() {
    let c = FieldElement(5) + FieldElement(Q - 3);
    assert_eq!(c, FieldElement(2));
}

#[test]
fn mul_by_minus_one() {
    let c = FieldElement(2) * FieldElement(Q - 1);
    assert_eq!(c, FieldElement(Q - 2));
}

#[test]
fn sub_zero_minus_largest() {
    let c = FieldElement(0) - FieldElement(Q - 1);
    assert_eq!(c, FieldElement(1));
}

#[test]
fn add_identity() {
    let mut state: u64 = 7;
    for _ in 0..100 {
        let a = FieldElement(canonical(&mut state));
        assert_eq!(a + FieldElement(0), a);
    }
    assert_eq!(FieldElement(Q - 1) + FieldElement(0), FieldElement(Q - 1));
}

#[test]
fn sub_self_is_zero() {
    let mut state: u64 = 11;
    for _ in 0..100 {
        let a = FieldElement(canonical(&mut state));
        assert_eq!(a - a, FieldElement(0));
    }
    assert_eq!(FieldElement(0) - FieldElement(0), FieldElement(0));
}

#[test]
fn mul_identity_is_literal_one() {
    // The public product is normalized out of the Montgomery domain, so the
    // multiplicative identity is the literal integer 1.
    let mut state: u64 = 13;
    for _ in 0..100 {
        let a = FieldElement(canonical(&mut state));
        assert_eq!(a * FieldElement(1), a);
    }
    assert_eq!(FieldElement(Q - 1) * FieldElement(1), FieldElement(Q - 1));
}

#[test]
fn add_commutes_and_associates() {
    let mut state: u64 = 17;
    for _ in 0..100 {
        let a = FieldElement(canonical(&mut state));
        let b = FieldElement(canonical(&mut state));
        let c = FieldElement(canonical(&mut state));
        assert_eq!(a + b, b + a);
        assert_eq!((a + b) + c, a + (b + c));
    }
}

#[test]
fn mul_commutes_and_associates() {
    let mut state: u64 = 19;
    for _ in 0..100 {
        let a = FieldElement(canonical(&mut state));
        let b = FieldElement(canonical(&mut state));
        let c = FieldElement(canonical(&mut state));
        assert_eq!(a * b, b * a);
        assert_eq!((a * b) * c, a * (b * c));
    }
}

#[test]
fn sub_is_add_of_negation() {
    let mut state: u64 = 23;
    for _ in 0..100 {
        let a = FieldElement(canonical(&mut state));
        let b = FieldElement(canonical(&mut state));
        assert_eq!(a - b, a + (FieldElement(0) - b));
    }
}

#[test]
fn ops_stay_canonical() {
    let mut state: u64 = 29;
    for _ in 0..1000 {
        let a = FieldElement(canonical(&mut state));
        let b = FieldElement(canonical(&mut state));
        assert!((a + b).0 < Q);
        assert!((a - b).0 < Q);
        assert!((a * b).0 < Q);
    }
    assert!((FieldElement(Q - 1) + FieldElement(Q - 1)).0 < Q);
    assert!((FieldElement(0) - FieldElement(Q - 1)).0 < Q);
    assert!((FieldElement(Q - 1) * FieldElement(Q - 1)).0 < Q);
}

#[test]
fn mul_matches_naive_reference() {
    let mut state: u64 = 0x2718281828459045;
    for _ in 0..10000 {
        let a = canonical(&mut state);
        let b = canonical(&mut state);
        let expected = ((a as u64 * b as u64) % (Q as u64)) as u32;
        assert_eq!(FieldElement(a) * FieldElement(b), FieldElement(expected));
    }
}

#[test]
fn montgomery_mul_matches_reference() {
    // montgomery_mul leaves the product scaled by 2^(-32) mod q, so check
    // result * 2^32 ≡ a * b (mod q) with plain 128-bit arithmetic.
    let mut state: u64 = 0x314159265358979;
    for _ in 0..10000 {
        let a = canonical(&mut state);
        let b = canonical(&mut state);
        let r = FieldElement::montgomery_mul(FieldElement(a), FieldElement(b));
        assert!(r.0 < Q);
        let lhs = (r.0 as u128) << 32;
        let rhs = a as u128 * b as u128;
        assert_eq!(lhs % (Q as u128), rhs % (Q as u128));
    }
}

#[test]
fn small_reduce_halves() {
    assert_eq!(FieldElement::small_reduce(0), 0);
    assert_eq!(FieldElement::small_reduce(Q - 1), Q - 1);
    assert_eq!(FieldElement::small_reduce(Q), 0);
    assert_eq!(FieldElement::small_reduce(Q + 1), 1);
    assert_eq!(FieldElement::small_reduce(2 * Q - 1), Q - 1);
}

#[test]
fn field_default_is_zero() {
    assert_eq!(FieldElement::default(), FieldElement(0));
}

fn ramp(seed: u32) -> Vec<FieldElement> {
    (0..256u32)
        .map(|i| FieldElement((i.wrapping_mul(seed).wrapping_add(seed)) % Q))
        .collect()
}

#[test]
fn poly_new_round_trips() {
    let coeffs = ramp(1234567);
    let p = Polynomial::new(coeffs.clone());
    for (i, c) in coeffs.iter().enumerate() {
        assert_eq!(p.coefficient(i), *c);
    }
}

#[test]
fn poly_add_is_pointwise() {
    let a = Polynomial::new(ramp(99991));
    let b = Polynomial::new(ramp(31337));
    let r = a.add(&b);
    for i in 0..256 {
        assert_eq!(r.coefficient(i), a.coefficient(i) + b.coefficient(i));
    }
}

#[test]
fn poly_sub_is_pointwise() {
    let a = Polynomial::new(ramp(55555));
    let b = Polynomial::new(ramp(77777));
    let r = a.sub(&b);
    for i in 0..256 {
        assert_eq!(r.coefficient(i), a.coefficient(i) - b.coefficient(i));
    }
}

#[test]
fn poly_scalar_mul_is_pointwise() {
    let a = Polynomial::new(ramp(424242));
    let s = FieldElement(123456);
    let r = a.scalar_mul(s);
    for i in 0..256 {
        assert_eq!(r.coefficient(i), s * a.coefficient(i));
    }
}

#[test]
fn poly_add_zero_is_identity() {
    let a = Polynomial::new(ramp(8675309));
    let r = a.add(&Polynomial::zero());
    assert!(r == a);
}

#[test]
fn poly_scalar_mul_one_is_identity() {
    let a = Polynomial::new(ramp(2468));
    let r = a.scalar_mul(FieldElement(1));
    assert!(r == a);
}

#[test]
fn poly_sub_self_is_zero() {
    let a = Polynomial::new(ramp(1357));
    let r = a.sub(&a);
    assert!(r == Polynomial::zero());
}

#[test]
fn poly_default_is_zero() {
    let d = Polynomial::default();
    assert!(d == Polynomial::zero());
    for i in 0..256 {
        assert_eq!(d.coefficient(i), FieldElement(0));
    }
}

#[test]
fn poly_eq_sees_every_coefficient() {
    let a = Polynomial::new(ramp(111));
    let mut coeffs = ramp(111);
    coeffs[255] = coeffs[255] + FieldElement(1);
    let b = Polynomial::new(coeffs);
    assert!(a != b);
    let c = Polynomial::new(ramp(111));
    assert!(a == c);
}

#[test]
fn poly_clone_keeps_coefficients() {
    let a = Polynomial::new(ramp(3141));
    let b = a.clone();
    assert!(a == b);
    for i in 0..256 {
        assert_eq!(b.coefficient(i), a.coefficient(i));
    }
}
