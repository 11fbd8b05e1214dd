//! Points of BN254 in affine coordinates, and the group-law gadgets that the
//! circuit lays on them.
//!
//! `(0, 0)` is not on the curve; it stands for the group's identity. The
//! chord gadgets know nothing of it: they apply the chord formula to whatever
//! coordinates they are given, and ask only that the two `x` differ.

use crate::engine::{fq_modulus, g1_mul_bytes, g1_scalar_mul, sub_mod};
use crate::field::{Fq, Fr};
use vstd::arithmetic::div_mod::{lemma_mul_mod_noop_left, lemma_mul_mod_noop_right, lemma_small_mod};
use vstd::prelude::*;

verus! {

/// The product in the base field.
pub open spec fn fq_mul(a: nat, b: nat) -> nat {
    (a * b) % fq_modulus()
}

/// The difference in the base field.
pub open spec fn fq_sub(a: nat, b: nat) -> nat {
    sub_mod(a, b, fq_modulus())
}

/// Whether `b` is the representative of the inverse of `a` in the base field.
pub open spec fn is_inverse(a: nat, b: nat) -> bool {
    b < fq_modulus() && (a * b) % fq_modulus() == 1
}

/// The inverse in the base field, for an element that has one.
pub open spec fn fq_inv(a: nat) -> nat {
    choose|b: nat| is_inverse(a, b)
}

/// Whether both coordinates are zero: the mark of the group's identity.
pub open spec fn is_identity(p: (nat, nat)) -> bool {
    p.0 == 0 && p.1 == 0
}

/// The point with the same `x` and the opposite `y`.
pub open spec fn negate(p: (nat, nat)) -> (nat, nat) {
    (p.0, fq_sub(0, p.1))
}

/// Whether `y^2 - x^3 == 3` in the base field.
pub open spec fn on_curve(p: (nat, nat)) -> bool {
    fq_sub(fq_mul(p.1, p.1), fq_mul(fq_mul(p.0, p.0), p.0)) == 3
}

/// The chord formula: with `l = (q.y - p.y) / (q.x - p.x)`, the point
/// `(l^2 - p.x - q.x, l * (p.x - x3) - p.y)`. For two points of the curve
/// with different `x` this is their sum.
pub open spec fn chord(p: (nat, nat), q: (nat, nat)) -> (nat, nat) {
    let l = fq_mul(fq_sub(q.1, p.1), fq_inv(fq_sub(q.0, p.0)));
    let x3 = fq_sub(fq_sub(fq_mul(l, l), p.0), q.0);
    let y3 = fq_sub(fq_mul(l, fq_sub(p.0, x3)), p.1);
    (x3, y3)
}

/// An element of the base field has at most one inverse.
pub proof fn lemma_inverse_unique(a: nat, b: nat, c: nat)
    requires
        is_inverse(a, b),
        is_inverse(a, c),
    ensures
        b == c,
{
    let m = fq_modulus() as int;
    let (a, b, c) = (a as int, b as int, c as int);
    lemma_mul_mod_noop_right(b, a * c, m);
    lemma_mul_mod_noop_left(a * b, c, m);
    assert(b * (a * c) == (a * b) * c) by (nonlinear_arith);
    assert(b * 1 == b && 1 * c == c);
    lemma_small_mod(b as nat, m as nat);
    lemma_small_mod(c as nat, m as nat);
}

/// Whether `a` has an inverse in the base field, as every element but zero
/// has.
pub open spec fn invertible(a: nat) -> bool {
    exists|b: nat| is_inverse(a, b)
}

/// The chord formula's point has coordinates below the modulus.
pub proof fn lemma_chord_in_range(p: (nat, nat), q: (nat, nat))
    ensures
        chord(p, q).0 < fq_modulus(),
        chord(p, q).1 < fq_modulus(),
{
}

/// Two elements whose difference has an inverse are not the same.
pub proof fn lemma_invertible_differs(a: nat, b: nat)
    requires
        a < fq_modulus(),
        b < fq_modulus(),
        invertible(fq_sub(a, b)),
    ensures
        a != b,
{
    if a == b {
        let i = choose|i: nat| is_inverse(fq_sub(a, b), i);
        assert(fq_sub(a, b) == 0);
        assert(0 * i == 0);
    }
}

/// The difference of two elements is zero only if they are the same.
pub proof fn lemma_sub_zero(a: nat, b: nat)
    requires
        a < fq_modulus(),
        b < fq_modulus(),
    ensures
        fq_sub(a, b) == 0 <==> a == b,
        fq_sub(a, b) < fq_modulus(),
{
}

/// A point of the first group, or `(0, 0)` for its identity.
#[derive(Clone, Copy, Debug, PartialEq, Eq)]
pub struct G1Affine {
    /// The first coordinate.
    pub x: Fq,
    /// The second coordinate.
    pub y: Fq,
}

impl View for G1Affine {
    type V = (nat, nat);

    open spec fn view(&self) -> (nat, nat) {
        (self.x@, self.y@)
    }
}

impl G1Affine {
    /// The point with the given coordinates.
    pub fn new(x: Fq, y: Fq) -> (p: G1Affine)
        ensures
            p@ == (x@, y@),
    {
        G1Affine { x, y }
    }

    /// `(0, 0)`, which stands for the identity.
    pub fn identity() -> (p: G1Affine)
        ensures
            p@ == (0nat, 0nat),
    {
        G1Affine { x: Fq::zero(), y: Fq::zero() }
    }

    /// The group's generator `(1, 2)`.
    pub fn generator() -> (p: G1Affine)
        ensures
            p@ == (1nat, 2nat),
    {
        G1Affine { x: Fq::one(), y: Fq::from_u64(2) }
    }

    /// Whether this is `(0, 0)`.
    pub fn is_identity(&self) -> (z: bool)
        ensures
            z == is_identity(self@),
    {
        let x_is_zero = self.x.is_zero();
        let y_is_zero = self.y.is_zero();
        x_is_zero && y_is_zero
    }

    /// Whether two points have the same coordinates.
    pub fn equals(&self, other: &G1Affine) -> (e: bool)
        ensures
            e == (self@ == other@),
    {
        let same_x = self.x.equals(&other.x);
        let same_y = self.y.equals(&other.y);
        same_x && same_y
    }

    /// The point with the same `x` and the opposite `y`.
    pub fn neg(&self) -> (r: G1Affine)
        ensures
            r@ == negate(self@),
    {
        G1Affine { x: self.x, y: Fq::zero().sub(&self.y) }
    }

    /// Whether the coordinates satisfy the curve's equation `y^2 = x^3 + 3`.
    pub fn is_on_curve(&self) -> (c: bool)
        ensures
            c == on_curve(self@),
    {
        let y2 = self.y.mul(&self.y);
        let x3 = self.x.mul(&self.x).mul(&self.x);
        y2.sub(&x3).equals(&Fq::from_u64(3))
    }

    /// The chord gadget for a sum: nothing where the two `x` are the same,
    /// else the chord formula's point.
    pub fn add_unequal(&self, other: &G1Affine) -> (r: Option<G1Affine>)
        ensures
            r is None <==> self@.0 == other@.0,
            r matches Some(s) ==> s@ == chord(self@, other@),
            r is Some ==> invertible(fq_sub(other@.0, self@.0)),
    {
        let dx = other.x.sub(&self.x);
        proof {
            use_type_invariant(&self.x);
            use_type_invariant(&other.x);
            self.x.lemma_in_range();
            other.x.lemma_in_range();
            lemma_sub_zero(other.x@, self.x@);
        }
        match dx.invert() {
            None => None,
            Some(inv) => {
                proof {
                    assert(is_inverse(dx@, inv@));
                    lemma_inverse_unique(dx@, inv@, fq_inv(dx@));
                }
                let dy = other.y.sub(&self.y);
                let l = dy.mul(&inv);
                let x3 = l.mul(&l).sub(&self.x).sub(&other.x);
                let y3 = l.mul(&self.x.sub(&x3)).sub(&self.y);
                Some(G1Affine { x: x3, y: y3 })
            },
        }
    }

    /// The chord gadget for a difference: the sum with the other point's
    /// opposite.
    pub fn sub_unequal(&self, other: &G1Affine) -> (r: Option<G1Affine>)
        ensures
            r is None <==> self@.0 == other@.0,
            r matches Some(s) ==> s@ == chord(self@, negate(other@)),
            r is Some ==> invertible(fq_sub(other@.0, self@.0)),
    {
        let minus = other.neg();
        self.add_unequal(&minus)
    }

    /// The scalar-multiplication engine: `s` times this point.
    pub fn scalar_mul(&self, s: &Fr) -> (r: G1Affine)
        ensures
            r@ == g1_scalar_mul(self@.0, self@.1, s@),
    {
        let x = self.x.limbs();
        let y = self.y.limbs();
        let k = s.limbs();
        let bytes = g1_mul_bytes(&x, &y, &k);
        G1Affine {
            x: Fq::from_canonical_bytes(&bytes[0]),
            y: Fq::from_canonical_bytes(&bytes[1]),
        }
    }
}

/// An element of the quadratic extension of the base field, `c0 + c1 * u`.
#[derive(Clone, Copy, Debug, PartialEq, Eq)]
pub struct Fq2 {
    /// The coefficient of 1.
    pub c0: Fq,
    /// The coefficient of `u`.
    pub c1: Fq,
}

impl View for Fq2 {
    type V = (nat, nat);

    open spec fn view(&self) -> (nat, nat) {
        (self.c0@, self.c1@)
    }
}

impl Fq2 {
    /// The element `c0 + c1 * u`.
    pub fn new(c0: Fq, c1: Fq) -> (e: Fq2)
        ensures
            e@ == (c0@, c1@),
    {
        Fq2 { c0, c1 }
    }
}

/// A point of the second group, or the all-zero point for its identity.
#[derive(Clone, Copy, Debug, PartialEq, Eq)]
pub struct G2Affine {
    /// The first coordinate.
    pub x: Fq2,
    /// The second coordinate.
    pub y: Fq2,
}

impl View for G2Affine {
    type V = ((nat, nat), (nat, nat));

    open spec fn view(&self) -> ((nat, nat), (nat, nat)) {
        (self.x@, self.y@)
    }
}

impl G2Affine {
    /// The point with the given coordinates.
    pub fn new(x: Fq2, y: Fq2) -> (p: G2Affine)
        ensures
            p@ == (x@, y@),
    {
        G2Affine { x, y }
    }

    /// The all-zero point, which stands for the identity.
    pub fn identity() -> (p: G2Affine)
        ensures
            p@ == ((0nat, 0nat), (0nat, 0nat)),
    {
        G2Affine {
            x: Fq2 { c0: Fq::zero(), c1: Fq::zero() },
            y: Fq2 { c0: Fq::zero(), c1: Fq::zero() },
        }
    }
}

} // verus!
