//! The predicate that the circuit lays on each kind of operation, and what
//! is known of the point-addition predicate at its edges.

use crate::algebra::lemma_chord_cancel;
use crate::curve::{
    chord, fq_sub, invertible, is_identity, lemma_chord_in_range, lemma_invertible_differs,
    lemma_sub_zero, negate, on_curve,
};
use crate::engine::{fq_modulus, g1_scalar_mul};
use crate::ops::EcPairingPair;
use crate::pairing::pairing_success;
use vstd::prelude::*;

verus! {

/// The point-addition predicate, masked by the point `rand`.
///
/// The mask is a point of the curve. Each operand that is not `(0, 0)` is
/// added to the running sum by the chord formula, the claimed sum is
/// subtracted, and the outcome must be the mask again. Each of the three
/// chord gadgets demands that its two `x` differ, whether or not its result
/// is kept.
pub open spec fn ec_add_constraints(
    rand: (nat, nat),
    p: (nat, nat),
    q: (nat, nat),
    r: (nat, nat),
) -> bool {
    let sum1 = if is_identity(p) {
        rand
    } else {
        chord(rand, p)
    };
    let sum2 = if is_identity(q) {
        sum1
    } else {
        chord(sum1, q)
    };
    let sum3 = if is_identity(r) {
        sum2
    } else {
        chord(sum2, negate(r))
    };
    &&& on_curve(rand)
    &&& rand.0 != p.0
    &&& sum1.0 != q.0
    &&& sum2.0 != r.0
    &&& sum3 == rand
}

/// The scalar-multiplication predicate: the engine's product is the claimed
/// one.
pub open spec fn ec_mul_constraints(p: (nat, nat), s: nat, r: (nat, nat)) -> bool {
    g1_scalar_mul(p.0, p.1, s) == r
}

/// The pairing predicate: the computed success bit is the claimed outcome.
pub open spec fn ec_pairing_constraints(pairs: Seq<EcPairingPair>, output: bool) -> bool {
    pairing_success(pairs) == output
}

/// The identity as first summand: the claim `(0, 0) + q == q` is accepted
/// for every `q` other than `(0, 0)`, provided the mask is a point of the
/// curve with non-zero `x` and both chord gadgets apply, that is, the
/// differences that they divide by have inverses.
pub proof fn lemma_add_identity_left(rand: (nat, nat), q: (nat, nat))
    requires
        rand.0 < fq_modulus(),
        rand.1 < fq_modulus(),
        q.0 < fq_modulus(),
        q.1 < fq_modulus(),
        !is_identity(q),
        on_curve(rand),
        rand.0 != 0,
        invertible(fq_sub(q.0, rand.0)),
        invertible(fq_sub(q.0, chord(rand, q).0)),
    ensures
        ec_add_constraints(rand, (0, 0), q, q),
{
    lemma_chord_cancel(rand, q);
    lemma_invertible_differs(q.0, rand.0);
    lemma_chord_in_range(rand, q);
    lemma_invertible_differs(q.0, chord(rand, q).0);
}

/// The identity as second summand: the claim `p + (0, 0) == p` is accepted
/// for every `p` other than `(0, 0)`, provided the mask is a point of the
/// curve, the sum of the mask and `p` has non-zero `x`, and both chord
/// gadgets apply.
pub proof fn lemma_add_identity_right(rand: (nat, nat), p: (nat, nat))
    requires
        rand.0 < fq_modulus(),
        rand.1 < fq_modulus(),
        p.0 < fq_modulus(),
        p.1 < fq_modulus(),
        !is_identity(p),
        on_curve(rand),
        chord(rand, p).0 != 0,
        invertible(fq_sub(p.0, rand.0)),
        invertible(fq_sub(p.0, chord(rand, p).0)),
    ensures
        ec_add_constraints(rand, p, (0, 0), p),
{
    lemma_chord_cancel(rand, p);
    lemma_invertible_differs(p.0, rand.0);
    lemma_chord_in_range(rand, p);
    lemma_invertible_differs(p.0, chord(rand, p).0);
}

/// Opposite summands: the claim `p + (-p) == (0, 0)` is accepted for every
/// `p` other than `(0, 0)`, provided the mask is a point of the curve with
/// non-zero `x` and both chord gadgets apply.
pub proof fn lemma_add_opposite(rand: (nat, nat), p: (nat, nat))
    requires
        rand.0 < fq_modulus(),
        rand.1 < fq_modulus(),
        p.0 < fq_modulus(),
        p.1 < fq_modulus(),
        !is_identity(p),
        on_curve(rand),
        rand.0 != 0,
        invertible(fq_sub(p.0, rand.0)),
        invertible(fq_sub(p.0, chord(rand, p).0)),
    ensures
        ec_add_constraints(rand, p, negate(p), (0, 0)),
{
    lemma_chord_cancel(rand, p);
    lemma_invertible_differs(p.0, rand.0);
    lemma_chord_in_range(rand, p);
    lemma_invertible_differs(p.0, chord(rand, p).0);
    lemma_sub_zero(0, p.1);
}

/// The predicate of a padding point addition holds exactly when the mask is
/// a point of the curve whose `x` is not zero.
pub proof fn lemma_add_padding_constraints(rand: (nat, nat))
    ensures
        ec_add_constraints(rand, (0, 0), (0, 0), (0, 0)) <==> on_curve(rand)
            && rand.0 != 0,
{
}

} // verus!
