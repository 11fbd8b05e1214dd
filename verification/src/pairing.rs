//! The pairing engine: the combined Miller loop over a list of pairs, the
//! final exponentiation, and the check that the outcome is the identity of
//! the target group.

use crate::curve::Fq2;
use crate::engine::{
    final_exp_is_identity, final_exp_is_one, fq12_byte_values, fq12_limb_values, fq_modulus,
    miller_loop_bytes, miller_loop_value, pair_values, pairs_values,
};
use crate::field::Fq;
use crate::ops::EcPairingPair;
use crate::uint::{half_bytes, le_value, limbs_value};
use vstd::prelude::*;

verus! {

/// The six coordinates of a pair: the first point's `x` and `y`, then the two
/// coefficients of the second point's `x` and of its `y`.
pub open spec fn pair_coords(pair: EcPairingPair) -> Seq<nat> {
    seq![
        pair.g1_point.x@,
        pair.g1_point.y@,
        pair.g2_point.x.c0@,
        pair.g2_point.x.c1@,
        pair.g2_point.y.c0@,
        pair.g2_point.y.c1@,
    ]
}

/// The coordinates of a list of pairs.
pub open spec fn pairs_coords(pairs: Seq<EcPairingPair>) -> Seq<Seq<nat>> {
    Seq::new(pairs.len(), |i: int| pair_coords(pairs[i]))
}

/// Whether all twelve coefficients are zero.
pub open spec fn is_zero12(f: Seq<nat>) -> bool {
    forall|i: int| 0 <= i < 12 ==> f[i] == 0
}

/// The success bit for a Miller-loop value: whether its final exponentiation
/// is the identity of the target group. Zero has no final exponentiation
/// other than zero, which is not the identity.
pub open spec fn pairing_check_spec(f: Seq<nat>) -> bool {
    !is_zero12(f) && final_exp_is_one(f)
}

/// The success bit for a list of pairs: whether the product of their
/// pairings is the identity of the target group.
pub open spec fn pairing_success(pairs: Seq<EcPairingPair>) -> bool {
    pairing_check_spec(miller_loop_value(pairs_coords(pairs)))
}

/// An element of the degree-12 extension of the base field, by its twelve
/// coefficients in tower order: two cubic halves of three quadratic
/// coefficients each.
#[derive(Clone, Copy, Debug, PartialEq, Eq)]
pub struct Fq12 {
    /// The coefficients.
    pub c: [[Fq2; 3]; 2],
}

impl View for Fq12 {
    type V = Seq<nat>;

    open spec fn view(&self) -> Seq<nat> {
        Seq::new(
            12,
            |i: int|
                if i % 2 == 0 {
                    self.c[i / 6][(i % 6) / 2].c0@
                } else {
                    self.c[i / 6][(i % 6) / 2].c1@
                },
        )
    }
}

/// The limbs of a quadratic coefficient.
fn fq2_limbs(e: &Fq2) -> (l: [[u64; 4]; 2])
    ensures
        limbs_value(l[0]) == e.c0@,
        limbs_value(l[1]) == e.c1@,
        e.c0@ < fq_modulus(),
        e.c1@ < fq_modulus(),
{
    [e.c0.limbs(), e.c1.limbs()]
}

/// The quadratic coefficient that a block of 64 canonical bytes spells.
fn fq2_from_bytes(block: &[u8; 64]) -> (e: Fq2)
    requires
        le_value(block@.subrange(0, 32)) < fq_modulus(),
        le_value(block@.subrange(32, 64)) < fq_modulus(),
    ensures
        e.c0@ == le_value(block@.subrange(0, 32)),
        e.c1@ == le_value(block@.subrange(32, 64)),
{
    let lo = half_bytes(block, 0);
    let hi = half_bytes(block, 1);
    Fq2 { c0: Fq::from_canonical_bytes(&lo), c1: Fq::from_canonical_bytes(&hi) }
}

impl Fq12 {
    /// The multiplicative identity.
    pub fn one() -> (f: Fq12)
        ensures
            f@ == seq![1nat, 0, 0, 0, 0, 0, 0, 0, 0, 0, 0, 0],
    {
        let z = Fq2 { c0: Fq::zero(), c1: Fq::zero() };
        let o = Fq2 { c0: Fq::one(), c1: Fq::zero() };
        let f = Fq12 { c: [[o, z, z], [z, z, z]] };
        assert(f@ =~= seq![1nat, 0, 0, 0, 0, 0, 0, 0, 0, 0, 0, 0]);
        f
    }

    /// Whether all twelve coefficients are zero.
    pub fn is_zero(&self) -> (z: bool)
        ensures
            z == is_zero12(self@),
    {
        let mut i: usize = 0;
        while i < 2
            invariant
                i <= 2,
                forall|k: int| 0 <= k < 6 * i ==> self@[k] == 0,
            decreases 2 - i,
        {
            let mut j: usize = 0;
            while j < 3
                invariant
                    i < 2,
                    j <= 3,
                    forall|k: int| 0 <= k < 6 * i + 2 * j ==> self@[k] == 0,
                decreases 3 - j,
            {
                let e = &self.c[i][j];
                let z0 = e.c0.is_zero();
                let z1 = e.c1.is_zero();
                if !z0 {
                    assert(self@[6 * i + 2 * j] == e.c0@);
                    return false;
                }
                if !z1 {
                    assert(self@[6 * i + 2 * j + 1] == e.c1@);
                    return false;
                }
                assert forall|k: int| 0 <= k < 6 * i + 2 * (j + 1) implies self@[k] == 0 by {
                    if k == 6 * i + 2 * j {
                        assert(self@[k] == e.c0@);
                    } else if k == 6 * i + 2 * j + 1 {
                        assert(self@[k] == e.c1@);
                    }
                }
                j += 1;
            }
            i += 1;
        }
        true
    }

    /// Whether the final exponentiation of this non-zero element is the
    /// identity of the target group.
    pub fn final_exp_is_identity(&self) -> (one: bool)
        requires
            !is_zero12(self@),
        ensures
            one == final_exp_is_one(self@),
    {
        let h0 = [fq2_limbs(&self.c[0][0]), fq2_limbs(&self.c[0][1]), fq2_limbs(&self.c[0][2])];
        let h1 = [fq2_limbs(&self.c[1][0]), fq2_limbs(&self.c[1][1]), fq2_limbs(&self.c[1][2])];
        let limbs = [h0, h1];
        proof {
            assert forall|i: int| 0 <= i < 12 implies #[trigger] fq12_limb_values(limbs)[i]
                == self@[i] && self@[i] < fq_modulus() by {
                let (a, b) = (i / 6, (i % 6) / 2);
                assert(limbs[a][b] == if a == 0 {
                    h0[b]
                } else {
                    h1[b]
                });
            }
            assert(fq12_limb_values(limbs) =~= self@);
            let k = choose|k: int| 0 <= k < 12 && self@[k] != 0;
            assert(fq12_limb_values(limbs)[k] != 0);
        }
        final_exp_is_identity(&limbs)
    }

    /// The success bit of a pairing check whose Miller loop gave this value.
    pub fn pairing_check(&self) -> (success: bool)
        ensures
            success == pairing_check_spec(self@),
    {
        if self.is_zero() {
            false
        } else {
            self.final_exp_is_identity()
        }
    }
}

/// The limbs of the six coordinates of a pair.
fn pair_limbs(pair: &EcPairingPair) -> (l: [[u64; 4]; 6])
    ensures
        pair_values(l) == pair_coords(*pair),
        forall|j: int| 0 <= j < 6 ==> limbs_value(#[trigger] l[j]) < fq_modulus(),
{
    let l = [
        pair.g1_point.x.limbs(),
        pair.g1_point.y.limbs(),
        pair.g2_point.x.c0.limbs(),
        pair.g2_point.x.c1.limbs(),
        pair.g2_point.y.c0.limbs(),
        pair.g2_point.y.c1.limbs(),
    ];
    assert(pair_values(l) =~= pair_coords(*pair));
    l
}

/// The limbs of the coordinates of a list of pairs.
fn pairs_limbs(pairs: &Vec<EcPairingPair>) -> (coords: Vec<[[u64; 4]; 6]>)
    ensures
        pairs_values(coords@) == pairs_coords(pairs@),
        forall|k: int, j: int|
            0 <= k < coords@.len() && 0 <= j < 6 ==> limbs_value(#[trigger] coords@[k][j])
                < fq_modulus(),
{
    let mut coords: Vec<[[u64; 4]; 6]> = Vec::new();
    let mut i: usize = 0;
    while i < pairs.len()
        invariant
            i <= pairs@.len(),
            coords@.len() == i,
            forall|k: int|
                0 <= k < i ==> pair_values(#[trigger] coords@[k]) == pair_coords(pairs@[k]),
            forall|k: int, j: int|
                0 <= k < i && 0 <= j < 6 ==> limbs_value(#[trigger] coords@[k][j]) < fq_modulus(),
        decreases pairs@.len() - i,
    {
        coords.push(pair_limbs(&pairs[i]));
        i += 1;
    }
    assert(pairs_values(coords@) =~= pairs_coords(pairs@));
    coords
}

/// One cubic half of a degree-12 element from its bytes.
fn fq6_from_bytes(r: &[[[u8; 64]; 3]; 2], a: usize) -> (h: [Fq2; 3])
    requires
        a < 2,
        forall|i: int| 0 <= i < 12 ==> #[trigger] fq12_byte_values(*r)[i] < fq_modulus(),
    ensures
        forall|b: int|
            0 <= b < 3 ==> (#[trigger] h[b]).c0@ == fq12_byte_values(*r)[6 * a + 2 * b] && h[b].c1@
                == fq12_byte_values(*r)[6 * a + 2 * b + 1],
{
    proof {
        let v = fq12_byte_values(*r);
        if a == 0 {
            assert(v[0] < fq_modulus() && v[1] < fq_modulus() && v[2] < fq_modulus() && v[3]
                < fq_modulus() && v[4] < fq_modulus() && v[5] < fq_modulus());
        } else {
            assert(v[6] < fq_modulus() && v[7] < fq_modulus() && v[8] < fq_modulus() && v[9]
                < fq_modulus() && v[10] < fq_modulus() && v[11] < fq_modulus());
        }
    }
    [fq2_from_bytes(&r[a][0]), fq2_from_bytes(&r[a][1]), fq2_from_bytes(&r[a][2])]
}

/// The combined Miller loop over all pairs at once.
pub fn multi_miller_loop(pairs: &Vec<EcPairingPair>) -> (f: Fq12)
    ensures
        f@ == miller_loop_value(pairs_coords(pairs@)),
{
    let coords = pairs_limbs(pairs);
    let r = miller_loop_bytes(&coords);
    let h0 = fq6_from_bytes(&r, 0);
    let h1 = fq6_from_bytes(&r, 1);
    let f = Fq12 { c: [h0, h1] };
    proof {
        let v = fq12_byte_values(r);
        assert(f.c[0] == h0 && f.c[1] == h1);
        assert(f@[0] == v[0] && f@[1] == v[1] && f@[2] == v[2] && f@[3] == v[3]);
        assert(f@[4] == v[4] && f@[5] == v[5] && f@[6] == v[6] && f@[7] == v[7]);
        assert(f@[8] == v[8] && f@[9] == v[9] && f@[10] == v[10] && f@[11] == v[11]);
        assert(f@ =~= v);
    }
    f
}

/// The pairing check: whether the product of the pairings of all pairs is
/// the identity of the target group.
pub fn pairing_product_is_one(pairs: &Vec<EcPairingPair>) -> (success: bool)
    ensures
        success == pairing_success(pairs@),
{
    let gt = multi_miller_loop(pairs);
    gt.pairing_check()
}

} // verus!
