//! The arithmetic engine: every call into `halo2curves` is made here.
//!
//! Field elements cross this boundary as plain numbers: four 64-bit limbs on
//! the way in, little-endian bytes on the way out. Nothing in this file is
//! proved; each function states what the outside code is taken to do.

use crate::uint::{le_value, limbs_value};
use halo2curves::bn256::{multi_miller_loop, Fq, Fq12, Fq2, Fq6, Fr, G1Affine, G2Affine, Gt};
use halo2curves::ff::Field;
use halo2curves::group::Group;
use halo2curves::pairing::MillerLoopResult;
use vstd::prelude::*;

verus! {

/// The base field's modulus.
pub open spec fn fq_modulus() -> nat {
    0x30644e72e131a029b85045b68181585d97816a916871ca8d3c208c16d87cfd47nat
}

/// The scalar field's modulus, the order of the curve's group.
pub open spec fn fr_modulus() -> nat {
    0x30644e72e131a029b85045b68181585d2833e84879b9709143e1f593f0000001nat
}

/// `a - b` in the field of modulus `m`, for `a, b < m`.
pub open spec fn sub_mod(a: nat, b: nat, m: nat) -> nat {
    ((a + m - b) % (m as int)) as nat
}

/// The six coordinates of a pair of points: the first point's `x` and `y`,
/// then the two coefficients of the second point's `x` and of its `y`.
pub open spec fn pair_values(p: [[u64; 4]; 6]) -> Seq<nat> {
    Seq::new(6, |j: int| limbs_value(p[j]))
}

/// The coordinates of a list of pairs.
pub open spec fn pairs_values(ps: Seq<[[u64; 4]; 6]>) -> Seq<Seq<nat>> {
    Seq::new(ps.len(), |i: int| pair_values(ps[i]))
}

/// The twelve base-field coefficients of a degree-12 extension element held
/// as limbs, in tower order.
pub open spec fn fq12_limb_values(f: [[[[u64; 4]; 2]; 3]; 2]) -> Seq<nat> {
    Seq::new(12, |i: int| limbs_value(f[i / 6][(i % 6) / 2][i % 2]))
}

/// The twelve base-field coefficients of a degree-12 extension element held
/// as bytes, in tower order: each block of 64 bytes holds two coefficients of
/// 32 bytes.
pub open spec fn fq12_byte_values(f: [[[u8; 64]; 3]; 2]) -> Seq<nat> {
    Seq::new(
        12,
        |i: int| le_value(f[i / 6][(i % 6) / 2]@.subrange(32 * (i % 2), 32 * (i % 2) + 32)),
    )
}

/// The affine coordinates of `s` times the point `(x, y)`, as `halo2curves`
/// computes them; `(0, 0)` stands for the group's identity.
pub uninterp spec fn g1_scalar_mul(x: nat, y: nat, s: nat) -> (nat, nat);

/// The twelve coefficients of the combined Miller loop over a list of pairs.
pub uninterp spec fn miller_loop_value(pairs: Seq<Seq<nat>>) -> Seq<nat>;

/// Whether the final exponentiation of a non-zero Miller-loop value is the
/// target group's identity.
pub uninterp spec fn final_exp_is_one(f: Seq<nat>) -> bool;

/// `halo2curves::bn256::Fq::from_raw` followed by `Fq::to_bytes`: the 32
/// little-endian bytes of the canonical representative of the number that the
/// limbs stand for.
#[verifier::external_body]
pub(crate) fn fq_canonical_bytes(a: &[u64; 4]) -> (r: [u8; 32])
    ensures
        le_value(r@) == limbs_value(*a) % fq_modulus(),
{
    Fq::from_raw(*a).to_bytes()
}

/// `halo2curves::bn256::Fq`'s subtraction: the canonical bytes of `a - b` in
/// the base field.
#[verifier::external_body]
pub(crate) fn fq_sub_bytes(a: &[u64; 4], b: &[u64; 4]) -> (r: [u8; 32])
    requires
        limbs_value(*a) < fq_modulus(),
        limbs_value(*b) < fq_modulus(),
    ensures
        le_value(r@) == sub_mod(limbs_value(*a), limbs_value(*b), fq_modulus()),
{
    (Fq::from_raw(*a) - Fq::from_raw(*b)).to_bytes()
}

/// `halo2curves::bn256::Fq`'s multiplication: the canonical bytes of `a * b`
/// in the base field.
#[verifier::external_body]
pub(crate) fn fq_mul_bytes(a: &[u64; 4], b: &[u64; 4]) -> (r: [u8; 32])
    requires
        limbs_value(*a) < fq_modulus(),
        limbs_value(*b) < fq_modulus(),
    ensures
        le_value(r@) == (limbs_value(*a) * limbs_value(*b)) % fq_modulus(),
{
    (Fq::from_raw(*a) * Fq::from_raw(*b)).to_bytes()
}

/// `halo2curves::bn256::Fq::invert`: nothing for zero; for any other element
/// the canonical bytes of the element whose product with it is one.
#[verifier::external_body]
pub(crate) fn fq_invert_bytes(a: &[u64; 4]) -> (r: Option<[u8; 32]>)
    requires
        limbs_value(*a) < fq_modulus(),
    ensures
        r is None <==> limbs_value(*a) == 0,
        r matches Some(b) ==> le_value(b@) < fq_modulus() && (limbs_value(*a) * le_value(b@))
            % fq_modulus() == 1,
{
    Option::<Fq>::from(Fq::from_raw(*a).invert()).map(|x| x.to_bytes())
}

/// `halo2curves::bn256::Fr::from_raw` followed by `Fr::to_bytes`: the 32
/// little-endian bytes of the canonical representative of the number that the
/// limbs stand for.
#[verifier::external_body]
pub(crate) fn fr_canonical_bytes(a: &[u64; 4]) -> (r: [u8; 32])
    ensures
        le_value(r@) == limbs_value(*a) % fr_modulus(),
{
    Fr::from_raw(*a).to_bytes()
}

/// `halo2curves::bn256::Fr`'s addition: the canonical bytes of `a + b` in the
/// scalar field.
#[verifier::external_body]
pub(crate) fn fr_add_bytes(a: &[u64; 4], b: &[u64; 4]) -> (r: [u8; 32])
    requires
        limbs_value(*a) < fr_modulus(),
        limbs_value(*b) < fr_modulus(),
    ensures
        le_value(r@) == (limbs_value(*a) + limbs_value(*b)) % fr_modulus(),
{
    (Fr::from_raw(*a) + Fr::from_raw(*b)).to_bytes()
}

/// `halo2curves::bn256::Fr`'s multiplication: the canonical bytes of `a * b`
/// in the scalar field.
#[verifier::external_body]
pub(crate) fn fr_mul_bytes(a: &[u64; 4], b: &[u64; 4]) -> (r: [u8; 32])
    requires
        limbs_value(*a) < fr_modulus(),
        limbs_value(*b) < fr_modulus(),
    ensures
        le_value(r@) == (limbs_value(*a) * limbs_value(*b)) % fr_modulus(),
{
    (Fr::from_raw(*a) * Fr::from_raw(*b)).to_bytes()
}

/// `halo2curves::bn256::G1Affine`'s multiplication by a scalar, brought back
/// to affine coordinates: the canonical bytes of the product's `x` and `y`.
/// The product is a function of the three numbers alone, whether or not
/// `(x, y)` lies on the curve.
#[verifier::external_body]
pub(crate) fn g1_mul_bytes(x: &[u64; 4], y: &[u64; 4], s: &[u64; 4]) -> (r: [[u8; 32]; 2])
    requires
        limbs_value(*x) < fq_modulus(),
        limbs_value(*y) < fq_modulus(),
        limbs_value(*s) < fr_modulus(),
    ensures
        (le_value(r[0]@), le_value(r[1]@)) == g1_scalar_mul(
            limbs_value(*x),
            limbs_value(*y),
            limbs_value(*s),
        ),
        le_value(r[0]@) < fq_modulus(),
        le_value(r[1]@) < fq_modulus(),
{
    let p = G1Affine { x: Fq::from_raw(*x), y: Fq::from_raw(*y) };
    let r = G1Affine::from(p * Fr::from_raw(*s));
    [r.x.to_bytes(), r.y.to_bytes()]
}

/// `halo2curves::bn256::multi_miller_loop`: the loop's value over all pairs at
/// once, each of its six quadratic coefficients written by `Fq2::to_bytes` as
/// the canonical bytes of its two base-field coefficients. A pair whose first
/// or second point is `(0, 0)` is passed over by the loop.
#[verifier::external_body]
pub(crate) fn miller_loop_bytes(pairs: &Vec<[[u64; 4]; 6]>) -> (r: [[[u8; 64]; 3]; 2])
    requires
        forall|i: int, j: int|
            0 <= i < pairs@.len() && 0 <= j < 6 ==> limbs_value(#[trigger] pairs@[i][j])
                < fq_modulus(),
    ensures
        fq12_byte_values(r) == miller_loop_value(pairs_values(pairs@)),
        forall|i: int| 0 <= i < 12 ==> #[trigger] fq12_byte_values(r)[i] < fq_modulus(),
{
    let f = Fq::from_raw;
    let points: Vec<_> = pairs.iter().map(|c| (
        G1Affine { x: f(c[0]), y: f(c[1]) },
        G2Affine { x: Fq2::new(f(c[2]), f(c[3])), y: Fq2::new(f(c[4]), f(c[5])) }
    )).collect();
    let terms: Vec<_> = points.iter().map(|t| (&t.0, &t.1)).collect();
    let m = multi_miller_loop(&terms);
    [m.c0(), m.c1()].map(|h| [h.c0(), h.c1(), h.c2()].map(Fq2::to_bytes))
}

/// `MillerLoopResult::final_exponentiation` on `halo2curves::bn256::Fq12`,
/// compared with `Gt::identity()`. The outside function fails on zero, which
/// has no inverse, so zero is left out.
#[verifier::external_body]
pub(crate) fn final_exp_is_identity(f: &[[[[u64; 4]; 2]; 3]; 2]) -> (r: bool)
    requires
        forall|i: int| 0 <= i < 12 ==> #[trigger] fq12_limb_values(*f)[i] < fq_modulus(),
        exists|i: int| 0 <= i < 12 && #[trigger] fq12_limb_values(*f)[i] != 0,
    ensures
        r == final_exp_is_one(fq12_limb_values(*f)),
{
    let c = |q: [[u64; 4]; 2]| Fq2::new(Fq::from_raw(q[0]), Fq::from_raw(q[1]));
    let h = |s: [[[u64; 4]; 2]; 3]| Fq6::new(c(s[0]), c(s[1]), c(s[2]));
    Fq12::new(h(f[0]), h(f[1])).final_exponentiation() == Gt::identity()
}

} // verus!
