//! The first phase: every operand is loaded as a field element, written out
//! as byte cells, the two are tied together, and the operation's own
//! predicate is laid on the field elements.

use crate::circuit::EccCircuit;
use crate::crt::{
    coord_crt_holds, crt_repr_holds, is_powers_of_256, lemma_coord_crt_holds,
    lemma_crt_repr_of_loaded, limb_bytes, CrtInteger,
};
use crate::curve::{G1Affine, G2Affine};
use crate::field::Fr;
use crate::gate::{fr_values, inner_product, inner_product_spec, Context};
use crate::ops::{EcAddOp, EcMulOp, EcPairingOp, EcPairingPair, N_BYTES_PER_PAIR};
use crate::pairing::{pairing_product_is_one, pairing_success};
use crate::predicate::{ec_add_constraints, ec_mul_constraints, ec_pairing_constraints};
use crate::uint::{be_bytes, le_bytes, lemma_le_bytes_unique};
use crate::witness::{
    EcAddDecomposed, EcMulDecomposed, EcPairingDecomposed, EcPoint, EcPoint2, FieldExtPoint,
    G1Decomposed, G2Decomposed, ScalarAssigned,
};
use vstd::prelude::*;
use vstd::slice::slice_subrange;

verus! {

/// Whether the byte constraints hold of both coordinates of a point.
pub open spec fn g1_crt_holds(g1: (nat, nat), weights: Seq<nat>) -> bool {
    coord_crt_holds(g1.0, weights) && coord_crt_holds(g1.1, weights)
}

/// Whether the byte constraints hold of all four coefficients of a point of
/// the second group.
pub open spec fn g2_crt_holds(g2: ((nat, nat), (nat, nat)), weights: Seq<nat>) -> bool {
    &&& coord_crt_holds(g2.0.0, weights)
    &&& coord_crt_holds(g2.0.1, weights)
    &&& coord_crt_holds(g2.1.0, weights)
    &&& coord_crt_holds(g2.1.1, weights)
}

/// Whether the byte constraints hold of every pair of a list.
pub open spec fn pairs_crt_hold(pairs: Seq<EcPairingPair>, weights: Seq<nat>) -> bool {
    forall|i: int|
        0 <= i < pairs.len() ==> g1_crt_holds((#[trigger] pairs[i]).g1_point@, weights)
            && g2_crt_holds(pairs[i].g2_point@, weights)
}

/// The bytes of one pair as the call's input spells them: each coordinate
/// most significant byte first, the second coefficient of an extension
/// element before the first.
pub open spec fn pair_input_bytes(pair: EcPairingPair) -> Seq<u8> {
    be_bytes(pair.g1_point.x@) + be_bytes(pair.g1_point.y@) + be_bytes(pair.g2_point.x.c1@)
        + be_bytes(pair.g2_point.x.c0@) + be_bytes(pair.g2_point.y.c1@) + be_bytes(
        pair.g2_point.y.c0@,
    )
}

/// The bytes of a list of pairs as the call's input spells them.
pub open spec fn pairing_input_bytes(pairs: Seq<EcPairingPair>) -> Seq<u8>
    decreases pairs.len(),
{
    if pairs.len() == 0 {
        Seq::empty()
    } else {
        pairing_input_bytes(pairs.drop_last()) + pair_input_bytes(pairs.last())
    }
}

/// The input of a pairing check takes up 192 bytes for each pair.
pub proof fn lemma_pairing_input_len(pairs: Seq<EcPairingPair>)
    ensures
        pairing_input_bytes(pairs).len() == N_BYTES_PER_PAIR * pairs.len(),
    decreases pairs.len(),
{
    if pairs.len() > 0 {
        lemma_pairing_input_len(pairs.drop_last());
    }
}

/// Appends the cells in the opposite order.
fn push_reversed(out: &mut Vec<u8>, cells: &[u8; 32])
    ensures
        final(out)@ == old(out)@ + cells@.reverse(),
{
    let mut i: usize = 0;
    while i < 32
        invariant
            i <= 32,
            out@.len() == old(out)@.len() + i,
            forall|j: int| 0 <= j < old(out)@.len() ==> out@[j] == old(out)@[j],
            forall|j: int|
                old(out)@.len() <= j < old(out)@.len() + i ==> out@[j] == cells@[31 - (j - old(
                    out,
                )@.len())],
        decreases 32 - i,
    {
        out.push(cells[31 - i]);
        i += 1;
    }
    assert(out@ =~= old(out)@ + cells@.reverse());
}

impl EccCircuit {
    /// The byte cells of a point's coordinates, least significant byte first.
    pub fn decompose_g1(&self, g1: G1Affine) -> (cells: ([u8; 32], [u8; 32]))
        ensures
            cells.0@ == le_bytes(g1.x@),
            cells.1@ == le_bytes(g1.y@),
    {
        let x = g1.x.to_bytes();
        let y = g1.y.to_bytes();
        proof {
            lemma_le_bytes_unique(x@);
            lemma_le_bytes_unique(y@);
        }
        (x, y)
    }

    /// The byte cells of the four coefficients of a point's coordinates,
    /// least significant byte first: the two of `x`, then the two of `y`.
    pub fn decompose_g2(&self, g2: G2Affine) -> (cells: [[u8; 32]; 4])
        ensures
            cells[0]@ == le_bytes(g2.x.c0@),
            cells[1]@ == le_bytes(g2.x.c1@),
            cells[2]@ == le_bytes(g2.y.c0@),
            cells[3]@ == le_bytes(g2.y.c1@),
    {
        let x_c0 = g2.x.c0.to_bytes();
        let x_c1 = g2.x.c1.to_bytes();
        let y_c0 = g2.y.c0.to_bytes();
        let y_c1 = g2.y.c1.to_bytes();
        proof {
            lemma_le_bytes_unique(x_c0@);
            lemma_le_bytes_unique(x_c1@);
            lemma_le_bytes_unique(y_c0@);
            lemma_le_bytes_unique(y_c1@);
        }
        [x_c0, x_c1, y_c0, y_c1]
    }

    /// Ties 32 byte cells to a field element: the bytes are taken in groups
    /// of 11, 11 and 10, each group's inner product with the weights is
    /// formed, and each is constrained to be the element's limb.
    ///
    /// There must be at least eleven weights.
    pub fn assert_crt_repr(
        &self,
        ctx: &mut Context,
        crt_int: &CrtInteger,
        bytes: &[u8; 32],
        powers_of_256: &[Fr],
    )
        requires
            powers_of_256@.len() >= 11,
        ensures
            final(ctx).satisfied == (old(ctx).satisfied && crt_repr_holds(
                *crt_int,
                bytes@,
                fr_values(powers_of_256@),
            )),
    {
        let cells = bytes.as_slice();
        let l0 = inner_product(slice_subrange(cells, 0, 11), powers_of_256);
        let l1 = inner_product(slice_subrange(cells, 11, 22), powers_of_256);
        let l2 = inner_product(slice_subrange(cells, 22, 32), powers_of_256);
        let e0 = l0.equals(&crt_int.limbs[0]);
        let e1 = l1.equals(&crt_int.limbs[1]);
        let e2 = l2.equals(&crt_int.limbs[2]);
        proof {
            let w = fr_values(powers_of_256@);
            assert(limb_bytes(bytes@, 0) == bytes@.subrange(0, 11));
            assert(limb_bytes(bytes@, 1) == bytes@.subrange(11, 22));
            assert(limb_bytes(bytes@, 2) == bytes@.subrange(22, 32));
            if e0 && e1 && e2 {
                assert forall|k: int| 0 <= k < 3 implies inner_product_spec(
                    #[trigger] limb_bytes(bytes@, k),
                    w,
                ) == crt_int.limbs[k]@ by {}
            }
        }
        ctx.constrain(e0 && e1 && e2);
    }

    /// Loads a point of the first group and ties its byte cells to it.
    ///
    /// There must be at least eleven weights.
    pub fn assign_g1(&self, ctx: &mut Context, g1: G1Affine, powers_of_256: &[Fr]) -> (d:
        G1Decomposed)
        requires
            powers_of_256@.len() >= 11,
        ensures
            d.decomposes(g1@),
            final(ctx).satisfied == (old(ctx).satisfied && g1_crt_holds(
                g1@,
                fr_values(powers_of_256@),
            )),
            is_powers_of_256(fr_values(powers_of_256@)) ==> g1_crt_holds(
                g1@,
                fr_values(powers_of_256@),
            ),
    {
        let ec_point = EcPoint {
            x: CrtInteger::load_private(&g1.x),
            y: CrtInteger::load_private(&g1.y),
        };
        let (x_cells, y_cells) = self.decompose_g1(g1);
        self.assert_crt_repr(ctx, &ec_point.x, &x_cells, powers_of_256);
        self.assert_crt_repr(ctx, &ec_point.y, &y_cells, powers_of_256);
        proof {
            let w = fr_values(powers_of_256@);
            lemma_crt_repr_of_loaded(ec_point.x, w);
            lemma_crt_repr_of_loaded(ec_point.y, w);
            if is_powers_of_256(w) {
                use_type_invariant(&g1.x);
                use_type_invariant(&g1.y);
                g1.x.lemma_in_range();
                g1.y.lemma_in_range();
                lemma_coord_crt_holds(g1.x@, w);
                lemma_coord_crt_holds(g1.y@, w);
            }
        }
        G1Decomposed { ec_point, x_cells, y_cells }
    }

    /// Loads a point of the second group and ties the byte cells of its four
    /// coefficients to it.
    ///
    /// There must be at least eleven weights.
    pub fn assign_g2(&self, ctx: &mut Context, g2: G2Affine, powers_of_256: &[Fr]) -> (d:
        G2Decomposed)
        requires
            powers_of_256@.len() >= 11,
        ensures
            d.decomposes(g2@),
            final(ctx).satisfied == (old(ctx).satisfied && g2_crt_holds(
                g2@,
                fr_values(powers_of_256@),
            )),
            is_powers_of_256(fr_values(powers_of_256@)) ==> g2_crt_holds(
                g2@,
                fr_values(powers_of_256@),
            ),
    {
        let ec_point = EcPoint2 {
            x: FieldExtPoint {
                coeffs: [CrtInteger::load_private(&g2.x.c0), CrtInteger::load_private(&g2.x.c1)],
            },
            y: FieldExtPoint {
                coeffs: [CrtInteger::load_private(&g2.y.c0), CrtInteger::load_private(&g2.y.c1)],
            },
        };
        let cells = self.decompose_g2(g2);
        let x_c0_cells = cells[0];
        let x_c1_cells = cells[1];
        let y_c0_cells = cells[2];
        let y_c1_cells = cells[3];
        self.assert_crt_repr(ctx, &ec_point.x.coeffs[0], &x_c0_cells, powers_of_256);
        self.assert_crt_repr(ctx, &ec_point.x.coeffs[1], &x_c1_cells, powers_of_256);
        self.assert_crt_repr(ctx, &ec_point.y.coeffs[0], &y_c0_cells, powers_of_256);
        self.assert_crt_repr(ctx, &ec_point.y.coeffs[1], &y_c1_cells, powers_of_256);
        proof {
            let w = fr_values(powers_of_256@);
            lemma_crt_repr_of_loaded(ec_point.x.coeffs[0], w);
            lemma_crt_repr_of_loaded(ec_point.x.coeffs[1], w);
            lemma_crt_repr_of_loaded(ec_point.y.coeffs[0], w);
            lemma_crt_repr_of_loaded(ec_point.y.coeffs[1], w);
            if is_powers_of_256(w) {
                use_type_invariant(&g2.x.c0);
                use_type_invariant(&g2.x.c1);
                use_type_invariant(&g2.y.c0);
                use_type_invariant(&g2.y.c1);
                g2.x.c0.lemma_in_range();
                g2.x.c1.lemma_in_range();
                g2.y.c0.lemma_in_range();
                g2.y.c1.lemma_in_range();
                lemma_coord_crt_holds(g2.x.c0@, w);
                lemma_coord_crt_holds(g2.x.c1@, w);
                lemma_coord_crt_holds(g2.y.c0@, w);
                lemma_coord_crt_holds(g2.y.c1@, w);
            }
        }
        G2Decomposed { ec_point, x_c0_cells, x_c1_cells, y_c0_cells, y_c1_cells }
    }

    /// Loads a scalar. No constraint is laid.
    pub fn assign_fr(&self, ctx: &mut Context, s: Fr) -> (r: ScalarAssigned)
        ensures
            r.scalar == s,
            *final(ctx) == *old(ctx),
    {
        ScalarAssigned { scalar: s }
    }

    /// The first phase of a point addition: loads the three points and lays
    /// the addition predicate, masked by `rand_point`.
    ///
    /// There must be at least eleven weights.
    pub fn decompose_ec_add_op(
        &self,
        ctx: &mut Context,
        rand_point: &G1Affine,
        powers_of_256: &[Fr],
        op: &EcAddOp,
    ) -> (d: EcAddDecomposed)
        requires
            powers_of_256@.len() >= 11,
        ensures
            d.point_p.decomposes(op.p@),
            d.point_q.decomposes(op.q@),
            d.point_r.decomposes(op.r@),
            final(ctx).satisfied == (old(ctx).satisfied && g1_crt_holds(
                op.p@,
                fr_values(powers_of_256@),
            ) && g1_crt_holds(op.q@, fr_values(powers_of_256@)) && g1_crt_holds(
                op.r@,
                fr_values(powers_of_256@),
            ) && ec_add_constraints(rand_point@, op.p@, op.q@, op.r@)),
            is_powers_of_256(fr_values(powers_of_256@)) ==> final(ctx).satisfied == (old(
                ctx,
            ).satisfied && ec_add_constraints(rand_point@, op.p@, op.q@, op.r@)),
    {
        let point_p = self.assign_g1(ctx, op.p, powers_of_256);
        let point_q = self.assign_g1(ctx, op.q, powers_of_256);
        let point_r = self.assign_g1(ctx, op.r, powers_of_256);

        let rand_on_curve = rand_point.is_on_curve();
        ctx.constrain(rand_on_curve);

        let p = point_p.ec_point.point();
        let q = point_q.ec_point.point();
        let r = point_r.ec_point.point();
        let point_p_is_zero = p.is_identity();
        let point_q_is_zero = q.is_identity();
        let point_r_is_zero = r.is_identity();

        // sum1 = if P == (0, 0) then rand else rand + P
        let sum1 = match rand_point.add_unequal(&p) {
            Some(sum) => if point_p_is_zero {
                *rand_point
            } else {
                sum
            },
            None => {
                ctx.constrain(false);
                *rand_point
            },
        };
        // sum2 = if Q == (0, 0) then sum1 else sum1 + Q
        let sum2 = match sum1.add_unequal(&q) {
            Some(sum) => if point_q_is_zero {
                sum1
            } else {
                sum
            },
            None => {
                ctx.constrain(false);
                sum1
            },
        };
        // sum3 = if R == (0, 0) then sum2 else sum2 - R
        let sum3 = match sum2.sub_unequal(&r) {
            Some(sum) => if point_r_is_zero {
                sum2
            } else {
                sum
            },
            None => {
                ctx.constrain(false);
                sum2
            },
        };
        let back_at_rand = rand_point.equals(&sum3);
        ctx.constrain(back_at_rand);

        EcAddDecomposed { point_p, point_q, point_r }
    }

    /// The first phase of a scalar multiplication: loads the point, the
    /// scalar and the claimed product, and constrains the engine's product
    /// to be the claimed one.
    ///
    /// There must be at least eleven weights.
    pub fn decompose_ec_mul_op(&self, ctx: &mut Context, powers_of_256: &[Fr], op: &EcMulOp) -> (d:
        EcMulDecomposed)
        requires
            powers_of_256@.len() >= 11,
        ensures
            d.point_p.decomposes(op.p@),
            d.scalar_s.scalar == op.s,
            d.point_r.decomposes(op.r@),
            final(ctx).satisfied == (old(ctx).satisfied && g1_crt_holds(
                op.p@,
                fr_values(powers_of_256@),
            ) && g1_crt_holds(op.r@, fr_values(powers_of_256@)) && ec_mul_constraints(
                op.p@,
                op.s@,
                op.r@,
            )),
            is_powers_of_256(fr_values(powers_of_256@)) ==> final(ctx).satisfied == (old(
                ctx,
            ).satisfied && ec_mul_constraints(op.p@, op.s@, op.r@)),
    {
        let point_p = self.assign_g1(ctx, op.p, powers_of_256);
        let scalar_s = self.assign_fr(ctx, op.s);
        let point_r = self.assign_g1(ctx, op.r, powers_of_256);

        let point_r_got = point_p.ec_point.point().scalar_mul(&scalar_s.scalar);
        let same = point_r.ec_point.point().equals(&point_r_got);
        ctx.constrain(same);

        EcMulDecomposed { point_p, scalar_s, point_r }
    }

    /// The first phase of a pairing check: loads every pair, gathers the
    /// byte cells of the whole input in the order in which the call's input
    /// spells them, computes the success bit and constrains it to be the
    /// claimed outcome.
    ///
    /// There must be at least eleven weights.
    pub fn decompose_ec_pairing_op(
        &self,
        ctx: &mut Context,
        powers_of_256: &[Fr],
        op: &EcPairingOp,
    ) -> (d: EcPairingDecomposed)
        requires
            powers_of_256@.len() >= 11,
        ensures
            d.input_cells@ == pairing_input_bytes(op.pairs@),
            d.success == pairing_success(op.pairs@),
            final(ctx).satisfied == (old(ctx).satisfied && pairs_crt_hold(
                op.pairs@,
                fr_values(powers_of_256@),
            ) && ec_pairing_constraints(op.pairs@, op.output)),
            is_powers_of_256(fr_values(powers_of_256@)) ==> final(ctx).satisfied == (old(
                ctx,
            ).satisfied && ec_pairing_constraints(op.pairs@, op.output)),
    {
        let ghost w = fr_values(powers_of_256@);
        let mut input_cells: Vec<u8> = Vec::new();
        let mut i: usize = 0;
        while i < op.pairs.len()
            invariant
                i <= op.pairs@.len(),
                powers_of_256@.len() >= 11,
                w == fr_values(powers_of_256@),
                input_cells@ == pairing_input_bytes(op.pairs@.take(i as int)),
                ctx.satisfied == (old(ctx).satisfied && pairs_crt_hold(
                    op.pairs@.take(i as int),
                    w,
                )),
                is_powers_of_256(w) ==> pairs_crt_hold(op.pairs@.take(i as int), w),
            decreases op.pairs@.len() - i,
        {
            let pair = op.pairs[i];
            let g1 = self.assign_g1(ctx, pair.g1_point, powers_of_256);
            let g2 = self.assign_g2(ctx, pair.g2_point, powers_of_256);
            push_reversed(&mut input_cells, &g1.x_cells);
            push_reversed(&mut input_cells, &g1.y_cells);
            push_reversed(&mut input_cells, &g2.x_c1_cells);
            push_reversed(&mut input_cells, &g2.x_c0_cells);
            push_reversed(&mut input_cells, &g2.y_c1_cells);
            push_reversed(&mut input_cells, &g2.y_c0_cells);
            proof {
                let before = op.pairs@.take(i as int);
                let after = op.pairs@.take(i + 1);
                assert(after.drop_last() =~= before);
                assert(after.last() == pair);
                assert(pairs_crt_hold(after, w) == (pairs_crt_hold(before, w) && g1_crt_holds(
                    pair.g1_point@,
                    w,
                ) && g2_crt_holds(pair.g2_point@, w))) by {
                    if pairs_crt_hold(after, w) {
                        assert(after[i as int] == pair);
                        assert forall|k: int| 0 <= k < before.len() implies g1_crt_holds(
                            (#[trigger] before[k]).g1_point@,
                            w,
                        ) && g2_crt_holds(before[k].g2_point@, w) by {
                            assert(after[k] == before[k]);
                        }
                    }
                    if pairs_crt_hold(before, w) && g1_crt_holds(pair.g1_point@, w)
                        && g2_crt_holds(pair.g2_point@, w) {
                        assert forall|k: int| 0 <= k < after.len() implies g1_crt_holds(
                            (#[trigger] after[k]).g1_point@,
                            w,
                        ) && g2_crt_holds(after[k].g2_point@, w) by {
                            if k < i {
                                assert(after[k] == before[k]);
                            }
                        }
                    }
                }
            }
            i += 1;
        }
        assert(op.pairs@.take(i as int) =~= op.pairs@);

        let success = pairing_product_is_one(&op.pairs);
        ctx.constrain(success == op.output);

        EcPairingDecomposed { input_cells, success }
    }
}

} // verus!
