//! The second phase: once the challenge is known, the byte cells of every
//! operand are folded into one cell by their inner product with the powers
//! of the challenge.

use crate::circuit::EccCircuit;
use crate::field::Fr;
use crate::gate::{
    fr_pow, fr_values, inner_product, inner_product_spec, lemma_dot_agree, power_seq, reversed,
    rlc, Context,
};
use crate::witness::{
    EcAddAssigned, EcAddDecomposed, EcMulAssigned, EcMulDecomposed, EcPairingAssigned,
    EcPairingDecomposed, G1Assigned, G1Decomposed,
};
use vstd::prelude::*;

verus! {

/// Whether the weights begin with the first `n` powers of `c`.
pub open spec fn is_powers_of(weights: Seq<nat>, c: nat, n: nat) -> bool {
    weights.len() >= n && forall|i: int| 0 <= i < n ==> weights[i] == #[trigger] fr_pow_at(c, i)
}

/// `c^i` in the scalar field, for an index.
pub open spec fn fr_pow_at(c: nat, i: int) -> nat {
    fr_pow(c, i as nat)
}

/// With the powers of the challenge as weights, the inner product of byte
/// cells is their random linear combination.
pub proof fn lemma_inner_product_rlc(cells: Seq<u8>, weights: Seq<nat>, c: nat)
    requires
        is_powers_of(weights, c, cells.len()),
    ensures
        inner_product_spec(cells, weights) == rlc(cells, c),
{
    let p = power_seq(c, cells.len());
    assert forall|i: int| 0 <= i < cells.len() implies weights[i] == p[i] by {
        assert(weights[i] == fr_pow_at(c, i));
    }
    lemma_dot_agree(cells, weights, p, cells.len());
}

impl EccCircuit {
    /// The inner products of a point's byte cells with the weights.
    fn assign_g1_rlc(&self, d: &G1Decomposed, keccak_powers: &[Fr]) -> (a: G1Assigned)
        requires
            keccak_powers@.len() >= 32,
        ensures
            a.x_rlc@ == inner_product_spec(d.x_cells@, fr_values(keccak_powers@)),
            a.y_rlc@ == inner_product_spec(d.y_cells@, fr_values(keccak_powers@)),
    {
        G1Assigned {
            x_rlc: inner_product(d.x_cells.as_slice(), keccak_powers),
            y_rlc: inner_product(d.y_cells.as_slice(), keccak_powers),
        }
    }

    /// The second phase of a point addition: for each coordinate of each of
    /// the three points, the inner product of its byte cells with the
    /// weights. No constraint that could fail is laid.
    ///
    /// There must be at least 32 weights.
    pub fn assign_ec_add(
        &self,
        ctx: &mut Context,
        ec_add_decomposed: &EcAddDecomposed,
        keccak_powers: &[Fr],
    ) -> (a: EcAddAssigned)
        requires
            keccak_powers@.len() >= 32,
        ensures
            *final(ctx) == *old(ctx),
            a.point_p.x_rlc@ == inner_product_spec(
                ec_add_decomposed.point_p.x_cells@,
                fr_values(keccak_powers@),
            ),
            a.point_p.y_rlc@ == inner_product_spec(
                ec_add_decomposed.point_p.y_cells@,
                fr_values(keccak_powers@),
            ),
            a.point_q.x_rlc@ == inner_product_spec(
                ec_add_decomposed.point_q.x_cells@,
                fr_values(keccak_powers@),
            ),
            a.point_q.y_rlc@ == inner_product_spec(
                ec_add_decomposed.point_q.y_cells@,
                fr_values(keccak_powers@),
            ),
            a.point_r.x_rlc@ == inner_product_spec(
                ec_add_decomposed.point_r.x_cells@,
                fr_values(keccak_powers@),
            ),
            a.point_r.y_rlc@ == inner_product_spec(
                ec_add_decomposed.point_r.y_cells@,
                fr_values(keccak_powers@),
            ),
    {
        EcAddAssigned {
            point_p: self.assign_g1_rlc(&ec_add_decomposed.point_p, keccak_powers),
            point_q: self.assign_g1_rlc(&ec_add_decomposed.point_q, keccak_powers),
            point_r: self.assign_g1_rlc(&ec_add_decomposed.point_r, keccak_powers),
        }
    }

    /// The second phase of a scalar multiplication: the inner products for
    /// the two points, and the scalar as it is. No constraint that could
    /// fail is laid.
    ///
    /// There must be at least 32 weights.
    pub fn assign_ec_mul(
        &self,
        ctx: &mut Context,
        ec_mul_decomposed: &EcMulDecomposed,
        keccak_powers: &[Fr],
    ) -> (a: EcMulAssigned)
        requires
            keccak_powers@.len() >= 32,
        ensures
            *final(ctx) == *old(ctx),
            a.point_p.x_rlc@ == inner_product_spec(
                ec_mul_decomposed.point_p.x_cells@,
                fr_values(keccak_powers@),
            ),
            a.point_p.y_rlc@ == inner_product_spec(
                ec_mul_decomposed.point_p.y_cells@,
                fr_values(keccak_powers@),
            ),
            a.scalar_s == ec_mul_decomposed.scalar_s,
            a.point_r.x_rlc@ == inner_product_spec(
                ec_mul_decomposed.point_r.x_cells@,
                fr_values(keccak_powers@),
            ),
            a.point_r.y_rlc@ == inner_product_spec(
                ec_mul_decomposed.point_r.y_cells@,
                fr_values(keccak_powers@),
            ),
    {
        EcMulAssigned {
            point_p: self.assign_g1_rlc(&ec_mul_decomposed.point_p, keccak_powers),
            scalar_s: ec_mul_decomposed.scalar_s,
            point_r: self.assign_g1_rlc(&ec_mul_decomposed.point_r, keccak_powers),
        }
    }

    /// The second phase of a pairing check: the inner product of the whole
    /// input, last byte first, with the weights, and the success bit as it
    /// is. No constraint that could fail is laid.
    ///
    /// There must be at least as many weights as input bytes.
    pub fn assign_ec_pairing(
        &self,
        ctx: &mut Context,
        ec_pairing_decomposed: &EcPairingDecomposed,
        keccak_powers: &[Fr],
    ) -> (a: EcPairingAssigned)
        requires
            ec_pairing_decomposed.input_cells@.len() <= keccak_powers@.len(),
        ensures
            *final(ctx) == *old(ctx),
            a.input_rlc@ == inner_product_spec(
                ec_pairing_decomposed.input_cells@.reverse(),
                fr_values(keccak_powers@),
            ),
            a.success == ec_pairing_decomposed.success,
    {
        let cells = reversed(ec_pairing_decomposed.input_cells.as_slice());
        EcPairingAssigned {
            input_rlc: inner_product(cells.as_slice(), keccak_powers),
            success: ec_pairing_decomposed.success,
        }
    }
}

} // verus!
