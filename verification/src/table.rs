//! The lookup table that the circuit exposes: one row per slot, the point
//! additions first, then the scalar multiplications, then the pairing checks.

use crate::decompose::pairing_input_bytes;
use crate::field::Fr;
use crate::gate::{dot, lemma_dot_zero, power_seq, rlc};
use crate::ops::{EcPairingPair, PrecompileCalls};
use crate::pairing::pairing_success;
use crate::uint::{le_bytes, lemma_pow256_positive, pow256};
use crate::witness::{EcAddAssigned, EcMulAssigned, EcOpsAssigned, EcPairingAssigned};
use vstd::arithmetic::div_mod::lemma_div_basics;
use vstd::prelude::*;

verus! {

/// One row of the lookup table.
#[derive(Clone, Copy, Debug, PartialEq, Eq)]
pub struct EccTableRow {
    /// The tag of the operation's kind.
    pub op_type: u64,
    /// The first argument.
    pub arg1_rlc: Fr,
    /// The second argument.
    pub arg2_rlc: Fr,
    /// The third argument.
    pub arg3_rlc: Fr,
    /// The fourth argument.
    pub arg4_rlc: Fr,
    /// The first output.
    pub output1_rlc: Fr,
    /// The second output.
    pub output2_rlc: Fr,
    /// The combination of the whole input.
    pub input_rlc: Fr,
}

impl View for EccTableRow {
    type V = Seq<nat>;

    /// The row's eight columns: the tag, the four arguments, the two
    /// outputs, the input combination.
    open spec fn view(&self) -> Seq<nat> {
        seq![
            self.op_type as nat,
            self.arg1_rlc@,
            self.arg2_rlc@,
            self.arg3_rlc@,
            self.arg4_rlc@,
            self.output1_rlc@,
            self.output2_rlc@,
            self.input_rlc@,
        ]
    }
}

/// The row of a point addition: the coordinates of the two summands as
/// arguments, those of the sum as outputs, no input combination.
pub open spec fn ec_add_row(a: EcAddAssigned) -> Seq<nat> {
    seq![
        PrecompileCalls::Bn128Add.tag(),
        a.point_p.x_rlc@,
        a.point_p.y_rlc@,
        a.point_q.x_rlc@,
        a.point_q.y_rlc@,
        a.point_r.x_rlc@,
        a.point_r.y_rlc@,
        0,
    ]
}

/// The row of a scalar multiplication: the point's coordinates and the
/// scalar as arguments, the product's coordinates as outputs, no input
/// combination.
pub open spec fn ec_mul_row(a: EcMulAssigned) -> Seq<nat> {
    seq![
        PrecompileCalls::Bn128Mul.tag(),
        a.point_p.x_rlc@,
        a.point_p.y_rlc@,
        a.scalar_s.scalar@,
        0,
        a.point_r.x_rlc@,
        a.point_r.y_rlc@,
        0,
    ]
}

/// The row of a pairing check: no arguments, the success bit as the first
/// output, the combination of the whole input.
pub open spec fn ec_pairing_row(a: EcPairingAssigned) -> Seq<nat> {
    seq![
        PrecompileCalls::Bn128Pairing.tag(),
        0,
        0,
        0,
        0,
        if a.success {
            1nat
        } else {
            0nat
        },
        0,
        a.input_rlc@,
    ]
}

/// The random linear combination of the 32 little-endian bytes of `x`.
pub open spec fn coord_rlc(x: nat, c: nat) -> nat {
    rlc(le_bytes(x), c)
}

/// The table row of a point addition under the challenge `c`.
pub open spec fn add_row_of(op: ((nat, nat), (nat, nat), (nat, nat)), c: nat) -> Seq<nat> {
    seq![
        PrecompileCalls::Bn128Add.tag(),
        coord_rlc(op.0.0, c),
        coord_rlc(op.0.1, c),
        coord_rlc(op.1.0, c),
        coord_rlc(op.1.1, c),
        coord_rlc(op.2.0, c),
        coord_rlc(op.2.1, c),
        0,
    ]
}

/// The table row of a scalar multiplication under the challenge `c`.
pub open spec fn mul_row_of(op: ((nat, nat), nat, (nat, nat)), c: nat) -> Seq<nat> {
    seq![
        PrecompileCalls::Bn128Mul.tag(),
        coord_rlc(op.0.0, c),
        coord_rlc(op.0.1, c),
        op.1,
        0,
        coord_rlc(op.2.0, c),
        coord_rlc(op.2.1, c),
        0,
    ]
}

/// The table row of a pairing check under the challenge `c`: the computed
/// success bit, and the combination of the input read from its last byte
/// back to its first.
pub open spec fn pairing_row_of(pairs: Seq<EcPairingPair>, c: nat) -> Seq<nat> {
    seq![
        PrecompileCalls::Bn128Pairing.tag(),
        0,
        0,
        0,
        0,
        if pairing_success(pairs) {
            1nat
        } else {
            0nat
        },
        0,
        rlc(pairing_input_bytes(pairs).reverse(), c),
    ]
}

impl EccTableRow {
    /// The row of a point addition.
    pub fn ec_add(a: &EcAddAssigned) -> (row: EccTableRow)
        ensures
            row@ == ec_add_row(*a),
    {
        EccTableRow {
            op_type: PrecompileCalls::Bn128Add.as_u64(),
            arg1_rlc: a.point_p.x_rlc,
            arg2_rlc: a.point_p.y_rlc,
            arg3_rlc: a.point_q.x_rlc,
            arg4_rlc: a.point_q.y_rlc,
            output1_rlc: a.point_r.x_rlc,
            output2_rlc: a.point_r.y_rlc,
            input_rlc: Fr::zero(),
        }
    }

    /// The row of a scalar multiplication.
    pub fn ec_mul(a: &EcMulAssigned) -> (row: EccTableRow)
        ensures
            row@ == ec_mul_row(*a),
    {
        EccTableRow {
            op_type: PrecompileCalls::Bn128Mul.as_u64(),
            arg1_rlc: a.point_p.x_rlc,
            arg2_rlc: a.point_p.y_rlc,
            arg3_rlc: a.scalar_s.scalar,
            arg4_rlc: Fr::zero(),
            output1_rlc: a.point_r.x_rlc,
            output2_rlc: a.point_r.y_rlc,
            input_rlc: Fr::zero(),
        }
    }

    /// The row of a pairing check.
    pub fn ec_pairing(a: &EcPairingAssigned) -> (row: EccTableRow)
        ensures
            row@ == ec_pairing_row(*a),
    {
        EccTableRow {
            op_type: PrecompileCalls::Bn128Pairing.as_u64(),
            arg1_rlc: Fr::zero(),
            arg2_rlc: Fr::zero(),
            arg3_rlc: Fr::zero(),
            arg4_rlc: Fr::zero(),
            output1_rlc: if a.success {
                Fr::one()
            } else {
                Fr::zero()
            },
            output2_rlc: Fr::zero(),
            input_rlc: a.input_rlc,
        }
    }
}

/// The lookup table.
#[derive(Clone, Debug, PartialEq, Eq)]
pub struct EccTable {
    /// The rows, from the top.
    pub rows: Vec<EccTableRow>,
}

impl EccTable {
    /// Whether the rows are those of the assigned operations: a block of
    /// point additions, then a block of scalar multiplications from the row
    /// after the last addition on, then a block of pairing checks.
    pub open spec fn exposes(self, assigned: EcOpsAssigned) -> bool {
        let adds = assigned.ec_adds_assigned@;
        let muls = assigned.ec_muls_assigned@;
        let pairings = assigned.ec_pairings_assigned@;
        &&& self.rows@.len() == adds.len() + muls.len() + pairings.len()
        &&& forall|i: int| 0 <= i < adds.len() ==> (#[trigger] self.rows@[i])@ == ec_add_row(adds[i])
        &&& forall|i: int|
            0 <= i < muls.len() ==> (#[trigger] self.rows@[adds.len() + i])@ == ec_mul_row(muls[i])
        &&& forall|i: int|
            0 <= i < pairings.len() ==> (#[trigger] self.rows@[adds.len() + muls.len() + i])@
                == ec_pairing_row(pairings[i])
    }

    /// Writes the rows of the assigned operations.
    pub fn expose(assigned: &EcOpsAssigned) -> (table: EccTable)
        ensures
            table.exposes(*assigned),
    {
        let mut rows: Vec<EccTableRow> = Vec::new();
        let ghost adds = assigned.ec_adds_assigned@;
        let ghost muls = assigned.ec_muls_assigned@;
        let ghost pairings = assigned.ec_pairings_assigned@;
        let mut idx: usize = 0;
        while idx < assigned.ec_adds_assigned.len()
            invariant
                idx <= adds.len(),
                adds == assigned.ec_adds_assigned@,
                rows@.len() == idx,
                forall|i: int| 0 <= i < idx ==> (#[trigger] rows@[i])@ == ec_add_row(adds[i]),
            decreases adds.len() - idx,
        {
            rows.push(EccTableRow::ec_add(&assigned.ec_adds_assigned[idx]));
            idx += 1;
        }
        let mut idx: usize = 0;
        while idx < assigned.ec_muls_assigned.len()
            invariant
                idx <= muls.len(),
                muls == assigned.ec_muls_assigned@,
                rows@.len() == adds.len() + idx,
                forall|i: int| 0 <= i < adds.len() ==> (#[trigger] rows@[i])@ == ec_add_row(adds[i]),
                forall|i: int|
                    0 <= i < idx ==> (#[trigger] rows@[adds.len() + i])@ == ec_mul_row(muls[i]),
            decreases muls.len() - idx,
        {
            rows.push(EccTableRow::ec_mul(&assigned.ec_muls_assigned[idx]));
            idx += 1;
        }
        let mut idx: usize = 0;
        while idx < assigned.ec_pairings_assigned.len()
            invariant
                idx <= pairings.len(),
                pairings == assigned.ec_pairings_assigned@,
                rows@.len() == adds.len() + muls.len() + idx,
                forall|i: int| 0 <= i < adds.len() ==> (#[trigger] rows@[i])@ == ec_add_row(adds[i]),
                forall|i: int|
                    0 <= i < muls.len() ==> (#[trigger] rows@[adds.len() + i])@ == ec_mul_row(
                        muls[i],
                    ),
                forall|i: int|
                    0 <= i < idx ==> (#[trigger] rows@[adds.len() + muls.len() + i])@
                        == ec_pairing_row(pairings[i]),
            decreases pairings.len() - idx,
        {
            rows.push(EccTableRow::ec_pairing(&assigned.ec_pairings_assigned[idx]));
            idx += 1;
        }
        EccTable { rows }
    }
}

/// Every byte of zero is zero, so its combination is zero under any
/// challenge.
pub proof fn lemma_coord_rlc_zero(c: nat)
    ensures
        coord_rlc(0, c) == 0,
{
    let cells = le_bytes(0);
    assert forall|i: int| 0 <= i < 32 implies cells[i] == 0 by {
        lemma_pow256_positive(i as nat);
        let d = pow256(i as nat) as int;
        lemma_div_basics(d);
    }
    lemma_dot_zero(cells, power_seq(c, 32), 32);
}

/// Table padding: the row of a padding point addition carries the tag of
/// point additions and zero in every other column, whatever the challenge.
pub proof fn lemma_add_padding_row(c: nat)
    ensures
        add_row_of(((0, 0), (0, 0), (0, 0)), c) == seq![6nat, 0, 0, 0, 0, 0, 0, 0],
{
    lemma_coord_rlc_zero(c);
    assert(add_row_of(((0, 0), (0, 0), (0, 0)), c) =~= seq![6nat, 0, 0, 0, 0, 0, 0, 0]);
}

/// Table padding: the row of a padding scalar multiplication carries the tag
/// of scalar multiplications and zero in every other column, whatever the
/// challenge.
pub proof fn lemma_mul_padding_row(c: nat)
    ensures
        mul_row_of(((0, 0), 0, (0, 0)), c) == seq![7nat, 0, 0, 0, 0, 0, 0, 0],
{
    lemma_coord_rlc_zero(c);
    assert(mul_row_of(((0, 0), 0, (0, 0)), c) =~= seq![7nat, 0, 0, 0, 0, 0, 0, 0]);
}

/// Table padding: the row of a padding pairing check carries the tag of
/// pairing checks, the success bit of the empty product, and zero in every
/// other column, whatever the challenge.
pub proof fn lemma_pairing_padding_row(c: nat)
    ensures
        pairing_row_of(Seq::empty(), c) == seq![
            8nat,
            0,
            0,
            0,
            0,
            if pairing_success(Seq::empty()) {
                1nat
            } else {
                0nat
            },
            0,
            0,
        ],
{
    let cells = pairing_input_bytes(Seq::<EcPairingPair>::empty()).reverse();
    assert(cells.len() == 0);
    assert(dot(cells, power_seq(c, 0), 0) == 0);
    assert(pairing_row_of(Seq::empty(), c) =~= seq![
        8nat,
        0,
        0,
        0,
        0,
        if pairing_success(Seq::empty()) {
            1nat
        } else {
            0nat
        },
        0,
        0,
    ]);
}

} // verus!
