//! The whole pass: the capacity check, the first phase over every slot, the
//! barrier at which the challenge becomes known, the second phase, and the
//! lookup table.

use crate::circuit::{Challenges, EccCircuit, EccCircuitConfig, Error};
use crate::crt::is_powers_of_256;
use crate::curve::G1Affine;
use crate::decompose::pairing_input_bytes;
use crate::field::Fr;
use crate::gate::{fr_pow, fr_values, power_seq, powers, Context};
use crate::ops::{EcAddOp, EcMulOp, EcPairingOp, EcPairingPair};
use crate::pairing::pairing_success;
use crate::phase2::{fr_pow_at, is_powers_of, lemma_inner_product_rlc};
use crate::predicate::{ec_add_constraints, ec_mul_constraints, ec_pairing_constraints};
use crate::table::{
    add_row_of, ec_add_row, ec_mul_row, ec_pairing_row, lemma_add_padding_row,
    lemma_mul_padding_row, mul_row_of, pairing_row_of, EccTable,
};
use crate::witness::{
    EcAddAssigned, EcAddDecomposed, EcMulAssigned, EcMulDecomposed, EcOpsAssigned,
    EcOpsDecomposed, EcPairingAssigned, EcPairingDecomposed,
};
use vstd::prelude::*;

verus! {

/// Number of bytes of a coordinate.
pub const N_BYTES_WORD: usize = 32;

/// The point addition in slot `i`: the operation supplied for it, or the
/// padding where none was.
pub open spec fn add_slot(ops: Seq<EcAddOp>, i: int) -> ((nat, nat), (nat, nat), (nat, nat)) {
    if i < ops.len() {
        ops[i]@
    } else {
        ((0, 0), (0, 0), (0, 0))
    }
}

/// The scalar multiplication in slot `i`: the operation supplied for it, or
/// the padding where none was.
pub open spec fn mul_slot(ops: Seq<EcMulOp>, i: int) -> ((nat, nat), nat, (nat, nat)) {
    if i < ops.len() {
        ops[i]@
    } else {
        ((0, 0), 0, (0, 0))
    }
}

/// The pairing check in slot `i`: the operation supplied for it, or the
/// padding where none was.
pub open spec fn pairing_slot(ops: Seq<EcPairingOp>, i: int) -> (Seq<EcPairingPair>, bool) {
    if i < ops.len() {
        ops[i]@
    } else {
        (Seq::empty(), true)
    }
}

/// Whether the addition predicate holds of slot `i`.
pub open spec fn add_slot_holds(rand: (nat, nat), ops: Seq<EcAddOp>, i: int) -> bool {
    ec_add_constraints(rand, add_slot(ops, i).0, add_slot(ops, i).1, add_slot(ops, i).2)
}

/// Whether the multiplication predicate holds of slot `i`.
pub open spec fn mul_slot_holds(ops: Seq<EcMulOp>, i: int) -> bool {
    ec_mul_constraints(mul_slot(ops, i).0, mul_slot(ops, i).1, mul_slot(ops, i).2)
}

/// Whether the pairing predicate holds of slot `i`.
pub open spec fn pairing_slot_holds(ops: Seq<EcPairingOp>, i: int) -> bool {
    ec_pairing_constraints(pairing_slot(ops, i).0, pairing_slot(ops, i).1)
}

/// What a pass hands back: the lookup table, and whether every constraint
/// holds of the witness.
#[derive(Clone, Debug, PartialEq, Eq)]
pub struct Assignment {
    /// The lookup table.
    pub table: EccTable,
    /// Whether the constraint system is satisfied.
    pub satisfied: bool,
}

impl EccCircuit {
    /// Whether no kind of operation has more operations than slots.
    pub open spec fn within_capacity(&self) -> bool {
        &&& self.add_ops@.len() <= self.max_add_ops
        &&& self.mul_ops@.len() <= self.max_mul_ops
        &&& self.pairing_ops@.len() <= self.max_pairing_ops
    }

    /// Whether the predicate of every slot holds, padding slots included.
    pub open spec fn constraints(&self, rand: (nat, nat)) -> bool {
        &&& forall|i: int| 0 <= i < self.max_add_ops ==> add_slot_holds(rand, self.add_ops@, i)
        &&& forall|i: int| 0 <= i < self.max_mul_ops ==> mul_slot_holds(self.mul_ops@, i)
        &&& forall|i: int|
            0 <= i < self.max_pairing_ops ==> pairing_slot_holds(self.pairing_ops@, i)
    }

    /// Whether `d` holds, slot by slot, the decomposition of this circuit's
    /// operations.
    pub open spec fn decomposed_by(&self, d: EcOpsDecomposed) -> bool {
        &&& d.ec_adds_decomposed@.len() == self.max_add_ops
        &&& d.ec_muls_decomposed@.len() == self.max_mul_ops
        &&& d.ec_pairings_decomposed@.len() == self.max_pairing_ops
        &&& forall|i: int|
            0 <= i < self.max_add_ops ==> (#[trigger] d.ec_adds_decomposed@[i]).decomposes(
                add_slot(self.add_ops@, i),
            )
        &&& forall|i: int|
            0 <= i < self.max_mul_ops ==> (#[trigger] d.ec_muls_decomposed@[i]).decomposes(
                mul_slot(self.mul_ops@, i),
            )
        &&& forall|i: int|
            0 <= i < self.max_pairing_ops ==> (#[trigger] d.ec_pairings_decomposed@[i]).input_cells@
                == pairing_input_bytes(pairing_slot(self.pairing_ops@, i).0)
                && d.ec_pairings_decomposed@[i].success == pairing_success(
                pairing_slot(self.pairing_ops@, i).0,
            )
    }

    /// Whether `a` is what a pass over this circuit hands back, with `rand`
    /// as the mask and `c` as the challenge: one row per slot in three
    /// blocks, each row that of its slot's operation, rows of padding all
    /// zero but for the tag, and the verdict that of the slots' predicates.
    pub open spec fn assigned_by(&self, a: Assignment, rand: (nat, nat), c: nat) -> bool {
        let rows = a.table.rows@;
        &&& rows.len() == self.max_add_ops + self.max_mul_ops + self.max_pairing_ops
        &&& forall|i: int|
            0 <= i < self.max_add_ops ==> (#[trigger] rows[i])@ == add_row_of(
                add_slot(self.add_ops@, i),
                c,
            )
        &&& forall|i: int|
            0 <= i < self.max_mul_ops ==> (#[trigger] rows[self.max_add_ops + i])@ == mul_row_of(
                mul_slot(self.mul_ops@, i),
                c,
            )
        &&& forall|i: int|
            0 <= i < self.max_pairing_ops ==> (#[trigger] rows[self.max_add_ops + self.max_mul_ops
                + i])@ == pairing_row_of(pairing_slot(self.pairing_ops@, i).0, c)
        &&& forall|i: int|
            self.add_ops@.len() <= i < self.max_add_ops ==> (#[trigger] rows[i])@
                == seq![6nat, 0, 0, 0, 0, 0, 0, 0]
        &&& forall|i: int|
            self.mul_ops@.len() <= i < self.max_mul_ops ==> (#[trigger] rows[self.max_add_ops
                + i])@ == seq![7nat, 0, 0, 0, 0, 0, 0, 0]
        &&& a.satisfied == self.constraints(rand)
    }

    /// Fails if any kind of operation has more operations than slots.
    pub fn check_capacity(&self) -> (r: Result<(), Error>)
        ensures
            r is Ok <==> self.within_capacity(),
            r is Err ==> r == Err::<(), Error>(Error::CapacityExceeded),
    {
        if self.add_ops.len() > self.max_add_ops || self.mul_ops.len() > self.max_mul_ops
            || self.pairing_ops.len() > self.max_pairing_ops {
            Err(Error::CapacityExceeded)
        } else {
            Ok(())
        }
    }

    /// The first phase over every slot for point additions.
    fn decompose_ec_adds(
        &self,
        ctx: &mut Context,
        rand_point: &G1Affine,
        powers_of_256: &[Fr],
    ) -> (r: Vec<EcAddDecomposed>)
        requires
            is_powers_of_256(fr_values(powers_of_256@)),
        ensures
            r@.len() == self.max_add_ops,
            forall|i: int|
                0 <= i < self.max_add_ops ==> (#[trigger] r@[i]).decomposes(
                    add_slot(self.add_ops@, i),
                ),
            final(ctx).satisfied == (old(ctx).satisfied && forall|i: int|
                0 <= i < self.max_add_ops ==> add_slot_holds(rand_point@, self.add_ops@, i)),
    {
        let mut r: Vec<EcAddDecomposed> = Vec::new();
        let mut n: usize = 0;
        while n < self.max_add_ops
            invariant
                n <= self.max_add_ops,
                r@.len() == n,
                is_powers_of_256(fr_values(powers_of_256@)),
                forall|i: int|
                    0 <= i < n ==> (#[trigger] r@[i]).decomposes(add_slot(self.add_ops@, i)),
                ctx.satisfied == (old(ctx).satisfied && forall|i: int|
                    0 <= i < n ==> add_slot_holds(rand_point@, self.add_ops@, i)),
            decreases self.max_add_ops - n,
        {
            let op = if n < self.add_ops.len() {
                self.add_ops[n]
            } else {
                EcAddOp::default()
            };
            assert(op@ == add_slot(self.add_ops@, n as int));
            assert(add_slot_holds(rand_point@, self.add_ops@, n as int) == ec_add_constraints(
                rand_point@,
                op.p@,
                op.q@,
                op.r@,
            ));
            let d = self.decompose_ec_add_op(ctx, rand_point, powers_of_256, &op);
            r.push(d);
            n += 1;
        }
        r
    }

    /// The first phase over every slot for scalar multiplications.
    fn decompose_ec_muls(&self, ctx: &mut Context, powers_of_256: &[Fr]) -> (r: Vec<
        EcMulDecomposed,
    >)
        requires
            is_powers_of_256(fr_values(powers_of_256@)),
        ensures
            r@.len() == self.max_mul_ops,
            forall|i: int|
                0 <= i < self.max_mul_ops ==> (#[trigger] r@[i]).decomposes(
                    mul_slot(self.mul_ops@, i),
                ),
            final(ctx).satisfied == (old(ctx).satisfied && forall|i: int|
                0 <= i < self.max_mul_ops ==> mul_slot_holds(self.mul_ops@, i)),
    {
        let mut r: Vec<EcMulDecomposed> = Vec::new();
        let mut n: usize = 0;
        while n < self.max_mul_ops
            invariant
                n <= self.max_mul_ops,
                r@.len() == n,
                is_powers_of_256(fr_values(powers_of_256@)),
                forall|i: int|
                    0 <= i < n ==> (#[trigger] r@[i]).decomposes(mul_slot(self.mul_ops@, i)),
                ctx.satisfied == (old(ctx).satisfied && forall|i: int|
                    0 <= i < n ==> mul_slot_holds(self.mul_ops@, i)),
            decreases self.max_mul_ops - n,
        {
            let op = if n < self.mul_ops.len() {
                self.mul_ops[n]
            } else {
                EcMulOp::default()
            };
            assert(op@ == mul_slot(self.mul_ops@, n as int));
            assert(mul_slot_holds(self.mul_ops@, n as int) == ec_mul_constraints(
                op.p@,
                op.s@,
                op.r@,
            ));
            let d = self.decompose_ec_mul_op(ctx, powers_of_256, &op);
            r.push(d);
            n += 1;
        }
        r
    }

    /// The first phase over every slot for pairing checks.
    fn decompose_ec_pairings(&self, ctx: &mut Context, powers_of_256: &[Fr]) -> (r: Vec<
        EcPairingDecomposed,
    >)
        requires
            is_powers_of_256(fr_values(powers_of_256@)),
        ensures
            r@.len() == self.max_pairing_ops,
            forall|i: int|
                0 <= i < self.max_pairing_ops ==> (#[trigger] r@[i]).input_cells@
                    == pairing_input_bytes(pairing_slot(self.pairing_ops@, i).0) && r@[i].success
                    == pairing_success(pairing_slot(self.pairing_ops@, i).0),
            final(ctx).satisfied == (old(ctx).satisfied && forall|i: int|
                0 <= i < self.max_pairing_ops ==> pairing_slot_holds(self.pairing_ops@, i)),
    {
        let padding = EcPairingOp::default();
        assert(padding.pairs@ =~= Seq::<EcPairingPair>::empty());
        let mut r: Vec<EcPairingDecomposed> = Vec::new();
        let mut n: usize = 0;
        while n < self.max_pairing_ops
            invariant
                n <= self.max_pairing_ops,
                r@.len() == n,
                padding@ == (Seq::<EcPairingPair>::empty(), true),
                is_powers_of_256(fr_values(powers_of_256@)),
                forall|i: int|
                    0 <= i < n ==> (#[trigger] r@[i]).input_cells@ == pairing_input_bytes(
                        pairing_slot(self.pairing_ops@, i).0,
                    ) && r@[i].success == pairing_success(pairing_slot(self.pairing_ops@, i).0),
                ctx.satisfied == (old(ctx).satisfied && forall|i: int|
                    0 <= i < n ==> pairing_slot_holds(self.pairing_ops@, i)),
            decreases self.max_pairing_ops - n,
        {
            let op: &EcPairingOp = if n < self.pairing_ops.len() {
                &self.pairing_ops[n]
            } else {
                &padding
            };
            assert(op@ == pairing_slot(self.pairing_ops@, n as int));
            assert(pairing_slot_holds(self.pairing_ops@, n as int) == ec_pairing_constraints(
                op.pairs@,
                op.output,
            ));
            let d = self.decompose_ec_pairing_op(ctx, powers_of_256, op);
            r.push(d);
            n += 1;
        }
        r
    }

    /// The first phase: every slot of every kind is decomposed and its
    /// predicate laid, with `rand_point` as the mask of the point additions.
    /// The challenge plays no part in it.
    pub fn decompose_ops(&self, ctx: &mut Context, rand_point: &G1Affine) -> (d: EcOpsDecomposed)
        ensures
            self.decomposed_by(d),
            final(ctx).satisfied == (old(ctx).satisfied && self.constraints(rand_point@)),
    {
        let base = Fr::from_u64(256);
        let powers_of_256 = powers(&base, N_BYTES_WORD);
        proof {
            let w = fr_values(powers_of_256@);
            assert forall|i: int| 0 <= i < 11 implies w[i] == fr_pow(
                256,
                i as nat,
            ) by {
                assert(w[i] == power_seq(256, 32)[i]);
            }
        }
        let ec_adds_decomposed = self.decompose_ec_adds(ctx, rand_point, powers_of_256.as_slice());
        let ec_muls_decomposed = self.decompose_ec_muls(ctx, powers_of_256.as_slice());
        let ec_pairings_decomposed = self.decompose_ec_pairings(ctx, powers_of_256.as_slice());
        EcOpsDecomposed { ec_adds_decomposed, ec_muls_decomposed, ec_pairings_decomposed }
    }

    /// The length of the longest input of a pairing check, and 32 at least.
    fn longest_cells(pairings: &Vec<EcPairingDecomposed>) -> (n: usize)
        ensures
            n >= 32,
            forall|i: int| 0 <= i < pairings@.len() ==> (#[trigger] pairings@[i]).input_cells@.len() <= n,
    {
        let mut n: usize = N_BYTES_WORD;
        let mut k: usize = 0;
        while k < pairings.len()
            invariant
                k <= pairings@.len(),
                n >= 32,
                forall|i: int| 0 <= i < k ==> (#[trigger] pairings@[i]).input_cells@.len() <= n,
            decreases pairings@.len() - k,
        {
            let len = pairings[k].input_cells.len();
            if len > n {
                n = len;
            }
            k += 1;
        }
        n
    }

    /// The second phase: with the challenge now known, the cells of every
    /// slot are folded into their random linear combinations.
    pub fn assign_ops(
        &self,
        ctx: &mut Context,
        decomposed: &EcOpsDecomposed,
        challenges: &Challenges,
    ) -> (a: EcOpsAssigned)
        ensures
            *final(ctx) == *old(ctx),
            a.ec_adds_assigned@.len() == decomposed.ec_adds_decomposed@.len(),
            a.ec_muls_assigned@.len() == decomposed.ec_muls_decomposed@.len(),
            a.ec_pairings_assigned@.len() == decomposed.ec_pairings_decomposed@.len(),
            forall|i: int|
                0 <= i < a.ec_adds_assigned@.len() ==> (#[trigger] a.ec_adds_assigned@[i]).combines(
                    decomposed.ec_adds_decomposed@[i],
                    challenges.keccak_input@,
                ),
            forall|i: int|
                0 <= i < a.ec_muls_assigned@.len() ==> (#[trigger] a.ec_muls_assigned@[i]).combines(
                    decomposed.ec_muls_decomposed@[i],
                    challenges.keccak_input@,
                ),
            forall|i: int|
                0 <= i < a.ec_pairings_assigned@.len() ==> (
                #[trigger] a.ec_pairings_assigned@[i]).combines(
                    decomposed.ec_pairings_decomposed@[i],
                    challenges.keccak_input@,
                ),
    {
        let ghost c = challenges.keccak_input@;
        let n_powers = Self::longest_cells(&decomposed.ec_pairings_decomposed);
        let keccak_powers = powers(&challenges.keccak_input, n_powers);
        let kp = keccak_powers.as_slice();
        let ghost w = fr_values(kp@);
        proof {
            assert forall|i: int| 0 <= i < n_powers implies w[i] == #[trigger] fr_pow_at(c, i) by {
                assert(w[i] == power_seq(c, n_powers as nat)[i]);
            }
        }

        let mut ec_adds_assigned: Vec<EcAddAssigned> = Vec::new();
        let mut n: usize = 0;
        while n < decomposed.ec_adds_decomposed.len()
            invariant
                n <= decomposed.ec_adds_decomposed@.len(),
                ec_adds_assigned@.len() == n,
                *ctx == *old(ctx),
                w == fr_values(kp@),
                n_powers >= 32,
                is_powers_of(w, c, n_powers as nat),
                forall|i: int|
                    0 <= i < n ==> (#[trigger] ec_adds_assigned@[i]).combines(
                        decomposed.ec_adds_decomposed@[i],
                        c,
                    ),
            decreases decomposed.ec_adds_decomposed@.len() - n,
        {
            let d = &decomposed.ec_adds_decomposed[n];
            let a = self.assign_ec_add(ctx, d, kp);
            proof {
                lemma_inner_product_rlc(d.point_p.x_cells@, w, c);
                lemma_inner_product_rlc(d.point_p.y_cells@, w, c);
                lemma_inner_product_rlc(d.point_q.x_cells@, w, c);
                lemma_inner_product_rlc(d.point_q.y_cells@, w, c);
                lemma_inner_product_rlc(d.point_r.x_cells@, w, c);
                lemma_inner_product_rlc(d.point_r.y_cells@, w, c);
            }
            ec_adds_assigned.push(a);
            n += 1;
        }

        let mut ec_muls_assigned: Vec<EcMulAssigned> = Vec::new();
        let mut n: usize = 0;
        while n < decomposed.ec_muls_decomposed.len()
            invariant
                n <= decomposed.ec_muls_decomposed@.len(),
                ec_muls_assigned@.len() == n,
                *ctx == *old(ctx),
                w == fr_values(kp@),
                n_powers >= 32,
                is_powers_of(w, c, n_powers as nat),
                forall|i: int|
                    0 <= i < n ==> (#[trigger] ec_muls_assigned@[i]).combines(
                        decomposed.ec_muls_decomposed@[i],
                        c,
                    ),
            decreases decomposed.ec_muls_decomposed@.len() - n,
        {
            let d = &decomposed.ec_muls_decomposed[n];
            let a = self.assign_ec_mul(ctx, d, kp);
            proof {
                lemma_inner_product_rlc(d.point_p.x_cells@, w, c);
                lemma_inner_product_rlc(d.point_p.y_cells@, w, c);
                lemma_inner_product_rlc(d.point_r.x_cells@, w, c);
                lemma_inner_product_rlc(d.point_r.y_cells@, w, c);
            }
            ec_muls_assigned.push(a);
            n += 1;
        }

        let mut ec_pairings_assigned: Vec<EcPairingAssigned> = Vec::new();
        let mut n: usize = 0;
        while n < decomposed.ec_pairings_decomposed.len()
            invariant
                n <= decomposed.ec_pairings_decomposed@.len(),
                ec_pairings_assigned@.len() == n,
                *ctx == *old(ctx),
                w == fr_values(kp@),
                is_powers_of(w, c, n_powers as nat),
                forall|i: int|
                    0 <= i < decomposed.ec_pairings_decomposed@.len() ==> (
                    #[trigger] decomposed.ec_pairings_decomposed@[i]).input_cells@.len()
                        <= n_powers,
                forall|i: int|
                    0 <= i < n ==> (#[trigger] ec_pairings_assigned@[i]).combines(
                        decomposed.ec_pairings_decomposed@[i],
                        c,
                    ),
            decreases decomposed.ec_pairings_decomposed@.len() - n,
        {
            let d = &decomposed.ec_pairings_decomposed[n];
            let a = self.assign_ec_pairing(ctx, d, kp);
            proof {
                lemma_inner_product_rlc(d.input_cells@.reverse(), w, c);
            }
            ec_pairings_assigned.push(a);
            n += 1;
        }

        EcOpsAssigned { ec_adds_assigned, ec_muls_assigned, ec_pairings_assigned }
    }

    /// Builds the circuit's witness and its lookup table.
    ///
    /// Fails, and builds nothing, if any kind of operation has more
    /// operations than slots. Otherwise the table has one row per slot, in
    /// three blocks: the point additions, the scalar multiplications, the
    /// pairing checks. Each block begins with the operations supplied and
    /// ends with padding. The verdict says whether the predicate of every
    /// slot holds.
    pub fn assign(&self, config: &EccCircuitConfig, challenges: &Challenges) -> (r: Result<
        Assignment,
        Error,
    >)
        ensures
            r is Ok <==> self.within_capacity(),
            r is Err ==> r == Err::<Assignment, Error>(Error::CapacityExceeded),
            r matches Ok(a) ==> self.assigned_by(
                a,
                config.rand_point@,
                challenges.keccak_input@,
            ),
    {
        match self.check_capacity() {
            Err(e) => {
                return Err(e);
            },
            Ok(()) => {},
        }
        let mut ctx = Context::new();
        let decomposed = self.decompose_ops(&mut ctx, &config.rand_point);
        // The first phase is over: from here on the challenge may be used.
        let assigned = self.assign_ops(&mut ctx, &decomposed, challenges);
        let table = EccTable::expose(&assigned);
        proof {
            let rows = table.rows@;
            let c = challenges.keccak_input@;
            lemma_add_padding_row(c);
            lemma_mul_padding_row(c);
            assert forall|i: int| 0 <= i < self.max_add_ops implies (#[trigger] rows[i])@
                == add_row_of(add_slot(self.add_ops@, i), c) by {
                let a = assigned.ec_adds_assigned@[i];
                let d = decomposed.ec_adds_decomposed@[i];
                assert(a.combines(d, c));
                assert(d.decomposes(add_slot(self.add_ops@, i)));
                assert(rows[i]@ == ec_add_row(a));
                assert(ec_add_row(a) =~= add_row_of(add_slot(self.add_ops@, i), c));
            }
            assert forall|i: int| 0 <= i < self.max_mul_ops implies (#[trigger] rows[self.max_add_ops
                + i])@ == mul_row_of(mul_slot(self.mul_ops@, i), c) by {
                let a = assigned.ec_muls_assigned@[i];
                let d = decomposed.ec_muls_decomposed@[i];
                assert(a.combines(d, c));
                assert(d.decomposes(mul_slot(self.mul_ops@, i)));
                assert(rows[self.max_add_ops + i]@ == ec_mul_row(a));
                assert(ec_mul_row(a) =~= mul_row_of(mul_slot(self.mul_ops@, i), c));
            }
            assert forall|i: int| 0 <= i < self.max_pairing_ops implies (
            #[trigger] rows[self.max_add_ops + self.max_mul_ops + i])@ == pairing_row_of(
                pairing_slot(self.pairing_ops@, i).0,
                c,
            ) by {
                let a = assigned.ec_pairings_assigned@[i];
                let d = decomposed.ec_pairings_decomposed@[i];
                assert(a.combines(d, c));
                assert(rows[self.max_add_ops + self.max_mul_ops + i]@ == ec_pairing_row(a));
                assert(ec_pairing_row(a) =~= pairing_row_of(
                    pairing_slot(self.pairing_ops@, i).0,
                    c,
                ));
            }
        }
        Ok(Assignment { table, satisfied: ctx.satisfied })
    }

    /// Lays the circuit out: the same pass as `assign`.
    pub fn synthesize_sub(&self, config: &EccCircuitConfig, challenges: &Challenges) -> (r: Result<
        Assignment,
        Error,
    >)
        ensures
            r is Ok <==> self.within_capacity(),
            r is Err ==> r == Err::<Assignment, Error>(Error::CapacityExceeded),
            r matches Ok(a) ==> self.assigned_by(
                a,
                config.rand_point@,
                challenges.keccak_input@,
            ),
    {
        self.assign(config, challenges)
    }
}

} // verus!
