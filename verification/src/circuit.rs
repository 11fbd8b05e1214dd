//! The circuit: its configuration, its operations and its capacity.

use crate::crt::{LIMB_BITS, NUM_LIMBS};
use crate::curve::G1Affine;
use crate::field::Fr;
use crate::ops::{EcAddOp, EcMulOp, EcPairingOp};
use vstd::prelude::*;

verus! {

/// Base-2 logarithm of the number of rows that the circuit is laid out on.
pub const LOG_TOTAL_NUM_ROWS: u32 = 20;

/// The one way in which building the circuit fails.
#[derive(Clone, Copy, Debug, PartialEq, Eq)]
pub enum Error {
    /// More operations of some kind were supplied than the circuit has
    /// slots for.
    CapacityExceeded,
}

/// The challenges that become known between the two phases.
#[derive(Clone, Copy, Debug, PartialEq, Eq)]
pub struct Challenges {
    /// The randomness under which byte cells are combined.
    pub keccak_input: Fr,
}

/// What the circuit's configuration is made from.
#[derive(Clone, Copy, Debug, PartialEq, Eq)]
pub struct EccCircuitConfigArgs {
    /// The point that masks the operands of a point addition: a point of
    /// the curve that has nothing to do with them.
    pub rand_point: G1Affine,
}

/// The circuit's configuration.
#[derive(Clone, Copy, Debug, PartialEq, Eq)]
pub struct EccCircuitConfig {
    /// The point that masks the operands of a point addition.
    pub rand_point: G1Affine,
    /// Number of limbs of a base-field element.
    pub num_limbs: usize,
    /// Number of bits of a limb.
    pub limb_bits: usize,
    /// Number of advice columns of the first and of the second phase.
    pub num_advice: [usize; 2],
    /// Number of advice columns that are looked up.
    pub num_lookup_advice: usize,
    /// Number of fixed columns.
    pub num_fixed: usize,
    /// Number of bits of the range table.
    pub lookup_bits: usize,
    /// Base-2 logarithm of the number of rows.
    pub k: usize,
}

impl EccCircuitConfig {
    /// The configuration: three limbs of 88 bits, 33 advice columns in the
    /// first phase and one in the second, 17 looked-up columns, one fixed
    /// column and a range table of 13 bits, on `2^20` rows.
    pub fn new(args: EccCircuitConfigArgs) -> (config: EccCircuitConfig)
        ensures
            config.rand_point == args.rand_point,
            config.num_limbs == 3,
            config.limb_bits == 88,
            config.num_advice@ == seq![33usize, 1],
            config.num_lookup_advice == 17,
            config.num_fixed == 1,
            config.lookup_bits == 13,
            config.k == 20,
    {
        let config = EccCircuitConfig {
            rand_point: args.rand_point,
            num_limbs: NUM_LIMBS,
            limb_bits: LIMB_BITS,
            num_advice: [33, 1],
            num_lookup_advice: 17,
            num_fixed: 1,
            lookup_bits: 13,
            k: LOG_TOTAL_NUM_ROWS as usize,
        };
        assert(config.num_advice@ =~= seq![33usize, 1]);
        config
    }
}

/// The circuit: for each kind of operation a number of slots and the
/// operations that fill them. Slots left over are filled with padding.
#[derive(Clone, Debug, PartialEq, Eq)]
pub struct EccCircuit {
    /// Number of slots for point additions.
    pub max_add_ops: usize,
    /// Number of slots for scalar multiplications.
    pub max_mul_ops: usize,
    /// Number of slots for pairing checks.
    pub max_pairing_ops: usize,
    /// The point additions.
    pub add_ops: Vec<EcAddOp>,
    /// The scalar multiplications.
    pub mul_ops: Vec<EcMulOp>,
    /// The pairing checks.
    pub pairing_ops: Vec<EcPairingOp>,
}

/// The number of slots for each kind of operation.
#[derive(Clone, Copy, Debug, PartialEq, Eq)]
pub struct PrecompileEcParams {
    /// Number of slots for point additions.
    pub ec_add: usize,
    /// Number of slots for scalar multiplications.
    pub ec_mul: usize,
    /// Number of slots for pairing checks.
    pub ec_pairing: usize,
}

/// The parameters of the circuits of a block.
#[derive(Clone, Copy, Debug, PartialEq, Eq)]
pub struct CircuitsParams {
    /// The number of slots for each kind of curve operation.
    pub max_ec_ops: PrecompileEcParams,
}

/// What the circuit reads of a block: its parameters and the curve
/// operations of its precompile calls.
#[derive(Clone, Debug, PartialEq, Eq)]
pub struct Block {
    /// The parameters.
    pub circuits_params: CircuitsParams,
    /// The point additions.
    pub ec_add_ops: Vec<EcAddOp>,
    /// The scalar multiplications.
    pub ec_mul_ops: Vec<EcMulOp>,
    /// The pairing checks.
    pub ec_pairing_ops: Vec<EcPairingOp>,
}

/// The rows that `count` operations take up when `row_num` rows are shared
/// evenly among `max` slots.
pub open spec fn rows_taken(row_num: int, max: int, count: int) -> int {
    (row_num / max) * count
}

/// The largest of three numbers.
pub open spec fn max3(a: int, b: int, c: int) -> int {
    if a >= b && a >= c {
        a
    } else if b >= c {
        b
    } else {
        c
    }
}

impl EccCircuit {
    /// The circuit for a block: the block's numbers of slots and its
    /// operations.
    pub fn new_from_block(block: Block) -> (circuit: EccCircuit)
        ensures
            circuit.max_add_ops == block.circuits_params.max_ec_ops.ec_add,
            circuit.max_mul_ops == block.circuits_params.max_ec_ops.ec_mul,
            circuit.max_pairing_ops == block.circuits_params.max_ec_ops.ec_pairing,
            circuit.add_ops == block.ec_add_ops,
            circuit.mul_ops == block.ec_mul_ops,
            circuit.pairing_ops == block.ec_pairing_ops,
    {
        EccCircuit {
            max_add_ops: block.circuits_params.max_ec_ops.ec_add,
            max_mul_ops: block.circuits_params.max_ec_ops.ec_mul,
            max_pairing_ops: block.circuits_params.max_ec_ops.ec_pairing,
            add_ops: block.ec_add_ops,
            mul_ops: block.ec_mul_ops,
            pairing_ops: block.ec_pairing_ops,
        }
    }

    /// The number of rows at the end of the row space that the circuit
    /// cannot use: as many as the circuit that needs most of the two whose
    /// columns decide it.
    pub fn unusable_rows(keccak_unusable_rows: usize, evm_unusable_rows: usize) -> (n: usize)
        ensures
            n >= keccak_unusable_rows,
            n >= evm_unusable_rows,
            n == keccak_unusable_rows || n == evm_unusable_rows,
    {
        if keccak_unusable_rows >= evm_unusable_rows {
            keccak_unusable_rows
        } else {
            evm_unusable_rows
        }
    }

    /// How full the circuit is, and how many rows it has to fill.
    ///
    /// The second number is the row budget: `2^20` rows less the blinding
    /// rows, one fewer than the unusable ones, less three. The first is the
    /// largest, over the three kinds, of the rows that the block's
    /// operations take up when the budget is shared evenly among the kind's
    /// slots.
    ///
    /// Every kind must have a slot, there must be an unusable row, the
    /// budget must not be negative, and the three products must fit.
    pub fn min_num_rows_block(block: &Block, unusable_rows: usize) -> (r: (usize, usize))
        requires
            1 <= unusable_rows <= 0x10_0000 - 2,
            block.circuits_params.max_ec_ops.ec_add > 0,
            block.circuits_params.max_ec_ops.ec_mul > 0,
            block.circuits_params.max_ec_ops.ec_pairing > 0,
            rows_taken(
                0x10_0000 - (unusable_rows + 2),
                block.circuits_params.max_ec_ops.ec_add as int,
                block.ec_add_ops@.len() as int,
            ) <= usize::MAX,
            rows_taken(
                0x10_0000 - (unusable_rows + 2),
                block.circuits_params.max_ec_ops.ec_mul as int,
                block.ec_mul_ops@.len() as int,
            ) <= usize::MAX,
            rows_taken(
                0x10_0000 - (unusable_rows + 2),
                block.circuits_params.max_ec_ops.ec_pairing as int,
                block.ec_pairing_ops@.len() as int,
            ) <= usize::MAX,
        ensures
            r.1 == 0x10_0000 - (unusable_rows + 2),
            r.0 == max3(
                rows_taken(
                    r.1 as int,
                    block.circuits_params.max_ec_ops.ec_add as int,
                    block.ec_add_ops@.len() as int,
                ),
                rows_taken(
                    r.1 as int,
                    block.circuits_params.max_ec_ops.ec_mul as int,
                    block.ec_mul_ops@.len() as int,
                ),
                rows_taken(
                    r.1 as int,
                    block.circuits_params.max_ec_ops.ec_pairing as int,
                    block.ec_pairing_ops@.len() as int,
                ),
            ),
    {
        let max_blinding_factor = unusable_rows - 1;
        let total: usize = 0x10_0000;
        let row_num = total - (max_blinding_factor + 3);

        let ec_adds = block.ec_add_ops.len();
        let ec_muls = block.ec_mul_ops.len();
        let ec_pairings = block.ec_pairing_ops.len();

        let a = (row_num / block.circuits_params.max_ec_ops.ec_add) * ec_adds;
        let b = (row_num / block.circuits_params.max_ec_ops.ec_mul) * ec_muls;
        let c = (row_num / block.circuits_params.max_ec_ops.ec_pairing) * ec_pairings;
        let min_row_num = if a >= b && a >= c {
            a
        } else if b >= c {
            b
        } else {
            c
        };
        (min_row_num, row_num)
    }
}

} // verus!
