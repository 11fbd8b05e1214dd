use ecc_circuit::assign::Assignment;
use ecc_circuit::circuit::{
    Block, Challenges, CircuitsParams, EccCircuit, EccCircuitConfig, EccCircuitConfigArgs, Error,
    PrecompileEcParams,
};
use ecc_circuit::curve::{Fq2, G1Affine, G2Affine};
use ecc_circuit::field::{Fq, Fr};
use ecc_circuit::gate::{powers, Context};
use ecc_circuit::ops::{EcAddOp, EcMulOp, EcPairingOp, EcPairingPair, PrecompileCalls};
use ecc_circuit::table::{EccTable, EccTableRow};
use ecc_circuit::witness::{EcOpsAssigned, EcPairingAssigned};
use halo2curves::bn256 as h;
use halo2curves::group::prime::PrimeCurveAffine;
use halo2curves::group::Curve;

fn fq(x: &h::Fq) -> Fq {
    Fq::from_bytes(&x.to_bytes()).unwrap()
}

fn fr(x: &h::Fr) -> Fr {
    Fr::from_bytes(&x.to_bytes()).unwrap()
}

fn g1(p: &h::G1Affine) -> G1Affine {
    G1Affine::new(fq(&p.x), fq(&p.y))
}

fn g2(p: &h::G2Affine) -> G2Affine {
    G2Affine::new(
        Fq2::new(fq(p.x.c0()), fq(p.x.c1())),
        Fq2::new(fq(p.y.c0()), fq(p.y.c1())),
    )
}

fn multiple(k: u64) -> h::G1Affine {
    (h::G1Affine::generator() * h::Fr::from(k)).to_affine()
}

fn config() -> EccCircuitConfig {
    EccCircuitConfig::new(EccCircuitConfigArgs {
        rand_point: g1(&multiple(0x1234_5678_9abc_def1)),
    })
}

fn challenges() -> Challenges {
    Challenges {
        keccak_input: Fr::from_u64(0xdead_beef_cafe),
    }
}

/// The combination of bytes under a challenge, computed with the curve
/// library's own field.
fn rlc(bytes: &[u8], challenge: u64) -> Fr {
    let c = h::Fr::from(challenge);
    let mut acc = h::Fr::from(0);
    let mut power = h::Fr::from(1);
    for b in bytes {
        acc += h::Fr::from(*b as u64) * power;
        power *= c;
    }
    fr(&acc)
}

fn add(a: u64, b: u64) -> EcAddOp {
    EcAddOp::new(g1(&multiple(a)), g1(&multiple(b)), g1(&multiple(a + b)))
}

fn mul(a: u64, s: u64) -> EcMulOp {
    EcMulOp::new(g1(&multiple(a)), Fr::from_u64(s), g1(&multiple(a * s)))
}

fn pairing() -> EcPairingOp {
    let p = multiple(5);
    let q = h::G2Affine::generator();
    EcPairingOp::new(
        vec![
            EcPairingPair::new(g1(&p), g2(&q)),
            EcPairingPair::new(g1(&-p), g2(&q)),
        ],
        true,
    )
}

fn zero_row(tag: u64) -> EccTableRow {
    EccTableRow {
        op_type: tag,
        arg1_rlc: Fr::zero(),
        arg2_rlc: Fr::zero(),
        arg3_rlc: Fr::zero(),
        arg4_rlc: Fr::zero(),
        output1_rlc: Fr::zero(),
        output2_rlc: Fr::zero(),
        input_rlc: Fr::zero(),
    }
}

fn circuit(adds: Vec<EcAddOp>, muls: Vec<EcMulOp>, pairings: Vec<EcPairingOp>) -> EccCircuit {
    EccCircuit {
        max_add_ops: 4,
        max_mul_ops: 3,
        max_pairing_ops: 2,
        add_ops: adds,
        mul_ops: muls,
        pairing_ops: pairings,
    }
}

fn assign(c: &EccCircuit) -> Assignment {
    c.assign(&config(), &challenges()).unwrap()
}

#[test]
fn config_has_three_limbs_of_88_bits() {
    let c = config();
    assert_eq!(c.num_limbs, 3);
    assert_eq!(c.limb_bits, 88);
    assert_eq!(c.num_advice, [33, 1]);
    assert_eq!(c.num_lookup_advice, 17);
    assert_eq!(c.num_fixed, 1);
    assert_eq!(c.lookup_bits, 13);
    assert_eq!(c.k, 20);
    assert_eq!(c.rand_point, g1(&multiple(0x1234_5678_9abc_def1)));
}

#[test]
fn precompile_tags_are_the_addresses() {
    assert_eq!(PrecompileCalls::Bn128Add.as_u64(), 6);
    assert_eq!(PrecompileCalls::Bn128Mul.as_u64(), 7);
    assert_eq!(PrecompileCalls::Bn128Pairing.as_u64(), 8);
}

#[test]
fn one_more_add_than_slots_exceeds_capacity() {
    let adds: Vec<EcAddOp> = (1..=5).map(|k| add(k, 10)).collect();
    let c = circuit(adds, vec![], vec![]);
    assert_eq!(c.check_capacity(), Err(Error::CapacityExceeded));
    assert_eq!(
        c.assign(&config(), &challenges()),
        Err(Error::CapacityExceeded)
    );
    assert_eq!(
        c.synthesize_sub(&config(), &challenges()),
        Err(Error::CapacityExceeded)
    );
}

#[test]
fn exactly_as_many_adds_as_slots_succeeds() {
    let adds: Vec<EcAddOp> = (1..=4).map(|k| add(k, 10)).collect();
    let c = circuit(adds, vec![], vec![]);
    assert_eq!(c.check_capacity(), Ok(()));
    let a = assign(&c);
    assert!(a.satisfied);
    assert_eq!(a.table.rows.len(), 9);
    assert!(a.table.rows[..4].iter().all(|r| r.op_type == 6));
    assert!(a.table.rows[..4].iter().all(|r| *r != zero_row(6)));
}

#[test]
fn one_more_mul_or_pairing_than_slots_exceeds_capacity() {
    let muls: Vec<EcMulOp> = (1..=4).map(|k| mul(k, 3)).collect();
    let c = circuit(vec![], muls, vec![]);
    assert_eq!(
        c.assign(&config(), &challenges()),
        Err(Error::CapacityExceeded)
    );
    let c = circuit(vec![], vec![], vec![pairing(), pairing(), pairing()]);
    assert_eq!(
        c.assign(&config(), &challenges()),
        Err(Error::CapacityExceeded)
    );
    let c = circuit(vec![], vec![mul(1, 3); 3], vec![pairing(), pairing()]);
    assert!(c.assign(&config(), &challenges()).is_ok());
}

#[test]
fn slots_left_over_are_padded_with_zero_rows() {
    let c = circuit(vec![add(1, 2), add(3, 4)], vec![mul(2, 3)], vec![pairing()]);
    let a = assign(&c);
    assert!(a.satisfied);
    let rows = &a.table.rows;
    assert_eq!(rows.len(), 4 + 3 + 2);
    assert_eq!(rows[2], zero_row(6));
    assert_eq!(rows[3], zero_row(6));
    assert_eq!(rows[5], zero_row(7));
    assert_eq!(rows[6], zero_row(7));
    let mut padded_pairing = zero_row(8);
    padded_pairing.output1_rlc = Fr::one();
    assert_eq!(rows[8], padded_pairing);
}

#[test]
fn rows_hold_the_combinations_of_the_operands() {
    let c = circuit(vec![add(1, 2), add(3, 4)], vec![mul(2, 3)], vec![pairing()]);
    let a = assign(&c);
    let rows = &a.table.rows;
    let ch = 0xdead_beef_cafe;

    let op = add(3, 4);
    assert_eq!(
        rows[1],
        EccTableRow {
            op_type: 6,
            arg1_rlc: rlc(&op.p.x.to_bytes(), ch),
            arg2_rlc: rlc(&op.p.y.to_bytes(), ch),
            arg3_rlc: rlc(&op.q.x.to_bytes(), ch),
            arg4_rlc: rlc(&op.q.y.to_bytes(), ch),
            output1_rlc: rlc(&op.r.x.to_bytes(), ch),
            output2_rlc: rlc(&op.r.y.to_bytes(), ch),
            input_rlc: Fr::zero(),
        }
    );

    let op = mul(2, 3);
    assert_eq!(
        rows[4],
        EccTableRow {
            op_type: 7,
            arg1_rlc: rlc(&op.p.x.to_bytes(), ch),
            arg2_rlc: rlc(&op.p.y.to_bytes(), ch),
            arg3_rlc: Fr::from_u64(3),
            arg4_rlc: Fr::zero(),
            output1_rlc: rlc(&op.r.x.to_bytes(), ch),
            output2_rlc: rlc(&op.r.y.to_bytes(), ch),
            input_rlc: Fr::zero(),
        }
    );

    let op = pairing();
    let mut input = Vec::new();
    for pair in &op.pairs {
        for coord in [
            pair.g1_point.x,
            pair.g1_point.y,
            pair.g2_point.x.c1,
            pair.g2_point.x.c0,
            pair.g2_point.y.c1,
            pair.g2_point.y.c0,
        ] {
            input.extend(coord.to_bytes().iter().rev());
        }
    }
    input.reverse();
    let mut expected = zero_row(8);
    expected.output1_rlc = Fr::one();
    expected.input_rlc = rlc(&input, ch);
    assert_eq!(rows[7], expected);
}

#[test]
fn the_generator_has_a_small_combination() {
    // x = 1 and y = 2 have one non-zero byte each, of weight challenge^0.
    let c = circuit(
        vec![EcAddOp::new(
            G1Affine::identity(),
            G1Affine::generator(),
            G1Affine::generator(),
        )],
        vec![],
        vec![],
    );
    let a = assign(&c);
    assert!(a.satisfied);
    let mut expected = zero_row(6);
    expected.arg3_rlc = Fr::from_u64(1);
    expected.arg4_rlc = Fr::from_u64(2);
    expected.output1_rlc = Fr::from_u64(1);
    expected.output2_rlc = Fr::from_u64(2);
    assert_eq!(a.table.rows[0], expected);
}

#[test]
fn a_wrong_operation_fails_the_constraints_and_still_fills_the_table() {
    let wrong = EcAddOp::new(g1(&multiple(1)), g1(&multiple(2)), g1(&multiple(4)));
    let c = circuit(vec![add(1, 2), wrong], vec![mul(2, 3)], vec![pairing()]);
    let a = assign(&c);
    assert!(!a.satisfied);
    assert_eq!(a.table.rows.len(), 9);

    let wrong = EcMulOp::new(g1(&multiple(1)), Fr::from_u64(2), g1(&multiple(3)));
    let c = circuit(vec![add(1, 2)], vec![wrong], vec![]);
    assert!(!assign(&c).satisfied);

    let mut wrong = pairing();
    wrong.output = false;
    let c = circuit(vec![], vec![], vec![wrong]);
    let a = assign(&c);
    assert!(!a.satisfied);
    assert_eq!(a.table.rows[7].output1_rlc, Fr::one());
}

#[test]
fn a_failed_pairing_check_has_success_zero() {
    let p = multiple(5);
    let q = h::G2Affine::generator();
    let op = EcPairingOp::new(vec![EcPairingPair::new(g1(&p), g2(&q))], false);
    let c = circuit(vec![], vec![], vec![op]);
    let a = assign(&c);
    assert!(a.satisfied);
    assert_eq!(a.table.rows[7].output1_rlc, Fr::zero());
    assert_ne!(a.table.rows[7].input_rlc, Fr::zero());
}

#[test]
fn the_same_operand_and_challenge_give_the_same_combination() {
    let c = circuit(vec![add(1, 2), add(1, 2)], vec![mul(1, 3)], vec![]);
    let first = assign(&c);
    let second = assign(&c);
    assert_eq!(first, second);
    let rows = &first.table.rows;
    assert_eq!(rows[0], rows[1]);
    assert_eq!(rows[0].arg1_rlc, rows[4].arg1_rlc);
    assert_eq!(rows[0].arg2_rlc, rows[4].arg2_rlc);
}

#[test]
fn another_challenge_gives_another_combination() {
    let c = circuit(vec![add(1, 2)], vec![], vec![]);
    let first = assign(&c);
    let other = Challenges {
        keccak_input: Fr::from_u64(0xdead_beef_caff),
    };
    let second = c.assign(&config(), &other).unwrap();
    assert_eq!(first.satisfied, second.satisfied);
    assert_ne!(first.table.rows[0].arg3_rlc, second.table.rows[0].arg3_rlc);
    assert_ne!(first.table.rows[0].output2_rlc, second.table.rows[0].output2_rlc);
    // padding rows do not depend on the challenge
    assert_eq!(first.table.rows[1], second.table.rows[1]);
}

#[test]
fn the_phases_can_be_run_one_by_one() {
    let c = circuit(vec![add(1, 2)], vec![mul(2, 3)], vec![pairing()]);
    let mut ctx = Context::new();
    let decomposed = c.decompose_ops(&mut ctx, &config().rand_point);
    assert!(ctx.satisfied);
    assert_eq!(decomposed.ec_adds_decomposed.len(), 4);
    assert_eq!(decomposed.ec_muls_decomposed.len(), 3);
    assert_eq!(decomposed.ec_pairings_decomposed.len(), 2);
    assert_eq!(decomposed.ec_pairings_decomposed[0].input_cells.len(), 384);
    assert_eq!(decomposed.ec_pairings_decomposed[1].input_cells.len(), 0);
    let assigned = c.assign_ops(&mut ctx, &decomposed, &challenges());
    assert!(ctx.satisfied);
    let table = EccTable::expose(&assigned);
    assert_eq!(table, assign(&c).table);

    let weights = powers(&challenges().keccak_input, 32);
    let one = c.assign_ec_add(&mut ctx, &decomposed.ec_adds_decomposed[0], &weights);
    assert_eq!(one, assigned.ec_adds_assigned[0]);
    let one = c.assign_ec_mul(&mut ctx, &decomposed.ec_muls_decomposed[0], &weights);
    assert_eq!(one, assigned.ec_muls_assigned[0]);
    let weights = powers(&challenges().keccak_input, 384);
    let one = c.assign_ec_pairing(&mut ctx, &decomposed.ec_pairings_decomposed[0], &weights);
    assert_eq!(one, assigned.ec_pairings_assigned[0]);
}

#[test]
fn rows_are_laid_in_three_blocks() {
    let assigned = EcOpsAssigned {
        ec_adds_assigned: vec![],
        ec_muls_assigned: vec![],
        ec_pairings_assigned: vec![
            EcPairingAssigned {
                input_rlc: Fr::from_u64(5),
                success: false,
            },
            EcPairingAssigned {
                input_rlc: Fr::from_u64(6),
                success: true,
            },
        ],
    };
    let table = EccTable::expose(&assigned);
    let mut first = zero_row(8);
    first.input_rlc = Fr::from_u64(5);
    let mut second = zero_row(8);
    second.input_rlc = Fr::from_u64(6);
    second.output1_rlc = Fr::one();
    assert_eq!(table.rows, vec![first, second]);
}

#[test]
fn a_circuit_is_made_from_a_block() {
    let block = Block {
        circuits_params: CircuitsParams {
            max_ec_ops: PrecompileEcParams {
                ec_add: 10,
                ec_mul: 20,
                ec_pairing: 30,
            },
        },
        ec_add_ops: vec![add(1, 2)],
        ec_mul_ops: vec![mul(1, 2), mul(3, 4)],
        ec_pairing_ops: vec![pairing()],
    };
    let c = EccCircuit::new_from_block(block.clone());
    assert_eq!(c.max_add_ops, 10);
    assert_eq!(c.max_mul_ops, 20);
    assert_eq!(c.max_pairing_ops, 30);
    assert_eq!(c.add_ops, block.ec_add_ops);
    assert_eq!(c.mul_ops, block.ec_mul_ops);
    assert_eq!(c.pairing_ops, block.ec_pairing_ops);
}

#[test]
fn unusable_rows_is_the_larger_of_the_two() {
    assert_eq!(EccCircuit::unusable_rows(59, 64), 64);
    assert_eq!(EccCircuit::unusable_rows(64, 59), 64);
    assert_eq!(EccCircuit::unusable_rows(7, 7), 7);
}

#[test]
fn min_num_rows_block_shares_the_budget_among_the_slots() {
    let block = Block {
        circuits_params: CircuitsParams {
            max_ec_ops: PrecompileEcParams {
                ec_add: 10,
                ec_mul: 20,
                ec_pairing: 2,
            },
        },
        ec_add_ops: vec![add(1, 2); 3],
        ec_mul_ops: vec![mul(1, 2); 5],
        ec_pairing_ops: vec![pairing()],
    };
    // 2^20 - (63 + 3) = 1048510 rows; 3 * 104851, 5 * 52425, 1 * 524255
    assert_eq!(
        EccCircuit::min_num_rows_block(&block, 64),
        (524255, 1048510)
    );
    let empty = Block {
        ec_add_ops: vec![],
        ec_mul_ops: vec![],
        ec_pairing_ops: vec![],
        ..block.clone()
    };
    assert_eq!(EccCircuit::min_num_rows_block(&empty, 1), (0, 1048573));
    let full = Block {
        ec_add_ops: vec![add(1, 2); 10],
        ec_pairing_ops: vec![],
        ..block
    };
    assert_eq!(
        EccCircuit::min_num_rows_block(&full, 64),
        (1048510, 1048510)
    );
}
