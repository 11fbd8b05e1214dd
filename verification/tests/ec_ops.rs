use ecc_circuit::circuit::EccCircuit;
use ecc_circuit::crt::CrtInteger;
use ecc_circuit::curve::G1Affine;
use ecc_circuit::field::{Fq, Fr};
use ecc_circuit::gate::{inner_product, powers, reversed, Context};
use ecc_circuit::ops::{EcAddOp, EcMulOp};
use halo2curves::bn256 as h;
use halo2curves::group::prime::PrimeCurveAffine;
use halo2curves::group::Curve;

fn fq(x: &h::Fq) -> Fq {
    Fq::from_bytes(&x.to_bytes()).unwrap()
}

fn g1(p: &h::G1Affine) -> G1Affine {
    G1Affine::new(fq(&p.x), fq(&p.y))
}

fn multiple(k: u64) -> h::G1Affine {
    (h::G1Affine::generator() * h::Fr::from(k)).to_affine()
}

fn rand_point() -> G1Affine {
    g1(&multiple(0x1234_5678_9abc_def1))
}

fn circuit() -> EccCircuit {
    EccCircuit {
        max_add_ops: 0,
        max_mul_ops: 0,
        max_pairing_ops: 0,
        add_ops: vec![],
        mul_ops: vec![],
        pairing_ops: vec![],
    }
}

fn powers_of_256() -> Vec<Fr> {
    powers(&Fr::from_u64(256), 32)
}

fn add_accepts(p: G1Affine, q: G1Affine, r: G1Affine) -> bool {
    let mut ctx = Context::new();
    let op = EcAddOp::new(p, q, r);
    circuit().decompose_ec_add_op(&mut ctx, &rand_point(), &powers_of_256(), &op);
    ctx.satisfied
}

fn mul_accepts(p: G1Affine, s: Fr, r: G1Affine) -> bool {
    let mut ctx = Context::new();
    let op = EcMulOp::new(p, s, r);
    circuit().decompose_ec_mul_op(&mut ctx, &powers_of_256(), &op);
    ctx.satisfied
}

#[test]
fn ec_add_accepts_the_identity_as_first_summand() {
    let q = G1Affine::generator();
    assert!(add_accepts(G1Affine::identity(), q, q));
}

#[test]
fn ec_add_accepts_the_identity_as_second_summand() {
    let p = G1Affine::generator();
    assert!(add_accepts(p, G1Affine::identity(), p));
}

#[test]
fn ec_add_accepts_opposite_points_with_the_identity_as_sum() {
    let p = G1Affine::generator();
    assert!(add_accepts(p, p.neg(), G1Affine::identity()));
}

#[test]
fn ec_add_rejects_a_wrong_sum() {
    let p = G1Affine::generator();
    let q = G1Affine::new(Fq::from_u64(3), Fq::from_u64(4));
    assert!(!add_accepts(p, q, G1Affine::generator()));
    assert!(!add_accepts(p, q, G1Affine::identity()));
    assert!(!add_accepts(p, g1(&multiple(2)), g1(&multiple(4))));
    assert!(!add_accepts(p, g1(&multiple(2)), G1Affine::identity()));
    assert!(!add_accepts(p, G1Affine::identity(), G1Affine::identity()));
}

#[test]
fn ec_add_accepts_a_right_sum() {
    assert!(add_accepts(
        G1Affine::generator(),
        g1(&multiple(2)),
        g1(&multiple(3))
    ));
    assert!(add_accepts(
        g1(&multiple(1000)),
        g1(&multiple(234)),
        g1(&multiple(1234))
    ));
    assert!(add_accepts(
        G1Affine::generator(),
        G1Affine::generator(),
        g1(&multiple(2))
    ));
}

#[test]
fn ec_add_accepts_the_padding_operation() {
    assert!(add_accepts(
        G1Affine::identity(),
        G1Affine::identity(),
        G1Affine::identity()
    ));
    let op = EcAddOp::default();
    assert_eq!(op.p, G1Affine::identity());
    assert_eq!(op.q, G1Affine::identity());
    assert_eq!(op.r, G1Affine::identity());
}

#[test]
fn ec_add_rejects_when_the_mask_shares_x_with_an_operand() {
    let mut ctx = Context::new();
    let p = G1Affine::generator();
    let op = EcAddOp::new(p, G1Affine::identity(), p);
    circuit().decompose_ec_add_op(&mut ctx, &p, &powers_of_256(), &op);
    assert!(!ctx.satisfied);
}

#[test]
fn ec_add_rejects_a_mask_off_the_curve() {
    let mut ctx = Context::new();
    let p = G1Affine::generator();
    let op = EcAddOp::new(G1Affine::identity(), p, p);
    let mask = G1Affine::new(Fq::from_u64(5), Fq::from_u64(6));
    circuit().decompose_ec_add_op(&mut ctx, &mask, &powers_of_256(), &op);
    assert!(!ctx.satisfied);
}

#[test]
fn a_failed_constraint_stays_failed() {
    let mut ctx = Context::new();
    ctx.constrain(true);
    assert!(ctx.satisfied);
    ctx.constrain(false);
    assert!(!ctx.satisfied);
    ctx.constrain(true);
    assert!(!ctx.satisfied);
    let p = G1Affine::generator();
    let op = EcAddOp::new(G1Affine::identity(), p, p);
    circuit().decompose_ec_add_op(&mut ctx, &rand_point(), &powers_of_256(), &op);
    assert!(!ctx.satisfied);
}

#[test]
fn ec_mul_by_one_accepts_the_point_itself() {
    let p = g1(&multiple(42));
    assert!(mul_accepts(p, Fr::one(), p));
    assert!(!mul_accepts(p, Fr::one(), G1Affine::generator()));
}

#[test]
fn ec_mul_by_zero_accepts_the_identity() {
    let p = g1(&multiple(42));
    assert!(mul_accepts(p, Fr::zero(), G1Affine::identity()));
    assert!(!mul_accepts(p, Fr::zero(), p));
    assert!(mul_accepts(
        G1Affine::identity(),
        Fr::zero(),
        G1Affine::identity()
    ));
    assert!(mul_accepts(
        G1Affine::identity(),
        Fr::from_u64(9),
        G1Affine::identity()
    ));
}

#[test]
fn ec_mul_by_the_group_order_accepts_the_identity() {
    let order = Fr::from_raw([
        0x43e1f593f0000001,
        0x2833e84879b97091,
        0xb85045b68181585d,
        0x30644e72e131a029,
    ]);
    assert_eq!(order, Fr::zero());
    assert!(mul_accepts(
        G1Affine::generator(),
        order,
        G1Affine::identity()
    ));
}

#[test]
fn ec_mul_accepts_a_right_product_and_rejects_a_wrong_one() {
    let p = g1(&multiple(3));
    assert!(mul_accepts(p, Fr::from_u64(5), g1(&multiple(15))));
    assert!(!mul_accepts(p, Fr::from_u64(5), g1(&multiple(16))));
    let d = {
        let mut ctx = Context::new();
        let op = EcMulOp::new(p, Fr::from_u64(5), g1(&multiple(15)));
        circuit().decompose_ec_mul_op(&mut ctx, &powers_of_256(), &op)
    };
    assert_eq!(d.scalar_s.scalar, Fr::from_u64(5));
    assert_eq!(d.point_p.x_cells, p.x.to_bytes());
    assert_eq!(d.point_r.y_cells, g1(&multiple(15)).y.to_bytes());
}

#[test]
fn bytes_and_limbs_of_an_element_agree() {
    let x = Fq::from_raw([
        0x0123456789abcdef,
        0xfedcba9876543210,
        0x0f1e2d3c4b5a6978,
        0x1122334455667788,
    ]);
    let crt = CrtInteger::load_private(&x);
    assert_eq!(crt.value, x);
    assert_eq!(crt.limbs[0].limbs(), [0x0123456789abcdef, 0x543210, 0, 0]);
    assert_eq!(crt.limbs[1].limbs(), [0x5a6978fedcba9876, 0x2d3c4b, 0, 0]);
    assert_eq!(crt.limbs[2].limbs(), [0x3344556677880f1e, 0x1122, 0, 0]);
    let bytes = x.to_bytes();
    let mut ctx = Context::new();
    circuit().assert_crt_repr(&mut ctx, &crt, &bytes, &powers_of_256());
    assert!(ctx.satisfied);
}

#[test]
fn other_bytes_do_not_pass_for_an_element() {
    let x = Fq::from_u64(0x0102030405060708);
    let crt = CrtInteger::load_private(&x);
    for position in [0usize, 10, 11, 21, 22, 31] {
        let mut bytes = x.to_bytes();
        bytes[position] ^= 1;
        let mut ctx = Context::new();
        circuit().assert_crt_repr(&mut ctx, &crt, &bytes, &powers_of_256());
        assert!(!ctx.satisfied);
    }
    let other = Fq::from_u64(0x0102030405060709);
    let mut ctx = Context::new();
    circuit().assert_crt_repr(&mut ctx, &crt, &other.to_bytes(), &powers_of_256());
    assert!(!ctx.satisfied);
}

#[test]
fn wrong_weights_fail_the_byte_constraints() {
    let x = Fq::from_u64(0x0102030405060708);
    let crt = CrtInteger::load_private(&x);
    let weights = powers(&Fr::from_u64(255), 32);
    let mut ctx = Context::new();
    circuit().assert_crt_repr(&mut ctx, &crt, &x.to_bytes(), &weights);
    assert!(!ctx.satisfied);
}

#[test]
fn decompose_g1_gives_little_endian_bytes() {
    let p = G1Affine::new(Fq::from_u64(0x0102), Fq::from_u64(0xff));
    let (x, y) = circuit().decompose_g1(p);
    let mut expected_x = [0u8; 32];
    expected_x[0] = 2;
    expected_x[1] = 1;
    let mut expected_y = [0u8; 32];
    expected_y[0] = 0xff;
    assert_eq!(x, expected_x);
    assert_eq!(y, expected_y);
    let mut ctx = Context::new();
    let d = circuit().assign_g1(&mut ctx, p, &powers_of_256());
    assert!(ctx.satisfied);
    assert_eq!(d.x_cells, expected_x);
    assert_eq!(d.y_cells, expected_y);
    assert_eq!(d.ec_point.point(), p);
}

#[test]
fn assign_fr_keeps_the_scalar_and_the_verdict() {
    let mut ctx = Context::new();
    let s = circuit().assign_fr(&mut ctx, Fr::from_u64(99));
    assert_eq!(s.scalar, Fr::from_u64(99));
    assert!(ctx.satisfied);
    ctx.constrain(false);
    circuit().assign_fr(&mut ctx, Fr::from_u64(99));
    assert!(!ctx.satisfied);
}

#[test]
fn powers_start_at_one_and_multiply_by_the_base() {
    let p = powers(&Fr::from_u64(256), 4);
    assert_eq!(
        p,
        vec![
            Fr::from_u64(1),
            Fr::from_u64(256),
            Fr::from_u64(65536),
            Fr::from_u64(16777216)
        ]
    );
    assert_eq!(powers(&Fr::from_u64(7), 0), vec![]);
    let big = powers(&Fr::from_u64(256), 32);
    assert_eq!(big[31].limbs(), [0, 0, 0, 1 << 56]);
}

#[test]
fn inner_product_weighs_each_cell() {
    let weights = powers(&Fr::from_u64(10), 5);
    assert_eq!(inner_product(&[1, 2, 3], &weights), Fr::from_u64(321));
    assert_eq!(inner_product(&[], &weights), Fr::zero());
    assert_eq!(inner_product(&[0, 0, 0, 0, 9], &weights), Fr::from_u64(90000));
    assert_eq!(reversed(&[1, 2, 3]), vec![3, 2, 1]);
}
