use ecc_circuit::circuit::EccCircuit;
use ecc_circuit::curve::{Fq2, G1Affine, G2Affine};
use ecc_circuit::field::{Fq, Fr};
use ecc_circuit::gate::{powers, Context};
use ecc_circuit::ops::{EcPairingOp, EcPairingPair};
use ecc_circuit::pairing::{multi_miller_loop, pairing_product_is_one, Fq12};
use halo2curves::bn256 as h;
use halo2curves::group::prime::PrimeCurveAffine;
use halo2curves::group::Curve;

fn fq(x: &h::Fq) -> Fq {
    Fq::from_bytes(&x.to_bytes()).unwrap()
}

fn g1(p: &h::G1Affine) -> G1Affine {
    G1Affine::new(fq(&p.x), fq(&p.y))
}

fn g2(p: &h::G2Affine) -> G2Affine {
    G2Affine::new(
        Fq2::new(fq(p.x.c0()), fq(p.x.c1())),
        Fq2::new(fq(p.y.c0()), fq(p.y.c1())),
    )
}

fn g1_multiple(k: u64) -> h::G1Affine {
    (h::G1Affine::generator() * h::Fr::from(k)).to_affine()
}

fn g2_multiple(k: u64) -> h::G2Affine {
    (h::G2Affine::generator() * h::Fr::from(k)).to_affine()
}

fn pair(p: &h::G1Affine, q: &h::G2Affine) -> EcPairingPair {
    EcPairingPair::new(g1(p), g2(q))
}

fn circuit() -> EccCircuit {
    EccCircuit {
        max_add_ops: 0,
        max_mul_ops: 0,
        max_pairing_ops: 0,
        add_ops: vec![],
        mul_ops: vec![],
        pairing_ops: vec![],
    }
}

fn pairing_accepts(pairs: Vec<EcPairingPair>, output: bool) -> bool {
    let mut ctx = Context::new();
    let weights = powers(&Fr::from_u64(256), 32);
    let op = EcPairingOp::new(pairs, output);
    let d = circuit().decompose_ec_pairing_op(&mut ctx, &weights, &op);
    assert_eq!(d.success == output, ctx.satisfied);
    ctx.satisfied
}

fn balanced() -> Vec<EcPairingPair> {
    let p1 = g1_multiple(6);
    let q1 = g2_multiple(11);
    vec![pair(&p1, &q1), pair(&-p1, &q1)]
}

fn unbalanced() -> Vec<EcPairingPair> {
    let p1 = g1_multiple(6);
    let q1 = g2_multiple(11);
    vec![pair(&p1, &q1), pair(&p1, &q1)]
}

fn hex32(s: &str) -> Vec<u8> {
    (0..32)
        .map(|i| u8::from_str_radix(&s[2 * i..2 * i + 2], 16).unwrap())
        .collect()
}

#[test]
fn pairing_of_a_balanced_set_is_one() {
    assert!(pairing_product_is_one(&balanced()));
    assert!(pairing_accepts(balanced(), true));
    assert!(!pairing_accepts(balanced(), false));
}

#[test]
fn pairing_of_an_unbalanced_set_is_not_one() {
    assert!(!pairing_product_is_one(&unbalanced()));
    assert!(pairing_accepts(unbalanced(), false));
    assert!(!pairing_accepts(unbalanced(), true));
}

#[test]
fn pairing_is_bilinear() {
    // e(2 P, 3 Q) * e(-6 P, Q) == 1
    let pairs = vec![
        pair(&g1_multiple(2), &g2_multiple(3)),
        pair(&-g1_multiple(6), &g2_multiple(1)),
    ];
    assert!(pairing_product_is_one(&pairs));
    let pairs = vec![
        pair(&g1_multiple(2), &g2_multiple(3)),
        pair(&-g1_multiple(5), &g2_multiple(1)),
    ];
    assert!(!pairing_product_is_one(&pairs));
}

#[test]
fn pairing_of_no_pairs_and_of_identities_is_one() {
    assert!(pairing_product_is_one(&vec![]));
    assert!(pairing_accepts(vec![], true));
    assert!(!pairing_accepts(vec![], false));
    let with_identities = vec![
        EcPairingPair::new(G1Affine::identity(), g2(&g2_multiple(3))),
        EcPairingPair::new(g1(&g1_multiple(3)), G2Affine::identity()),
        EcPairingPair::new(G1Affine::identity(), G2Affine::identity()),
    ];
    assert!(pairing_product_is_one(&with_identities));
    let op = EcPairingOp::default();
    assert!(op.pairs.is_empty());
    assert!(op.output);
}

#[test]
fn miller_loop_agrees_with_the_curve_library() {
    let p = g1_multiple(7);
    let q = g2_multiple(9);
    let expected = h::multi_miller_loop(&[(&p, &q)]);
    let got = multi_miller_loop(&vec![pair(&p, &q)]);
    let halves = [expected.c0(), expected.c1()];
    for a in 0..2 {
        let thirds = [halves[a].c0(), halves[a].c1(), halves[a].c2()];
        for b in 0..3 {
            assert_eq!(got.c[a][b].c0, fq(thirds[b].c0()));
            assert_eq!(got.c[a][b].c1, fq(thirds[b].c1()));
        }
    }
    assert!(!got.is_zero());
    assert_eq!(multi_miller_loop(&vec![]), Fq12::one());
}

#[test]
fn pairing_check_of_one_and_of_zero() {
    assert!(Fq12::one().pairing_check());
    assert!(Fq12::one().final_exp_is_identity());
    assert!(!Fq12::one().is_zero());
    let z = Fq2::new(Fq::zero(), Fq::zero());
    let zero = Fq12 {
        c: [[z, z, z], [z, z, z]],
    };
    assert!(zero.is_zero());
    assert!(!zero.pairing_check());
    let mut almost = zero;
    almost.c[1][2].c1 = Fq::one();
    assert!(!almost.is_zero());
    let single = multi_miller_loop(&vec![pair(&g1_multiple(2), &g2_multiple(3))]);
    assert!(!single.is_zero());
    assert!(!single.pairing_check());
}

#[test]
fn pairing_input_cells_follow_the_order_of_the_call_input() {
    let p = h::G1Affine::generator();
    let q = h::G2Affine::generator();
    let mut ctx = Context::new();
    let weights = powers(&Fr::from_u64(256), 32);
    let op = EcPairingOp::new(vec![pair(&p, &q), pair(&-p, &q)], true);
    let d = circuit().decompose_ec_pairing_op(&mut ctx, &weights, &op);
    assert!(ctx.satisfied);
    assert!(d.success);
    assert_eq!(d.input_cells.len(), 2 * 192);

    let mut expected = Vec::new();
    let words = [
        "0000000000000000000000000000000000000000000000000000000000000001",
        "0000000000000000000000000000000000000000000000000000000000000002",
        "198e9393920d483a7260bfb731fb5d25f1aa493335a9e71297e485b7aef312c2",
        "1800deef121f1e76426a00665e5c4479674322d4f75edadd46debd5cd992f6ed",
        "090689d0585ff075ec9e99ad690c3395bc4b313370b38ef355acdadcd122975b",
        "12c85ea5db8c6deb4aab71808dcb408fe3d1e7690c43d37b4ce6cc0166fa7daa",
        "0000000000000000000000000000000000000000000000000000000000000001",
        "30644e72e131a029b85045b68181585d97816a916871ca8d3c208c16d87cfd45",
        "198e9393920d483a7260bfb731fb5d25f1aa493335a9e71297e485b7aef312c2",
        "1800deef121f1e76426a00665e5c4479674322d4f75edadd46debd5cd992f6ed",
        "090689d0585ff075ec9e99ad690c3395bc4b313370b38ef355acdadcd122975b",
        "12c85ea5db8c6deb4aab71808dcb408fe3d1e7690c43d37b4ce6cc0166fa7daa",
    ];
    for w in words {
        expected.extend(hex32(w));
    }
    assert_eq!(d.input_cells, expected);
}

#[test]
fn decompose_g2_gives_the_four_coefficients() {
    let q = G2Affine::new(
        Fq2::new(Fq::from_u64(1), Fq::from_u64(2)),
        Fq2::new(Fq::from_u64(3), Fq::from_u64(0x0405)),
    );
    let cells = circuit().decompose_g2(q);
    for (k, low) in [1u8, 2, 3, 5].iter().enumerate() {
        assert_eq!(cells[k][0], *low);
        assert!(cells[k][2..].iter().all(|b| *b == 0));
    }
    assert_eq!(cells[3][1], 4);
    let mut ctx = Context::new();
    let weights = powers(&Fr::from_u64(256), 32);
    let d = circuit().assign_g2(&mut ctx, q, &weights);
    assert!(ctx.satisfied);
    assert_eq!(d.x_c0_cells, cells[0]);
    assert_eq!(d.x_c1_cells, cells[1]);
    assert_eq!(d.y_c0_cells, cells[2]);
    assert_eq!(d.y_c1_cells, cells[3]);
    assert_eq!(d.ec_point.y.coeffs[1].value, Fq::from_u64(0x0405));
}
