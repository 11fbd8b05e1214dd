//! The operations that the circuit attests to: the inputs and the claimed
//! output of one call of a curve precompile.

use crate::curve::{G1Affine, G2Affine};
use crate::field::Fr;
use vstd::prelude::*;

verus! {

/// Number of input bytes that one pair of a pairing call takes up.
pub const N_BYTES_PER_PAIR: usize = 192;

/// The curve precompiles, each known by its address.
#[derive(Clone, Copy, Debug, PartialEq, Eq)]
pub enum PrecompileCalls {
    /// Point addition.
    Bn128Add,
    /// Scalar multiplication.
    Bn128Mul,
    /// Pairing check.
    Bn128Pairing,
}

impl PrecompileCalls {
    /// The tag that marks the precompile's rows in the lookup table.
    pub open spec fn tag(self) -> nat {
        match self {
            PrecompileCalls::Bn128Add => 6,
            PrecompileCalls::Bn128Mul => 7,
            PrecompileCalls::Bn128Pairing => 8,
        }
    }

    /// The tag that marks the precompile's rows in the lookup table: its
    /// address.
    pub fn as_u64(self) -> (t: u64)
        ensures
            t == self.tag(),
    {
        match self {
            PrecompileCalls::Bn128Add => 6,
            PrecompileCalls::Bn128Mul => 7,
            PrecompileCalls::Bn128Pairing => 8,
        }
    }
}

/// A claimed point addition `p + q == r`.
#[derive(Clone, Copy, Debug, PartialEq, Eq)]
pub struct EcAddOp {
    /// The first summand.
    pub p: G1Affine,
    /// The second summand.
    pub q: G1Affine,
    /// The claimed sum.
    pub r: G1Affine,
}

impl View for EcAddOp {
    type V = ((nat, nat), (nat, nat), (nat, nat));

    /// The coordinates of `p`, `q` and `r`.
    open spec fn view(&self) -> ((nat, nat), (nat, nat), (nat, nat)) {
        (self.p@, self.q@, self.r@)
    }
}

impl EcAddOp {
    /// Whether all three points are `(0, 0)`, as in a padding slot.
    pub open spec fn is_padding(self) -> bool {
        self.p@ == (0nat, 0nat) && self.q@ == (0nat, 0nat) && self.r@ == (0nat, 0nat)
    }

    /// The claim `p + q == r`.
    pub fn new(p: G1Affine, q: G1Affine, r: G1Affine) -> (op: EcAddOp)
        ensures
            op.p == p,
            op.q == q,
            op.r == r,
    {
        EcAddOp { p, q, r }
    }
}

impl Default for EcAddOp {
    /// The operation of a padding slot: the identity plus the identity is the
    /// identity.
    fn default() -> (op: EcAddOp)
        ensures
            op.is_padding(),
    {
        EcAddOp { p: G1Affine::identity(), q: G1Affine::identity(), r: G1Affine::identity() }
    }
}

/// A claimed scalar multiplication `s * p == r`.
#[derive(Clone, Copy, Debug, PartialEq, Eq)]
pub struct EcMulOp {
    /// The point.
    pub p: G1Affine,
    /// The scalar.
    pub s: Fr,
    /// The claimed product.
    pub r: G1Affine,
}

impl View for EcMulOp {
    type V = ((nat, nat), nat, (nat, nat));

    /// The coordinates of `p`, the scalar, and the coordinates of `r`.
    open spec fn view(&self) -> ((nat, nat), nat, (nat, nat)) {
        (self.p@, self.s@, self.r@)
    }
}

impl EcMulOp {
    /// Whether the point, the scalar and the product are all zero, as in a
    /// padding slot.
    pub open spec fn is_padding(self) -> bool {
        self.p@ == (0nat, 0nat) && self.s@ == 0 && self.r@ == (0nat, 0nat)
    }

    /// The claim `s * p == r`.
    pub fn new(p: G1Affine, s: Fr, r: G1Affine) -> (op: EcMulOp)
        ensures
            op.p == p,
            op.s == s,
            op.r == r,
    {
        EcMulOp { p, s, r }
    }
}

impl Default for EcMulOp {
    /// The operation of a padding slot: zero times the identity is the
    /// identity.
    fn default() -> (op: EcMulOp)
        ensures
            op.is_padding(),
    {
        EcMulOp { p: G1Affine::identity(), s: Fr::zero(), r: G1Affine::identity() }
    }
}

/// One pair of a pairing check.
#[derive(Clone, Copy, Debug, PartialEq, Eq)]
pub struct EcPairingPair {
    /// The point of the first group.
    pub g1_point: G1Affine,
    /// The point of the second group.
    pub g2_point: G2Affine,
}

impl EcPairingPair {
    /// The pair of two points.
    pub fn new(g1_point: G1Affine, g2_point: G2Affine) -> (pair: EcPairingPair)
        ensures
            pair.g1_point == g1_point,
            pair.g2_point == g2_point,
    {
        EcPairingPair { g1_point, g2_point }
    }
}

/// A claimed pairing check: `output` says whether the product of the
/// pairings of all pairs is the target group's identity.
#[derive(Clone, Debug, PartialEq, Eq)]
pub struct EcPairingOp {
    /// The pairs, in the order of the call's input.
    pub pairs: Vec<EcPairingPair>,
    /// The claimed outcome.
    pub output: bool,
}

impl View for EcPairingOp {
    type V = (Seq<EcPairingPair>, bool);

    /// The pairs and the claimed outcome.
    open spec fn view(&self) -> (Seq<EcPairingPair>, bool) {
        (self.pairs@, self.output)
    }
}

impl EcPairingOp {
    /// Whether there is no pair and the claim is success, as in a padding
    /// slot.
    pub open spec fn is_padding(self) -> bool {
        self.pairs@.len() == 0 && self.output
    }

    /// The claim that the pairs' product is the identity, or that it is not.
    pub fn new(pairs: Vec<EcPairingPair>, output: bool) -> (op: EcPairingOp)
        ensures
            op.pairs == pairs,
            op.output == output,
    {
        EcPairingOp { pairs, output }
    }
}

impl Default for EcPairingOp {
    /// The operation of a padding slot: the empty product is the identity.
    fn default() -> (op: EcPairingOp)
        ensures
            op.is_padding(),
    {
        EcPairingOp { pairs: Vec::new(), output: true }
    }
}

} // verus!
