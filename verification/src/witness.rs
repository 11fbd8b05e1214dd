//! What the circuit holds of an operand: after the first phase its field
//! element beside its byte cells, after the second phase its random linear
//! combination.

use crate::crt::CrtInteger;
use crate::curve::G1Affine;
use crate::field::Fr;
use crate::gate::rlc;
use crate::uint::le_bytes;
use vstd::prelude::*;

verus! {

/// A point of the first group as the circuit holds it.
#[derive(Clone, Copy, Debug, PartialEq, Eq)]
pub struct EcPoint {
    /// The first coordinate.
    pub x: CrtInteger,
    /// The second coordinate.
    pub y: CrtInteger,
}

impl View for EcPoint {
    type V = (nat, nat);

    open spec fn view(&self) -> (nat, nat) {
        (self.x.value@, self.y.value@)
    }
}

impl EcPoint {
    /// Whether both coordinates carry their own limbs.
    pub open spec fn wf(&self) -> bool {
        self.x.wf() && self.y.wf()
    }

    /// The point's coordinates.
    pub fn point(&self) -> (p: G1Affine)
        ensures
            p@ == self@,
    {
        G1Affine { x: self.x.value, y: self.y.value }
    }
}

/// An element of the quadratic extension as the circuit holds it.
#[derive(Clone, Copy, Debug, PartialEq, Eq)]
pub struct FieldExtPoint {
    /// The two coefficients.
    pub coeffs: [CrtInteger; 2],
}

/// A point of the second group as the circuit holds it.
#[derive(Clone, Copy, Debug, PartialEq, Eq)]
pub struct EcPoint2 {
    /// The first coordinate.
    pub x: FieldExtPoint,
    /// The second coordinate.
    pub y: FieldExtPoint,
}

/// A point of the first group with the byte cells of its coordinates, least
/// significant byte first.
#[derive(Clone, Copy, Debug, PartialEq, Eq)]
pub struct G1Decomposed {
    /// The point as field elements.
    pub ec_point: EcPoint,
    /// The bytes of `x`.
    pub x_cells: [u8; 32],
    /// The bytes of `y`.
    pub y_cells: [u8; 32],
}

impl G1Decomposed {
    /// Whether this is the decomposition of the point `g1`.
    pub open spec fn decomposes(self, g1: (nat, nat)) -> bool {
        &&& self.ec_point.wf()
        &&& self.ec_point@ == g1
        &&& self.x_cells@ == le_bytes(g1.0)
        &&& self.y_cells@ == le_bytes(g1.1)
    }
}

/// A point of the second group with the byte cells of the four coefficients
/// of its coordinates, least significant byte first.
#[derive(Clone, Copy, Debug, PartialEq, Eq)]
pub struct G2Decomposed {
    /// The point as field elements.
    pub ec_point: EcPoint2,
    /// The bytes of the first coefficient of `x`.
    pub x_c0_cells: [u8; 32],
    /// The bytes of the second coefficient of `x`.
    pub x_c1_cells: [u8; 32],
    /// The bytes of the first coefficient of `y`.
    pub y_c0_cells: [u8; 32],
    /// The bytes of the second coefficient of `y`.
    pub y_c1_cells: [u8; 32],
}

impl G2Decomposed {
    /// Whether this is the decomposition of the point with the given
    /// coordinates.
    pub open spec fn decomposes(self, g2: ((nat, nat), (nat, nat))) -> bool {
        &&& self.ec_point.x.coeffs[0].wf() && self.ec_point.x.coeffs[0].value@ == g2.0.0
        &&& self.ec_point.x.coeffs[1].wf() && self.ec_point.x.coeffs[1].value@ == g2.0.1
        &&& self.ec_point.y.coeffs[0].wf() && self.ec_point.y.coeffs[0].value@ == g2.1.0
        &&& self.ec_point.y.coeffs[1].wf() && self.ec_point.y.coeffs[1].value@ == g2.1.1
        &&& self.x_c0_cells@ == le_bytes(g2.0.0)
        &&& self.x_c1_cells@ == le_bytes(g2.0.1)
        &&& self.y_c0_cells@ == le_bytes(g2.1.0)
        &&& self.y_c1_cells@ == le_bytes(g2.1.1)
    }
}

/// A scalar as the circuit holds it: one cell.
#[derive(Clone, Copy, Debug, PartialEq, Eq)]
pub struct ScalarAssigned {
    /// The scalar.
    pub scalar: Fr,
}

/// The operands of a point addition after the first phase.
#[derive(Clone, Copy, Debug, PartialEq, Eq)]
pub struct EcAddDecomposed {
    /// The first summand.
    pub point_p: G1Decomposed,
    /// The second summand.
    pub point_q: G1Decomposed,
    /// The claimed sum.
    pub point_r: G1Decomposed,
}

impl EcAddDecomposed {
    /// Whether this is the decomposition of the points `p`, `q` and `r`.
    pub open spec fn decomposes(self, op: ((nat, nat), (nat, nat), (nat, nat))) -> bool {
        self.point_p.decomposes(op.0) && self.point_q.decomposes(op.1) && self.point_r.decomposes(
            op.2,
        )
    }
}

/// The operands of a scalar multiplication after the first phase.
#[derive(Clone, Copy, Debug, PartialEq, Eq)]
pub struct EcMulDecomposed {
    /// The point.
    pub point_p: G1Decomposed,
    /// The scalar.
    pub scalar_s: ScalarAssigned,
    /// The claimed product.
    pub point_r: G1Decomposed,
}

impl EcMulDecomposed {
    /// Whether this is the decomposition of the point `p`, the scalar and the
    /// point `r`.
    pub open spec fn decomposes(self, op: ((nat, nat), nat, (nat, nat))) -> bool {
        self.point_p.decomposes(op.0) && self.scalar_s.scalar@ == op.1 && self.point_r.decomposes(
            op.2,
        )
    }
}

/// A pairing check after the first phase.
#[derive(Clone, Debug, PartialEq, Eq)]
pub struct EcPairingDecomposed {
    /// The byte cells of the whole input, in the order of the call's input.
    pub input_cells: Vec<u8>,
    /// The computed success bit.
    pub success: bool,
}

/// Every operation of a circuit after the first phase, one entry per slot.
#[derive(Clone, Debug, PartialEq, Eq)]
pub struct EcOpsDecomposed {
    /// The point additions.
    pub ec_adds_decomposed: Vec<EcAddDecomposed>,
    /// The scalar multiplications.
    pub ec_muls_decomposed: Vec<EcMulDecomposed>,
    /// The pairing checks.
    pub ec_pairings_decomposed: Vec<EcPairingDecomposed>,
}

/// The random linear combinations of a point's coordinates.
#[derive(Clone, Copy, Debug, PartialEq, Eq)]
pub struct G1Assigned {
    /// The combination of the bytes of `x`.
    pub x_rlc: Fr,
    /// The combination of the bytes of `y`.
    pub y_rlc: Fr,
}

impl G1Assigned {
    /// Whether these are the combinations of the cells of `d` under the
    /// challenge `c`.
    pub open spec fn combines(self, d: G1Decomposed, c: nat) -> bool {
        self.x_rlc@ == rlc(d.x_cells@, c) && self.y_rlc@ == rlc(d.y_cells@, c)
    }
}

/// Determinism of the combination: decomposed and combined twice under the
/// same challenge, the same point yields the same two cells, which are the
/// combinations of the little-endian bytes of its coordinates.
pub proof fn lemma_rlc_deterministic(
    g1: (nat, nat),
    c: nat,
    d1: G1Decomposed,
    d2: G1Decomposed,
    a1: G1Assigned,
    a2: G1Assigned,
)
    requires
        d1.decomposes(g1),
        d2.decomposes(g1),
        a1.combines(d1, c),
        a2.combines(d2, c),
    ensures
        a1.x_rlc@ == a2.x_rlc@,
        a1.y_rlc@ == a2.y_rlc@,
        a1.x_rlc@ == rlc(le_bytes(g1.0), c),
        a1.y_rlc@ == rlc(le_bytes(g1.1), c),
{
}

/// The operands of a point addition after the second phase.
#[derive(Clone, Copy, Debug, PartialEq, Eq)]
pub struct EcAddAssigned {
    /// The first summand.
    pub point_p: G1Assigned,
    /// The second summand.
    pub point_q: G1Assigned,
    /// The claimed sum.
    pub point_r: G1Assigned,
}

impl EcAddAssigned {
    /// Whether these are the combinations of the cells of `d` under the
    /// challenge `c`.
    pub open spec fn combines(self, d: EcAddDecomposed, c: nat) -> bool {
        self.point_p.combines(d.point_p, c) && self.point_q.combines(d.point_q, c)
            && self.point_r.combines(d.point_r, c)
    }
}

/// The operands of a scalar multiplication after the second phase.
#[derive(Clone, Copy, Debug, PartialEq, Eq)]
pub struct EcMulAssigned {
    /// The point.
    pub point_p: G1Assigned,
    /// The scalar.
    pub scalar_s: ScalarAssigned,
    /// The claimed product.
    pub point_r: G1Assigned,
}

impl EcMulAssigned {
    /// Whether these are the combinations of the cells of `d` under the
    /// challenge `c`, with the scalar of `d`.
    pub open spec fn combines(self, d: EcMulDecomposed, c: nat) -> bool {
        self.point_p.combines(d.point_p, c) && self.scalar_s == d.scalar_s
            && self.point_r.combines(d.point_r, c)
    }
}

/// A pairing check after the second phase.
#[derive(Clone, Copy, Debug, PartialEq, Eq)]
pub struct EcPairingAssigned {
    /// The combination of the bytes of the whole input.
    pub input_rlc: Fr,
    /// The computed success bit.
    pub success: bool,
}

impl EcPairingAssigned {
    /// Whether this is the combination of the input cells of `d`, last byte
    /// first, under the challenge `c`, with the success bit of `d`.
    pub open spec fn combines(self, d: EcPairingDecomposed, c: nat) -> bool {
        self.input_rlc@ == rlc(d.input_cells@.reverse(), c) && self.success == d.success
    }
}

/// Every operation of a circuit after the second phase, one entry per slot.
#[derive(Clone, Debug, PartialEq, Eq)]
pub struct EcOpsAssigned {
    /// The point additions.
    pub ec_adds_assigned: Vec<EcAddAssigned>,
    /// The scalar multiplications.
    pub ec_muls_assigned: Vec<EcMulAssigned>,
    /// The pairing checks.
    pub ec_pairings_assigned: Vec<EcPairingAssigned>,
}

} // verus!
