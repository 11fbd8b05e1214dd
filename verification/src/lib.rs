//! The circuit that attests to the elliptic-curve precompiles of the EVM over
//! BN254: point addition, scalar multiplication and the pairing check.
//!
//! The circuit is held here at the level of its witness. Given the claimed
//! operations, a pass computes every cell that the circuit would assign,
//! decides whether the constraints that the circuit would lay hold of those
//! cells, and fills the lookup table through which the rest of a proof system
//! refers to the operations.
//!
//! A pass has two phases. In the first, [`decompose`], every operand is
//! loaded as a field element ([`crt`]), written out as byte cells, and the
//! predicate of its operation ([`predicate`]) is laid. In the second,
//! [`phase2`], a challenge is known and the byte cells are folded into random
//! linear combinations ([`gate`]), which go into the rows of the table
//! ([`table`]). The module [`assign`] runs the whole pass over the slots of a
//! circuit ([`circuit`]).
//!
//! Field and curve arithmetic is done by `halo2curves`; every call into it is
//! made in [`engine`], and [`field`], [`curve`] and [`pairing`] put the
//! library's own types around those calls.

pub mod algebra;
pub mod assign;
pub mod circuit;
pub mod crt;
pub mod curve;
pub mod decompose;
pub mod engine;
pub mod field;
pub mod gate;
pub mod identity;
pub mod ops;
pub mod pairing;
pub mod phase2;
pub mod predicate;
pub mod table;
pub mod uint;
pub mod witness;
