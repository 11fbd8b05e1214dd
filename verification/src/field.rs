//! The two prime fields of BN254: the base field `Fq`, in which curve
//! coordinates live, and the scalar field `Fr`, which is also the field of the
//! circuit's cells.
//!
//! An element is held as four 64-bit limbs of its canonical representative.
//! The arithmetic itself is done by `halo2curves`.

use crate::engine::{
    fq_canonical_bytes, fq_invert_bytes, fq_modulus, fq_mul_bytes, fq_sub_bytes, fr_add_bytes,
    fr_canonical_bytes, fr_modulus, fr_mul_bytes, sub_mod,
};
use crate::uint::{le_value, limbs_eq, limbs_from_le_bytes, limbs_lt, limbs_value};
use vstd::prelude::*;

verus! {

/// The base field's modulus as limbs.
fn fq_modulus_limbs() -> (l: [u64; 4])
    ensures
        limbs_value(l) == fq_modulus(),
{
    [0x3c208c16d87cfd47, 0x97816a916871ca8d, 0xb85045b68181585d, 0x30644e72e131a029]
}

/// The scalar field's modulus as limbs.
fn fr_modulus_limbs() -> (l: [u64; 4])
    ensures
        limbs_value(l) == fr_modulus(),
{
    [0x43e1f593f0000001, 0x2833e84879b97091, 0xb85045b68181585d, 0x30644e72e131a029]
}

/// An element of the base field.
#[derive(Clone, Copy, Debug, PartialEq, Eq)]
pub struct Fq {
    limbs: [u64; 4],
}

impl View for Fq {
    type V = nat;

    /// The canonical representative.
    closed spec fn view(&self) -> nat {
        limbs_value(self.limbs)
    }
}

impl Fq {
    /// Every element is held by its canonical representative.
    #[verifier::type_invariant]
    pub closed spec fn canonical(self) -> bool {
        limbs_value(self.limbs) < fq_modulus()
    }

    /// A canonical representative is below the modulus.
    pub proof fn lemma_in_range(self)
        requires
            self.canonical(),
        ensures
            self@ < fq_modulus(),
    {
    }

    /// Zero.
    pub fn zero() -> (r: Fq)
        ensures
            r@ == 0,
    {
        Fq { limbs: [0, 0, 0, 0] }
    }

    /// One.
    pub fn one() -> (r: Fq)
        ensures
            r@ == 1,
    {
        Fq { limbs: [1, 0, 0, 0] }
    }

    /// The element that a 64-bit number stands for.
    pub fn from_u64(v: u64) -> (r: Fq)
        ensures
            r@ == v,
    {
        Fq { limbs: [v, 0, 0, 0] }
    }

    /// The element that a 256-bit number stands for, reduced by the modulus.
    pub fn from_raw(limbs: [u64; 4]) -> (r: Fq)
        ensures
            r@ == limbs_value(limbs) % fq_modulus(),
    {
        let bytes = fq_canonical_bytes(&limbs);
        Fq { limbs: limbs_from_le_bytes(&bytes) }
    }

    /// The element whose canonical representative the bytes spell, least
    /// significant byte first; nothing where they spell a number that is not
    /// below the modulus.
    pub fn from_bytes(bytes: &[u8; 32]) -> (r: Option<Fq>)
        ensures
            r is Some <==> le_value(bytes@) < fq_modulus(),
            r matches Some(x) ==> x@ == le_value(bytes@),
    {
        let limbs = limbs_from_le_bytes(bytes);
        let modulus = fq_modulus_limbs();
        if limbs_lt(&limbs, &modulus) {
            Some(Fq { limbs })
        } else {
            None
        }
    }

    /// The element whose canonical representative the bytes spell.
    pub fn from_canonical_bytes(bytes: &[u8; 32]) -> (r: Fq)
        requires
            le_value(bytes@) < fq_modulus(),
        ensures
            r@ == le_value(bytes@),
    {
        Fq { limbs: limbs_from_le_bytes(bytes) }
    }

    /// The canonical representative as 32 bytes, least significant first.
    pub fn to_bytes(&self) -> (r: [u8; 32])
        ensures
            le_value(r@) == self@,
            self@ < fq_modulus(),
    {
        proof {
            use_type_invariant(self);
        }
        fq_canonical_bytes(&self.limbs)
    }

    /// The canonical representative as limbs, least significant first.
    pub fn limbs(&self) -> (l: [u64; 4])
        ensures
            limbs_value(l) == self@,
            self@ < fq_modulus(),
    {
        proof {
            use_type_invariant(self);
        }
        self.limbs
    }

    /// Whether this is zero.
    pub fn is_zero(&self) -> (z: bool)
        ensures
            z == (self@ == 0),
    {
        self.limbs[0] == 0 && self.limbs[1] == 0 && self.limbs[2] == 0 && self.limbs[3] == 0
    }

    /// Whether two elements are the same.
    pub fn equals(&self, other: &Fq) -> (e: bool)
        ensures
            e == (self@ == other@),
    {
        limbs_eq(&self.limbs, &other.limbs)
    }

    /// The difference in the field.
    pub fn sub(&self, rhs: &Fq) -> (r: Fq)
        ensures
            r@ == sub_mod(self@, rhs@, fq_modulus()),
    {
        proof {
            use_type_invariant(self);
            use_type_invariant(rhs);
        }
        let bytes = fq_sub_bytes(&self.limbs, &rhs.limbs);
        Fq { limbs: limbs_from_le_bytes(&bytes) }
    }

    /// The product in the field.
    pub fn mul(&self, rhs: &Fq) -> (r: Fq)
        ensures
            r@ == (self@ * rhs@) % fq_modulus(),
    {
        proof {
            use_type_invariant(self);
            use_type_invariant(rhs);
        }
        let bytes = fq_mul_bytes(&self.limbs, &rhs.limbs);
        Fq { limbs: limbs_from_le_bytes(&bytes) }
    }

    /// The multiplicative inverse; nothing for zero.
    pub fn invert(&self) -> (r: Option<Fq>)
        ensures
            r is None <==> self@ == 0,
            r matches Some(inv) ==> inv@ < fq_modulus() && (self@ * inv@) % fq_modulus() == 1,
    {
        proof {
            use_type_invariant(self);
        }
        match fq_invert_bytes(&self.limbs) {
            Some(bytes) => Some(Fq { limbs: limbs_from_le_bytes(&bytes) }),
            None => None,
        }
    }
}

/// An element of the scalar field, which is the field of the circuit's cells.
#[derive(Clone, Copy, Debug, PartialEq, Eq)]
pub struct Fr {
    limbs: [u64; 4],
}

impl View for Fr {
    type V = nat;

    /// The canonical representative.
    closed spec fn view(&self) -> nat {
        limbs_value(self.limbs)
    }
}

impl Fr {
    /// Every element is held by its canonical representative.
    #[verifier::type_invariant]
    pub closed spec fn canonical(self) -> bool {
        limbs_value(self.limbs) < fr_modulus()
    }

    /// A canonical representative is below the modulus.
    pub proof fn lemma_in_range(self)
        requires
            self.canonical(),
        ensures
            self@ < fr_modulus(),
    {
    }

    /// Zero.
    pub fn zero() -> (r: Fr)
        ensures
            r@ == 0,
    {
        Fr { limbs: [0, 0, 0, 0] }
    }

    /// One.
    pub fn one() -> (r: Fr)
        ensures
            r@ == 1,
    {
        Fr { limbs: [1, 0, 0, 0] }
    }

    /// The element that a 64-bit number stands for.
    pub fn from_u64(v: u64) -> (r: Fr)
        ensures
            r@ == v,
    {
        Fr { limbs: [v, 0, 0, 0] }
    }

    /// The element that a 128-bit number stands for.
    pub fn from_u128(v: u128) -> (r: Fr)
        ensures
            r@ == v,
    {
        let lo: u64 = (v % 0x1_0000_0000_0000_0000) as u64;
        let hi: u64 = (v / 0x1_0000_0000_0000_0000) as u64;
        Fr { limbs: [lo, hi, 0, 0] }
    }

    /// The element that a 256-bit number stands for, reduced by the modulus.
    pub fn from_raw(limbs: [u64; 4]) -> (r: Fr)
        ensures
            r@ == limbs_value(limbs) % fr_modulus(),
    {
        let bytes = fr_canonical_bytes(&limbs);
        Fr { limbs: limbs_from_le_bytes(&bytes) }
    }

    /// The element whose canonical representative the bytes spell, least
    /// significant byte first; nothing where they spell a number that is not
    /// below the modulus.
    pub fn from_bytes(bytes: &[u8; 32]) -> (r: Option<Fr>)
        ensures
            r is Some <==> le_value(bytes@) < fr_modulus(),
            r matches Some(x) ==> x@ == le_value(bytes@),
    {
        let limbs = limbs_from_le_bytes(bytes);
        let modulus = fr_modulus_limbs();
        if limbs_lt(&limbs, &modulus) {
            Some(Fr { limbs })
        } else {
            None
        }
    }

    /// The canonical representative as 32 bytes, least significant first.
    pub fn to_bytes(&self) -> (r: [u8; 32])
        ensures
            le_value(r@) == self@,
            self@ < fr_modulus(),
    {
        proof {
            use_type_invariant(self);
        }
        fr_canonical_bytes(&self.limbs)
    }

    /// The canonical representative as limbs, least significant first.
    pub fn limbs(&self) -> (l: [u64; 4])
        ensures
            limbs_value(l) == self@,
            self@ < fr_modulus(),
    {
        proof {
            use_type_invariant(self);
        }
        self.limbs
    }

    /// Whether this is zero.
    pub fn is_zero(&self) -> (z: bool)
        ensures
            z == (self@ == 0),
    {
        self.limbs[0] == 0 && self.limbs[1] == 0 && self.limbs[2] == 0 && self.limbs[3] == 0
    }

    /// Whether two elements are the same.
    pub fn equals(&self, other: &Fr) -> (e: bool)
        ensures
            e == (self@ == other@),
    {
        limbs_eq(&self.limbs, &other.limbs)
    }

    /// The sum in the field.
    pub fn add(&self, rhs: &Fr) -> (r: Fr)
        ensures
            r@ == (self@ + rhs@) % fr_modulus(),
    {
        proof {
            use_type_invariant(self);
            use_type_invariant(rhs);
        }
        let bytes = fr_add_bytes(&self.limbs, &rhs.limbs);
        Fr { limbs: limbs_from_le_bytes(&bytes) }
    }

    /// The product in the field.
    pub fn mul(&self, rhs: &Fr) -> (r: Fr)
        ensures
            r@ == (self@ * rhs@) % fr_modulus(),
    {
        proof {
            use_type_invariant(self);
            use_type_invariant(rhs);
        }
        let bytes = fr_mul_bytes(&self.limbs, &rhs.limbs);
        Fr { limbs: limbs_from_le_bytes(&bytes) }
    }
}

} // verus!
