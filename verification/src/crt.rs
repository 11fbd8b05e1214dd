//! Base-field elements as the circuit holds them: split into three limbs of
//! 88 bits, each limb a cell of the scalar field.

use crate::engine::{fq_modulus, fr_modulus};
use crate::field::{Fq, Fr};
use crate::gate::{fr_pow, inner_product_spec, lemma_dot_le_sum};
use crate::uint::{
    le_bytes, le_sum, le_value, lemma_le_sum_agree, lemma_le_sum_bound, lemma_le_sum_split,
    lemma_le_value_le_bytes, lemma_pow256_values, limbs_value,
};
use vstd::arithmetic::div_mod::{lemma_fundamental_div_mod_converse, lemma_small_mod};
use vstd::prelude::*;

verus! {

/// Number of limbs of a base-field element.
pub const NUM_LIMBS: usize = 3;

/// Number of bits of a limb.
pub const LIMB_BITS: usize = 88;

/// `2^88`, one more than the largest limb.
pub open spec fn limb_base() -> nat {
    0x100_0000_0000_0000_0000_0000
}

/// Limb `k` of `x`: the digit of weight `2^(88 k)` when `x` is written in
/// base `2^88`.
pub open spec fn crt_limb(x: nat, k: nat) -> nat
    decreases k,
{
    if k == 0 {
        x % limb_base()
    } else {
        crt_limb(x / limb_base(), (k - 1) as nat)
    }
}

/// The bytes that make up limb `k` of a 32-byte number: eleven bytes for
/// each of the two low limbs, ten for the high one.
pub open spec fn limb_bytes(bytes: Seq<u8>, k: int) -> Seq<u8> {
    if k == 0 {
        bytes.subrange(0, 11)
    } else if k == 1 {
        bytes.subrange(11, 22)
    } else {
        bytes.subrange(22, 32)
    }
}

/// Whether the weights begin with the first eleven powers of 256.
pub open spec fn is_powers_of_256(weights: Seq<nat>) -> bool {
    weights.len() >= 11 && forall|i: int| 0 <= i < 11 ==> weights[i] == fr_pow(256, i as nat)
}

/// A base-field element with its three limbs.
#[derive(Clone, Copy, Debug, PartialEq, Eq)]
pub struct CrtInteger {
    /// The element.
    pub value: Fq,
    /// The limbs, least significant first.
    pub limbs: [Fr; 3],
}

impl CrtInteger {
    /// Whether the limbs are those of the value.
    pub open spec fn wf(&self) -> bool {
        forall|k: int|
            0 <= k < 3 ==> (#[trigger] self.limbs[k])@ == crt_limb(self.value@, k as nat)
    }

    /// Loads an element: splits it into its limbs.
    pub fn load_private(x: &Fq) -> (c: CrtInteger)
        ensures
            c.value == *x,
            c.wf(),
    {
        let a = x.limbs();
        let l0: u128 = (a[0] as u128) + ((a[1] % 0x100_0000) as u128) * 0x1_0000_0000_0000_0000;
        let l1: u128 = ((a[1] / 0x100_0000) as u128) + ((a[2] % 0x1_0000_0000_0000) as u128)
            * 0x100_0000_0000;
        let l2: u128 = ((a[2] / 0x1_0000_0000_0000) as u128) + (a[3] as u128) * 0x1_0000;
        proof {
            lemma_limbs_split(limbs_value(a), l0 as nat, l1 as nat, l2 as nat);
        }
        CrtInteger { value: *x, limbs: [Fr::from_u128(l0), Fr::from_u128(l1), Fr::from_u128(l2)] }
    }
}

/// Three digits below `2^88` are the limbs of the number they make up.
pub proof fn lemma_limbs_split(x: nat, l0: nat, l1: nat, l2: nat)
    requires
        l0 < limb_base(),
        l1 < limb_base(),
        l2 < limb_base(),
        x == l0 + l1 * 0x100_0000_0000_0000_0000_0000 + l2
            * 0x1_0000_0000_0000_0000_0000_0000_0000_0000_0000_0000_0000,
    ensures
        crt_limb(x, 0) == l0,
        crt_limb(x, 1) == l1,
        crt_limb(x, 2) == l2,
{
    let b = limb_base() as int;
    reveal_with_fuel(crt_limb, 3);
    lemma_fundamental_div_mod_converse(x as int, b, l1 + l2 * b, l0 as int);
    lemma_fundamental_div_mod_converse(x as int / b, b, l2 as int, l1 as int);
    lemma_small_mod(l2, limb_base());
}

/// Whether the constraints that tie 32 byte cells to a base-field element
/// hold: for each limb, the inner product of its bytes with the weights is
/// the limb.
pub open spec fn crt_repr_holds(crt: CrtInteger, bytes: Seq<u8>, weights: Seq<nat>) -> bool {
    forall|k: int|
        0 <= k < 3 ==> inner_product_spec(#[trigger] limb_bytes(bytes, k), weights)
            == crt.limbs[k]@
}

/// Whether the constraints that tie an element's byte cells to its limbs
/// hold of the element `x` under the given weights.
pub open spec fn coord_crt_holds(x: nat, weights: Seq<nat>) -> bool {
    forall|k: int|
        0 <= k < 3 ==> inner_product_spec(#[trigger] limb_bytes(le_bytes(x), k), weights)
            == crt_limb(x, k as nat)
}

/// Gathered in groups of 11, 11 and 10 bytes by radix-256 weighted sums, 32
/// little-endian bytes yield exactly the three limbs of 88 bits of the
/// number that they spell.
pub proof fn lemma_byte_round_trip(bytes: Seq<u8>)
    requires
        bytes.len() == 32,
    ensures
        forall|k: int|
            0 <= k < 3 ==> le_value(#[trigger] limb_bytes(bytes, k)) == crt_limb(
                le_value(bytes),
                k as nat,
            ),
{
    lemma_pow256_values();
    let g0 = bytes.subrange(0, 11);
    let g1 = bytes.subrange(11, 22);
    let g2 = bytes.subrange(22, 32);
    let hi = bytes.subrange(11, 32);
    lemma_le_sum_split(bytes, 11, 32);
    lemma_le_sum_split(hi, 11, 21);
    assert(hi.subrange(11, 21) =~= g2);
    lemma_le_sum_agree(bytes, g0, 11);
    lemma_le_sum_agree(hi, g1, 11);
    lemma_le_sum_bound(g0, 11);
    lemma_le_sum_bound(g1, 11);
    lemma_le_sum_bound(g2, 10);
    let b = limb_base();
    let (l0, l1, l2) = (le_value(g0), le_value(g1), le_value(g2));
    assert(le_value(bytes) == l0 + b * (l1 + b * l2));
    assert(b * (l1 + b * l2) == l1 * b + l2 * (b * b)) by (nonlinear_arith);
    assert(b * b == 0x1_0000_0000_0000_0000_0000_0000_0000_0000_0000_0000_0000);
    lemma_limbs_split(le_value(bytes), l0, l1, l2);
    assert(limb_bytes(bytes, 0) == g0 && limb_bytes(bytes, 1) == g1 && limb_bytes(bytes, 2) == g2);
}

/// Byte round trip of an element: the 32 little-endian bytes of an element
/// of the base field, gathered in groups of 11, 11 and 10 bytes by radix-256
/// weighted sums, are the element's three limbs.
pub proof fn lemma_element_round_trip(x: nat)
    requires
        x < fq_modulus(),
    ensures
        forall|k: int|
            0 <= k < 3 ==> le_value(#[trigger] limb_bytes(le_bytes(x), k)) == crt_limb(
                x,
                k as nat,
            ),
{
    lemma_pow256_values();
    lemma_le_value_le_bytes(x);
    lemma_byte_round_trip(le_bytes(x));
}

/// Of an element loaded with its own limbs and written out as its own
/// bytes, the constraints of the byte representation are those of the
/// element.
pub proof fn lemma_crt_repr_of_loaded(crt: CrtInteger, weights: Seq<nat>)
    requires
        crt.wf(),
    ensures
        crt_repr_holds(crt, le_bytes(crt.value@), weights) == coord_crt_holds(
            crt.value@,
            weights,
        ),
{
    let bytes = le_bytes(crt.value@);
    if crt_repr_holds(crt, bytes, weights) {
        assert forall|k: int| 0 <= k < 3 implies inner_product_spec(
            #[trigger] limb_bytes(bytes, k),
            weights,
        ) == crt_limb(crt.value@, k as nat) by {
            assert(crt.limbs[k]@ == crt_limb(crt.value@, k as nat));
        }
    }
    if coord_crt_holds(crt.value@, weights) {
        assert forall|k: int| 0 <= k < 3 implies inner_product_spec(
            #[trigger] limb_bytes(bytes, k),
            weights,
        ) == crt.limbs[k]@ by {
            assert(crt.limbs[k]@ == crt_limb(crt.value@, k as nat));
        }
    }
}

/// With the powers of 256 as weights, the byte constraints hold of every
/// element of the base field.
pub proof fn lemma_coord_crt_holds(x: nat, weights: Seq<nat>)
    requires
        x < fq_modulus(),
        is_powers_of_256(weights),
    ensures
        coord_crt_holds(x, weights),
{
    let bytes = le_bytes(x);
    lemma_pow256_values();
    lemma_le_value_le_bytes(x);
    lemma_byte_round_trip(bytes);
    assert forall|k: int| 0 <= k < 3 implies inner_product_spec(
        #[trigger] limb_bytes(bytes, k),
        weights,
    ) == crt_limb(x, k as nat) by {
        let g = limb_bytes(bytes, k);
        lemma_dot_le_sum(g, weights, g.len());
        lemma_small_mod(le_sum(g, g.len()), fr_modulus());
    }
}

/// The constraints of the byte representation hold exactly of the bytes that
/// spell the element: with the powers of 256 as weights and the element's own
/// limbs, the three limb constraints hold if and only if the 32 bytes are
/// the element's little-endian bytes.
pub proof fn lemma_crt_repr_iff(crt: CrtInteger, bytes: Seq<u8>, weights: Seq<nat>)
    requires
        crt.wf(),
        crt.value@ < fq_modulus(),
        bytes.len() == 32,
        is_powers_of_256(weights),
    ensures
        crt_repr_holds(crt, bytes, weights) <==> le_value(bytes) == crt.value@,
{
    lemma_byte_round_trip(bytes);
    lemma_pow256_values();
    assert forall|k: int| 0 <= k < 3 implies inner_product_spec(
        #[trigger] limb_bytes(bytes, k),
        weights,
    ) == crt_limb(le_value(bytes), k as nat) by {
        let g = limb_bytes(bytes, k);
        lemma_dot_le_sum(g, weights, g.len());
        lemma_small_mod(le_sum(g, g.len()), fr_modulus());
    }
    let x = crt.value@;
    let y = le_value(bytes);
    lemma_le_sum_bound(bytes, 32);
    if crt_repr_holds(crt, bytes, weights) {
        assert(crt_limb(y, 0) == crt.limbs[0]@ && crt_limb(y, 1) == crt.limbs[1]@ && crt_limb(y, 2)
            == crt.limbs[2]@) by {
            assert(limb_bytes(bytes, 0).len() == 11);
            assert(limb_bytes(bytes, 1).len() == 11);
            assert(limb_bytes(bytes, 2).len() == 10);
        }
        lemma_limbs_join(x);
        lemma_limbs_join(y);
    }
    if y == x {
        assert(crt_repr_holds(crt, bytes, weights));
    }
}

/// A number below `2^264` is made up of its three limbs.
pub proof fn lemma_limbs_join(x: nat)
    requires
        x < 0x100_0000_0000_0000_0000_0000_0000_0000_0000_0000_0000_0000_0000_0000_0000_0000_0000,
    ensures
        x == crt_limb(x, 0) + crt_limb(x, 1) * 0x100_0000_0000_0000_0000_0000 + crt_limb(x, 2)
            * 0x1_0000_0000_0000_0000_0000_0000_0000_0000_0000_0000_0000,
{
    reveal_with_fuel(crt_limb, 3);
}

} // verus!
