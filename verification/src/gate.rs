//! Arithmetic on cells: the running verdict of the constraint system, powers
//! of a cell value, and the inner product of byte cells with such powers.

use crate::engine::fr_modulus;
use crate::field::Fr;
use crate::uint::{
    le_sum, lemma_le_sum_bound, lemma_pow256_add, lemma_pow256_positive, lemma_pow256_values, pow256,
};
use vstd::arithmetic::div_mod::{lemma_add_mod_noop, lemma_small_mod};
use vstd::prelude::*;

verus! {

/// `c^i` in the scalar field.
pub open spec fn fr_pow(c: nat, i: nat) -> nat
    decreases i,
{
    if i == 0 {
        1
    } else {
        (c * fr_pow(c, (i - 1) as nat)) % fr_modulus()
    }
}

/// The representatives of a sequence of cells.
pub open spec fn fr_values(s: Seq<Fr>) -> Seq<nat> {
    Seq::new(s.len(), |i: int| s[i]@)
}

/// The first `n` powers of `c`, from `c^0` on.
pub open spec fn power_seq(c: nat, n: nat) -> Seq<nat> {
    Seq::new(n, |i: int| fr_pow(c, i as nat))
}

/// The sum of `a[i] * b[i]` over `i < n`, in the integers.
pub open spec fn dot(a: Seq<u8>, b: Seq<nat>, n: nat) -> nat
    decreases n,
{
    if n == 0 {
        0
    } else {
        dot(a, b, (n - 1) as nat) + (a[n - 1] as nat) * b[n - 1]
    }
}

/// The inner product of byte cells with as many leading weights, in the
/// scalar field.
pub open spec fn inner_product_spec(cells: Seq<u8>, weights: Seq<nat>) -> nat {
    dot(cells, weights, cells.len()) % fr_modulus()
}

/// The random linear combination of byte cells under the challenge `c`: the
/// sum of `cells[i] * c^i` in the scalar field.
pub open spec fn rlc(cells: Seq<u8>, c: nat) -> nat {
    inner_product_spec(cells, power_seq(c, cells.len()))
}

/// The inner product reads only the weights that have a cell.
pub proof fn lemma_dot_agree(a: Seq<u8>, b: Seq<nat>, c: Seq<nat>, n: nat)
    requires
        n <= b.len(),
        n <= c.len(),
        forall|i: int| 0 <= i < n ==> b[i] == c[i],
    ensures
        dot(a, b, n) == dot(a, c, n),
    decreases n,
{
    if n > 0 {
        lemma_dot_agree(a, b, c, (n - 1) as nat);
    }
}

/// The inner product of zero cells is zero.
pub proof fn lemma_dot_zero(cells: Seq<u8>, weights: Seq<nat>, n: nat)
    requires
        n <= cells.len(),
        forall|i: int| 0 <= i < n ==> cells[i] == 0,
    ensures
        dot(cells, weights, n) == 0,
    decreases n,
{
    if n > 0 {
        lemma_dot_zero(cells, weights, (n - 1) as nat);
        let w = weights[n - 1];
        assert(0 * w == 0);
    }
}

/// Below the 32nd, the powers of 256 in the scalar field are the powers of
/// 256 in the integers: none of them reaches the modulus.
pub proof fn lemma_fr_pow_256(i: nat)
    requires
        i < 32,
    ensures
        fr_pow(256, i) == pow256(i),
        pow256(i) < fr_modulus(),
    decreases i,
{
    lemma_pow256_add(i, (31 - i) as nat);
    lemma_pow256_positive((31 - i) as nat);
    lemma_pow256_values();
    let a = pow256(i);
    let b = pow256((31 - i) as nat);
    assert(a <= a * b) by (nonlinear_arith)
        requires
            b >= 1,
    ;
    if i > 0 {
        lemma_fr_pow_256((i - 1) as nat);
        lemma_small_mod(pow256(i), fr_modulus());
    }
}

/// Weighted by the powers of 256, the inner product of at most 31 byte cells
/// is the number that the bytes spell, least significant first.
pub proof fn lemma_dot_le_sum(cells: Seq<u8>, weights: Seq<nat>, n: nat)
    requires
        n <= cells.len(),
        n <= weights.len(),
        n < 32,
        forall|i: int| 0 <= i < n ==> weights[i] == fr_pow(256, i as nat),
    ensures
        dot(cells, weights, n) == le_sum(cells, n),
        le_sum(cells, n) < fr_modulus(),
    decreases n,
{
    lemma_le_sum_bound(cells, n);
    lemma_fr_pow_256(n);
    if n > 0 {
        lemma_dot_le_sum(cells, weights, (n - 1) as nat);
        lemma_fr_pow_256((n - 1) as nat);
    }
}

/// The running verdict of the constraint system: whether every constraint
/// laid down so far holds of the witness.
#[derive(Clone, Copy, Debug, PartialEq, Eq)]
pub struct Context {
    /// Whether every constraint so far holds.
    pub satisfied: bool,
}

impl Context {
    /// A context with no constraint yet.
    pub fn new() -> (ctx: Context)
        ensures
            ctx.satisfied,
    {
        Context { satisfied: true }
    }

    /// Lays down one constraint, which holds or does not.
    pub fn constrain(&mut self, holds: bool)
        ensures
            final(self).satisfied == (old(self).satisfied && holds),
    {
        self.satisfied = self.satisfied && holds;
    }
}

/// The first `n` powers of `base`, from `base^0` on.
pub fn powers(base: &Fr, n: usize) -> (r: Vec<Fr>)
    ensures
        r@.len() == n,
        fr_values(r@) == power_seq(base@, n as nat),
{
    let mut r: Vec<Fr> = Vec::new();
    let mut coeff = Fr::one();
    let mut i: usize = 0;
    while i < n
        invariant
            i <= n,
            r@.len() == i,
            coeff@ == fr_pow(base@, i as nat),
            forall|j: int| 0 <= j < i ==> r@[j]@ == fr_pow(base@, j as nat),
        decreases n - i,
    {
        r.push(coeff);
        coeff = base.mul(&coeff);
        i += 1;
    }
    assert(fr_values(r@) =~= power_seq(base@, n as nat));
    r
}

/// The inner product of byte cells with as many leading weights.
pub fn inner_product(cells: &[u8], weights: &[Fr]) -> (r: Fr)
    requires
        cells@.len() <= weights@.len(),
    ensures
        r@ == inner_product_spec(cells@, fr_values(weights@)),
{
    let ghost w = fr_values(weights@);
    let mut acc = Fr::zero();
    let mut i: usize = 0;
    while i < cells.len()
        invariant
            i <= cells@.len() <= weights@.len(),
            w == fr_values(weights@),
            acc@ == dot(cells@, w, i as nat) % fr_modulus(),
        decreases cells@.len() - i,
    {
        let term = Fr::from_u64(cells[i] as u64).mul(&weights[i]);
        proof {
            let d = dot(cells@, w, i as nat) as int;
            let t = ((cells@[i as int] as nat) * w[i as int]) as int;
            lemma_add_mod_noop(d, t, fr_modulus() as int);
        }
        acc = acc.add(&term);
        i += 1;
    }
    acc
}

/// The cells in the opposite order.
pub fn reversed(cells: &[u8]) -> (r: Vec<u8>)
    ensures
        r@ == cells@.reverse(),
{
    let n = cells.len();
    let mut r: Vec<u8> = Vec::new();
    let mut i: usize = 0;
    while i < n
        invariant
            i <= n,
            n == cells@.len(),
            r@.len() == i,
            forall|j: int| 0 <= j < i ==> r@[j] == cells@[n - 1 - j],
        decreases n - i,
    {
        r.push(cells[n - 1 - i]);
        i += 1;
    }
    assert(r@ =~= cells@.reverse());
    r
}

} // verus!
