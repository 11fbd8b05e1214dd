//! 256-bit numbers as four 64-bit limbs and as 32 little-endian bytes.

use vstd::arithmetic::div_mod::{
    lemma_breakdown, lemma_fundamental_div_mod_converse, lemma_small_mod,
};
use vstd::prelude::*;

verus! {

/// `256^n`.
pub open spec fn pow256(n: nat) -> nat
    decreases n,
{
    if n == 0 {
        1
    } else {
        256 * pow256((n - 1) as nat)
    }
}

/// The sum of `s[j] * 256^j` over `j < n`.
pub open spec fn le_sum(s: Seq<u8>, n: nat) -> nat
    decreases n,
{
    if n == 0 {
        0
    } else {
        le_sum(s, (n - 1) as nat) + (s[n - 1] as nat) * pow256((n - 1) as nat)
    }
}

/// The number that a byte sequence stands for, least significant byte first.
pub open spec fn le_value(s: Seq<u8>) -> nat {
    le_sum(s, s.len())
}

/// The number that four 64-bit limbs stand for, least significant limb first.
pub open spec fn limbs_value(l: [u64; 4]) -> nat {
    (l[0] as nat) + (l[1] as nat) * 0x1_0000_0000_0000_0000 + (l[2] as nat)
        * 0x1_0000_0000_0000_0000_0000_0000_0000_0000 + (l[3] as nat)
        * 0x1_0000_0000_0000_0000_0000_0000_0000_0000_0000_0000_0000_0000
}

/// The 64-bit word that the eight bytes from index `8 * k` on stand for.
pub open spec fn le_word(s: Seq<u8>, k: int) -> nat {
    (s[8 * k] as nat) + (s[8 * k + 1] as nat) * 0x100 + (s[8 * k + 2] as nat) * 0x1_0000 + (s[8
        * k + 3] as nat) * 0x100_0000 + (s[8 * k + 4] as nat) * 0x1_0000_0000 + (s[8 * k
        + 5] as nat) * 0x100_0000_0000 + (s[8 * k + 6] as nat) * 0x1_0000_0000_0000 + (s[8 * k
        + 7] as nat) * 0x100_0000_0000_0000
}

/// The powers of 256 that occur in a 32-byte number.
pub proof fn lemma_pow256_values()
    ensures
        pow256(0) == 1,
        pow256(1) == 0x100,
        pow256(2) == 0x1_0000,
        pow256(3) == 0x100_0000,
        pow256(4) == 0x1_0000_0000,
        pow256(5) == 0x100_0000_0000,
        pow256(6) == 0x1_0000_0000_0000,
        pow256(7) == 0x100_0000_0000_0000,
        pow256(8) == 0x1_0000_0000_0000_0000,
        pow256(10) == 0x1_0000_0000_0000_0000_0000,
        pow256(11) == 0x100_0000_0000_0000_0000_0000,
        pow256(16) == 0x1_0000_0000_0000_0000_0000_0000_0000_0000,
        pow256(22) == 0x1_0000_0000_0000_0000_0000_0000_0000_0000_0000_0000_0000,
        pow256(24) == 0x1_0000_0000_0000_0000_0000_0000_0000_0000_0000_0000_0000_0000,
        pow256(31)
            == 0x100_0000_0000_0000_0000_0000_0000_0000_0000_0000_0000_0000_0000_0000_0000_0000,
        pow256(32)
            == 0x1_0000_0000_0000_0000_0000_0000_0000_0000_0000_0000_0000_0000_0000_0000_0000_0000,
{
    reveal_with_fuel(pow256, 9);
    assert(pow256(8) == 0x1_0000_0000_0000_0000);
    assert(pow256(16) == pow256(8) * pow256(8)) by {
        lemma_pow256_add(8, 8);
    }
    assert(pow256(10) == pow256(8) * pow256(2)) by {
        lemma_pow256_add(8, 2);
    }
    assert(pow256(11) == pow256(8) * pow256(3)) by {
        lemma_pow256_add(8, 3);
    }
    assert(pow256(22) == pow256(11) * pow256(11)) by {
        lemma_pow256_add(11, 11);
    }
    assert(pow256(24) == pow256(16) * pow256(8)) by {
        lemma_pow256_add(16, 8);
    }
    assert(pow256(32) == pow256(16) * pow256(16)) by {
        lemma_pow256_add(16, 16);
    }
    assert(pow256(31) * 256 == pow256(32));
}

/// `256^(a + b) == 256^a * 256^b`.
pub proof fn lemma_pow256_add(a: nat, b: nat)
    ensures
        pow256(a + b) == pow256(a) * pow256(b),
    decreases b,
{
    if b == 0 {
        assert(pow256(a) * 1 == pow256(a));
    } else {
        lemma_pow256_add(a, (b - 1) as nat);
        assert(pow256(a + b) == 256 * pow256((a + b - 1) as nat));
        assert(256 * (pow256(a) * pow256((b - 1) as nat)) == pow256(a) * (256 * pow256(
            (b - 1) as nat,
        ))) by (nonlinear_arith);
    }
}

/// Every power of 256 is positive.
pub proof fn lemma_pow256_positive(n: nat)
    ensures
        pow256(n) > 0,
    decreases n,
{
    if n > 0 {
        lemma_pow256_positive((n - 1) as nat);
    }
}

/// A number of `n` bytes is below `256^n`.
pub proof fn lemma_le_sum_bound(s: Seq<u8>, n: nat)
    requires
        n <= s.len(),
    ensures
        le_sum(s, n) < pow256(n),
    decreases n,
{
    if n > 0 {
        lemma_le_sum_bound(s, (n - 1) as nat);
        let p = pow256((n - 1) as nat);
        let b = s[n - 1] as nat;
        assert(b * p <= 255 * p) by (nonlinear_arith)
            requires
                b <= 255,
        ;
    }
}

/// The sum over the first `n` bytes reads only those bytes.
pub proof fn lemma_le_sum_agree(s: Seq<u8>, t: Seq<u8>, n: nat)
    requires
        n <= s.len(),
        n <= t.len(),
        forall|j: int| 0 <= j < n ==> s[j] == t[j],
    ensures
        le_sum(s, n) == le_sum(t, n),
    decreases n,
{
    if n > 0 {
        lemma_le_sum_agree(s, t, (n - 1) as nat);
    }
}

/// A byte sequence splits at `m` into a low number and a high number:
/// its value is the low one plus `256^m` times the high one.
pub proof fn lemma_le_sum_split(s: Seq<u8>, m: nat, n: nat)
    requires
        m <= n <= s.len(),
    ensures
        le_sum(s, n) == le_sum(s, m) + pow256(m) * le_sum(s.subrange(m as int, n as int), (n - m) as nat),
    decreases n,
{
    let hi = s.subrange(m as int, n as int);
    if n == m {
        assert(le_sum(hi, 0) == 0);
        assert(pow256(m) * 0 == 0);
    } else {
        let hi1 = s.subrange(m as int, n - 1);
        lemma_le_sum_split(s, m, (n - 1) as nat);
        lemma_le_sum_agree(hi, hi1, (n - 1 - m) as nat);
        lemma_pow256_add(m, (n - 1 - m) as nat);
        let a = pow256(m);
        let r = le_sum(hi1, (n - 1 - m) as nat);
        let b = s[n - 1] as nat;
        let q = pow256((n - 1 - m) as nat);
        assert(hi[n - 1 - m] == s[n - 1]);
        assert(a * (r + b * q) == a * r + b * (a * q)) by (nonlinear_arith);
    }
}

/// The value of 32 bytes, word by word.
pub proof fn lemma_le_value_words(s: Seq<u8>)
    requires
        s.len() == 32,
    ensures
        le_value(s) == le_word(s, 0) + le_word(s, 1) * 0x1_0000_0000_0000_0000 + le_word(s, 2)
            * 0x1_0000_0000_0000_0000_0000_0000_0000_0000 + le_word(s, 3)
            * 0x1_0000_0000_0000_0000_0000_0000_0000_0000_0000_0000_0000_0000,
        forall|k: int| 0 <= k < 4 ==> #[trigger] le_word(s, k) < 0x1_0000_0000_0000_0000,
{
    lemma_pow256_values();
    reveal_with_fuel(pow256, 9);
    reveal_with_fuel(le_sum, 9);
    lemma_le_sum_split(s, 8, 32);
    let s1 = s.subrange(8, 32);
    lemma_le_sum_split(s1, 8, 24);
    let s2 = s1.subrange(8, 24);
    lemma_le_sum_split(s2, 8, 16);
    let s3 = s2.subrange(8, 16);
    assert(le_sum(s, 8) == le_word(s, 0));
    assert(le_sum(s1, 8) == le_word(s, 1));
    assert(le_sum(s2, 8) == le_word(s, 2));
    assert(le_sum(s3, 8) == le_word(s, 3));
    let w0 = le_word(s, 0);
    let w1 = le_word(s, 1);
    let w2 = le_word(s, 2);
    let w3 = le_word(s, 3);
    let b: nat = 0x1_0000_0000_0000_0000;
    assert(le_sum(s2, 16) == w2 + b * w3);
    assert(le_sum(s1, 24) == w1 + b * (w2 + b * w3));
    assert(le_sum(s, 32) == w0 + b * (w1 + b * (w2 + b * w3)));
    assert(w0 + b * (w1 + b * (w2 + b * w3)) == w0 + w1 * b + w2 * (b * b) + w3 * (b * b * b))
        by (nonlinear_arith);
    assert(b * b == 0x1_0000_0000_0000_0000_0000_0000_0000_0000);
    assert(b * b * b == 0x1_0000_0000_0000_0000_0000_0000_0000_0000_0000_0000_0000_0000);
}

/// The 32 little-endian bytes of a number below `256^32`.
pub open spec fn le_bytes(x: nat) -> Seq<u8> {
    Seq::new(32, |i: int| ((x / pow256(i as nat)) % 256) as u8)
}

/// The 32 big-endian bytes of a number below `256^32`.
pub open spec fn be_bytes(x: nat) -> Seq<u8> {
    le_bytes(x).reverse()
}

/// A number's lowest byte stands apart from 256 times the rest.
pub proof fn lemma_le_sum_head(s: Seq<u8>, n: nat)
    requires
        1 <= n <= s.len(),
    ensures
        le_sum(s, n) == (s[0] as nat) + 256 * le_sum(s.subrange(1, n as int), (n - 1) as nat),
{
    lemma_le_sum_split(s, 1, n);
    let rest = le_sum(s.subrange(1, n as int), (n - 1) as nat);
    let (p0, p1, h0) = (pow256(0), pow256(1), s[0] as nat);
    assert(p0 == 1 && p1 == 256) by {
        reveal_with_fuel(pow256, 2);
    }
    assert(h0 * p0 == h0 && p1 * rest == 256 * rest) by (nonlinear_arith)
        requires
            p0 == 1,
            p1 == 256,
    ;
    assert(le_sum(s, 0) == 0);
    assert(le_sum(s, 1) == le_sum(s, 0) + h0 * p0);
}

/// Byte `i` of a number is the number divided by `256^i`, modulo 256.
pub proof fn lemma_le_byte(s: Seq<u8>, i: nat)
    requires
        i < s.len(),
    ensures
        (le_value(s) / pow256(i)) % 256 == s[i as int] as nat,
{
    let len = s.len();
    let hi = s.subrange(i as int, len as int);
    let n = (len - i) as nat;
    lemma_le_sum_split(s, i, len);
    lemma_le_sum_bound(s, i);
    lemma_pow256_positive(i);
    let d = pow256(i) as int;
    let q = le_sum(hi, n) as int;
    assert(d * q == q * d) by (nonlinear_arith);
    lemma_fundamental_div_mod_converse(le_value(s) as int, d, q, le_sum(s, i) as int);
    lemma_le_sum_head(hi, n);
    let rest = le_sum(hi.subrange(1, n as int), (n - 1) as nat) as int;
    assert(hi[0] == s[i as int]);
    lemma_fundamental_div_mod_converse(q, 256, rest, hi[0] as int);
}

/// The 32 bytes of a number below `256^32` spell that number.
pub proof fn lemma_le_value_le_bytes(x: nat)
    requires
        x < pow256(32),
    ensures
        le_value(le_bytes(x)) == x,
{
    lemma_le_sum_le_bytes(x, 32);
    lemma_small_mod(x, pow256(32));
}

/// The first `n` bytes of a number spell its remainder modulo `256^n`.
pub proof fn lemma_le_sum_le_bytes(x: nat, n: nat)
    requires
        n <= 32,
    ensures
        le_sum(le_bytes(x), n) == x % pow256(n),
    decreases n,
{
    if n == 0 {
        assert(pow256(0) == 1);
    } else {
        let m = (n - 1) as nat;
        lemma_le_sum_le_bytes(x, m);
        lemma_pow256_positive(m);
        let d = pow256(m) as int;
        let b = le_bytes(x)[m as int] as int;
        assert(b == (x as int / d) % 256);
        assert(pow256(n) == 256 * pow256(m));
        lemma_breakdown(x as int, d, 256);
        assert(d * 256 == 256 * d) by (nonlinear_arith);
        assert(d * b == b * d) by (nonlinear_arith);
    }
}

/// 32 bytes are fixed by the number that they spell.
pub proof fn lemma_le_bytes_unique(s: Seq<u8>)
    requires
        s.len() == 32,
    ensures
        s == le_bytes(le_value(s)),
{
    let x = le_value(s);
    assert forall|i: int| 0 <= i < 32 implies s[i] == #[trigger] le_bytes(x)[i] by {
        lemma_le_byte(s, i as nat);
    }
    assert(s =~= le_bytes(x));
}

/// Reads one 64-bit limb from eight little-endian bytes.
fn word_from_le_bytes(bytes: &[u8; 32], k: usize) -> (w: u64)
    requires
        k < 4,
    ensures
        w == le_word(bytes@, k as int),
{
    let base: usize = 8 * k;
    (bytes[base] as u64) + (bytes[base + 1] as u64) * 0x100 + (bytes[base + 2] as u64) * 0x1_0000
        + (bytes[base + 3] as u64) * 0x100_0000 + (bytes[base + 4] as u64) * 0x1_0000_0000 + (
    bytes[base + 5] as u64) * 0x100_0000_0000 + (bytes[base + 6] as u64) * 0x1_0000_0000_0000 + (
    bytes[base + 7] as u64) * 0x100_0000_0000_0000
}

/// Turns 32 little-endian bytes into four 64-bit limbs that stand for the same number.
pub fn limbs_from_le_bytes(bytes: &[u8; 32]) -> (l: [u64; 4])
    ensures
        limbs_value(l) == le_value(bytes@),
{
    let l0 = word_from_le_bytes(bytes, 0);
    let l1 = word_from_le_bytes(bytes, 1);
    let l2 = word_from_le_bytes(bytes, 2);
    let l3 = word_from_le_bytes(bytes, 3);
    proof {
        lemma_le_value_words(bytes@);
    }
    [l0, l1, l2, l3]
}

/// One half of a block of 64 bytes.
pub fn half_bytes(block: &[u8; 64], k: usize) -> (r: [u8; 32])
    requires
        k < 2,
    ensures
        r@ == block@.subrange(32 * k as int, 32 * k as int + 32),
{
    let mut r = [0u8; 32];
    let mut i: usize = 0;
    while i < 32
        invariant
            i <= 32,
            k < 2,
            forall|j: int| 0 <= j < i ==> r@[j] == block@[32 * k as int + j],
        decreases 32 - i,
    {
        r[i] = block[32 * k + i];
        i += 1;
    }
    assert(r@ =~= block@.subrange(32 * k as int, 32 * k as int + 32));
    r
}

/// The number of the two low limbs and the number of the three low limbs.
pub open spec fn limbs_low(l: [u64; 4]) -> (nat, nat) {
    (
        (l[0] as nat) + (l[1] as nat) * 0x1_0000_0000_0000_0000,
        (l[0] as nat) + (l[1] as nat) * 0x1_0000_0000_0000_0000 + (l[2] as nat)
            * 0x1_0000_0000_0000_0000_0000_0000_0000_0000,
    )
}

/// The low limbs stay below the weight of the next limb.
pub proof fn lemma_limbs_low_bound(l: [u64; 4])
    ensures
        limbs_low(l).0 < 0x1_0000_0000_0000_0000_0000_0000_0000_0000,
        limbs_low(l).1 < 0x1_0000_0000_0000_0000_0000_0000_0000_0000_0000_0000_0000_0000,
        limbs_value(l) == limbs_low(l).1 + (l[3] as nat)
            * 0x1_0000_0000_0000_0000_0000_0000_0000_0000_0000_0000_0000_0000,
{
}

/// Whether the number of `a` is below the number of `b`.
pub fn limbs_lt(a: &[u64; 4], b: &[u64; 4]) -> (lt: bool)
    ensures
        lt == (limbs_value(*a) < limbs_value(*b)),
{
    proof {
        lemma_limbs_low_bound(*a);
        lemma_limbs_low_bound(*b);
    }
    if a[3] != b[3] {
        a[3] < b[3]
    } else if a[2] != b[2] {
        a[2] < b[2]
    } else if a[1] != b[1] {
        a[1] < b[1]
    } else {
        a[0] < b[0]
    }
}

/// Whether two limb arrays stand for the same number.
pub fn limbs_eq(a: &[u64; 4], b: &[u64; 4]) -> (eq: bool)
    ensures
        eq == (limbs_value(*a) == limbs_value(*b)),
        eq == (*a == *b),
{
    proof {
        lemma_limbs_low_bound(*a);
        lemma_limbs_low_bound(*b);
    }
    if a[3] != b[3] {
        false
    } else if a[2] != b[2] {
        false
    } else if a[1] != b[1] {
        false
    } else if a[0] != b[0] {
        false
    } else {
        assert(*a =~= *b);
        true
    }
}

} // verus!
