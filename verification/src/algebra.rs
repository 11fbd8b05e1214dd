//! Equations in the base field, and what they show of the chord formula:
//! that it undoes itself.

use crate::curve::{chord, fq_inv, fq_mul, fq_sub, invertible, is_inverse, negate};
use crate::engine::fq_modulus;
use vstd::arithmetic::div_mod::{
    lemma_add_mod_noop, lemma_mod_multiples_vanish, lemma_mod_twice, lemma_mul_mod_noop_general,
    lemma_small_mod, lemma_sub_mod_noop,
};
use vstd::prelude::*;

verus! {

/// Whether two integers stand for the same element of the base field.
#[verifier::opaque]
pub open spec fn eqm(a: int, b: int) -> bool {
    a % (fq_modulus() as int) == b % (fq_modulus() as int)
}

/// Every integer stands for the same element as itself.
pub proof fn lemma_eqm_refl(a: int)
    ensures
        eqm(a, a),
{
    reveal(eqm);
}

/// Standing for the same element is symmetric.
pub proof fn lemma_eqm_sym(a: int, b: int)
    requires
        eqm(a, b),
    ensures
        eqm(b, a),
{
    reveal(eqm);
}

/// Standing for the same element is transitive.
pub proof fn lemma_eqm_trans(a: int, b: int, c: int)
    requires
        eqm(a, b),
        eqm(b, c),
    ensures
        eqm(a, c),
{
    reveal(eqm);
}

/// Sums of equal elements are equal.
pub proof fn lemma_eqm_add(a: int, b: int, c: int, d: int)
    requires
        eqm(a, b),
        eqm(c, d),
    ensures
        eqm(a + c, b + d),
{
    reveal(eqm);
    let m = fq_modulus() as int;
    lemma_add_mod_noop(a, c, m);
    lemma_add_mod_noop(b, d, m);
}

/// Differences of equal elements are equal.
pub proof fn lemma_eqm_sub(a: int, b: int, c: int, d: int)
    requires
        eqm(a, b),
        eqm(c, d),
    ensures
        eqm(a - c, b - d),
{
    reveal(eqm);
    let m = fq_modulus() as int;
    lemma_sub_mod_noop(a, c, m);
    lemma_sub_mod_noop(b, d, m);
}

/// Products of equal elements are equal.
pub proof fn lemma_eqm_mul(a: int, b: int, c: int, d: int)
    requires
        eqm(a, b),
        eqm(c, d),
    ensures
        eqm(a * c, b * d),
{
    reveal(eqm);
    let m = fq_modulus() as int;
    lemma_mul_mod_noop_general(a, c, m);
    lemma_mul_mod_noop_general(b, d, m);
}

/// Two representatives of the same element are the same number.
pub proof fn lemma_eqm_small(a: int, b: int)
    requires
        eqm(a, b),
        0 <= a < fq_modulus(),
        0 <= b < fq_modulus(),
    ensures
        a == b,
{
    reveal(eqm);
    lemma_small_mod(a as nat, fq_modulus());
    lemma_small_mod(b as nat, fq_modulus());
}

/// The field's difference stands for the integers' difference.
pub proof fn lemma_fq_sub_eqm(a: nat, b: nat)
    requires
        a < fq_modulus(),
        b < fq_modulus(),
    ensures
        eqm(fq_sub(a, b) as int, a - b),
        fq_sub(a, b) < fq_modulus(),
{
    reveal(eqm);
    let m = fq_modulus() as int;
    lemma_mod_multiples_vanish(1, a - b, m);
    lemma_mod_twice(a + m - b, m);
}

/// The field's product stands for the integers' product.
pub proof fn lemma_fq_mul_eqm(a: nat, b: nat)
    ensures
        eqm(fq_mul(a, b) as int, (a * b) as int),
        fq_mul(a, b) < fq_modulus(),
{
    reveal(eqm);
    lemma_mod_twice((a * b) as int, fq_modulus() as int);
}

/// What the chord formula computes, as equations in the base field: a slope
/// `l` with `l * (q.x - p.x) == q.y - p.y`, and the point
/// `(l^2 - p.x - q.x, l * (p.x - x3) - p.y)`.
pub proof fn lemma_chord_equations(p: (nat, nat), q: (nat, nat)) -> (l: int)
    requires
        p.0 < fq_modulus(),
        p.1 < fq_modulus(),
        q.0 < fq_modulus(),
        q.1 < fq_modulus(),
        invertible(fq_sub(q.0, p.0)),
    ensures
        eqm(l * (q.0 - p.0), q.1 - p.1),
        eqm(chord(p, q).0 as int, l * l - p.0 - q.0),
        eqm(chord(p, q).1 as int, l * (p.0 - chord(p, q).0) - p.1),
        chord(p, q).0 < fq_modulus(),
        chord(p, q).1 < fq_modulus(),
{
    let (x1, y1, x2, y2) = (p.0 as int, p.1 as int, q.0 as int, q.1 as int);
    let dx = fq_sub(q.0, p.0) as int;
    let dy = fq_sub(q.1, p.1) as int;
    let i = fq_inv(dx as nat) as int;
    let l = fq_mul(dy as nat, i as nat) as int;
    lemma_fq_sub_eqm(q.0, p.0);
    lemma_fq_sub_eqm(q.1, p.1);
    lemma_fq_mul_eqm(dy as nat, i as nat);
    assert(eqm(dx * i, 1)) by {
        assert(is_inverse(dx as nat, i as nat));
        reveal(eqm);
        lemma_small_mod(1, fq_modulus());
    }
    // l * dx == dy * i * dx == dy
    lemma_eqm_refl(dx);
    lemma_eqm_refl(dy);
    lemma_eqm_refl(l);
    lemma_eqm_mul(l, dy * i, dx, dx);
    assert((dy * i) * dx == dy * (dx * i)) by (nonlinear_arith);
    lemma_eqm_mul(dy, dy, dx * i, 1);
    assert(dy * 1 == dy);
    lemma_eqm_trans(l * dx, dy * (dx * i), dy);
    lemma_eqm_trans(l * dx, dy, y2 - y1);
    lemma_eqm_mul(l, l, dx, x2 - x1);
    lemma_eqm_sym(l * dx, l * (x2 - x1));
    lemma_eqm_trans(l * (x2 - x1), l * dx, y2 - y1);
    // x3 == l^2 - x1 - x2
    let m1 = fq_mul(l as nat, l as nat) as int;
    let s1 = fq_sub(m1 as nat, p.0) as int;
    let x3 = fq_sub(s1 as nat, q.0) as int;
    lemma_fq_mul_eqm(l as nat, l as nat);
    lemma_fq_sub_eqm(m1 as nat, p.0);
    lemma_fq_sub_eqm(s1 as nat, q.0);
    lemma_eqm_refl(x1);
    lemma_eqm_refl(x2);
    lemma_eqm_sub(m1, l * l, x1, x1);
    lemma_eqm_trans(s1, m1 - x1, l * l - x1);
    lemma_eqm_sub(s1, l * l - x1, x2, x2);
    lemma_eqm_trans(x3, s1 - x2, l * l - x1 - x2);
    // y3 == l * (x1 - x3) - y1
    let t = fq_sub(p.0, x3 as nat) as int;
    let m2 = fq_mul(l as nat, t as nat) as int;
    let y3 = fq_sub(m2 as nat, p.1) as int;
    lemma_fq_sub_eqm(p.0, x3 as nat);
    lemma_fq_mul_eqm(l as nat, t as nat);
    lemma_fq_sub_eqm(m2 as nat, p.1);
    lemma_eqm_mul(l, l, t, x1 - x3);
    lemma_eqm_trans(m2, l * t, l * (x1 - x3));
    lemma_eqm_refl(y1);
    lemma_eqm_sub(m2, l * (x1 - x3), y1, y1);
    lemma_eqm_trans(y3, m2 - y1, l * (x1 - x3) - y1);
    assert(chord(p, q) == (x3 as nat, y3 as nat));
    l
}

/// If a line of slope `l` through `a` and `b` meets the opposite of `s`, the
/// line through `s` and the opposite of `b` has slope `-l`.
proof fn lemma_cancel_slope(
    l: int,
    k: int,
    ax: int,
    ay: int,
    bx: int,
    by: int,
    sx: int,
    sy: int,
    nby: int,
    d: int,
    i: int,
)
    requires
        eqm(l * (bx - ax), by - ay),
        eqm(sy, l * (ax - sx) - ay),
        eqm(k * (bx - sx), nby - sy),
        eqm(nby, 0 - by),
        eqm(d, bx - sx),
        eqm(d * i, 1),
    ensures
        eqm(k, -l),
{
    let dd = bx - sx;
    lemma_eqm_refl(ay);
    lemma_eqm_refl(sy);
    lemma_eqm_refl(0);
    lemma_eqm_refl(k);
    lemma_eqm_refl(-l);
    lemma_eqm_refl(i);
    // b.y + s.y == l * (b.x - s.x)
    lemma_eqm_add(sy, l * (ax - sx) - ay, ay, ay);
    lemma_eqm_sym(l * (bx - ax), by - ay);
    lemma_eqm_add(by - ay, l * (bx - ax), sy + ay, l * (ax - sx) - ay + ay);
    assert(l * (bx - ax) + (l * (ax - sx) - ay + ay) == l * dd) by (nonlinear_arith)
        requires
            dd == bx - sx,
    ;
    assert((by - ay) + (sy + ay) == by + sy);
    // k * (b.x - s.x) == -(b.y + s.y) == -l * (b.x - s.x)
    lemma_eqm_sub(nby, 0 - by, sy, sy);
    lemma_eqm_trans(k * dd, nby - sy, 0 - by - sy);
    lemma_eqm_sub(0, 0, by + sy, l * dd);
    assert(0 - (by + sy) == 0 - by - sy);
    assert(0 - l * dd == (-l) * dd) by (nonlinear_arith);
    lemma_eqm_trans(k * dd, 0 - by - sy, (-l) * dd);
    // the differences cancel
    lemma_eqm_mul(d, dd, i, i);
    lemma_eqm_sym(d * i, dd * i);
    lemma_eqm_trans(dd * i, d * i, 1);
    lemma_eqm_mul(k * dd, (-l) * dd, i, i);
    assert((k * dd) * i == k * (dd * i)) by (nonlinear_arith);
    assert(((-l) * dd) * i == (-l) * (dd * i)) by (nonlinear_arith);
    lemma_eqm_mul(k, k, dd * i, 1);
    lemma_eqm_mul(-l, -l, dd * i, 1);
    assert(k * 1 == k && (-l) * 1 == -l);
    lemma_eqm_sym(k * (dd * i), k);
    lemma_eqm_trans(k, k * (dd * i), (-l) * (dd * i));
    lemma_eqm_trans(k, (-l) * (dd * i), -l);
}

/// With slope `-l` on the way back, the chord through `s` and the opposite
/// of `b` ends at `a`.
proof fn lemma_cancel_point(
    l: int,
    k: int,
    ax: int,
    ay: int,
    bx: int,
    sx: int,
    sy: int,
    rx: int,
    ry: int,
)
    requires
        eqm(k, -l),
        eqm(sx, l * l - ax - bx),
        eqm(sy, l * (ax - sx) - ay),
        eqm(rx, k * k - sx - bx),
        eqm(ry, k * (sx - rx) - sy),
        0 <= ax < fq_modulus(),
        0 <= ay < fq_modulus(),
        0 <= rx < fq_modulus(),
        0 <= ry < fq_modulus(),
    ensures
        rx == ax,
        ry == ay,
{
    lemma_eqm_refl(bx);
    lemma_eqm_refl(sx - ax);
    // back at a.x
    lemma_eqm_mul(k, -l, k, -l);
    assert((-l) * (-l) == l * l) by (nonlinear_arith);
    lemma_eqm_sub(k * k, l * l, sx, l * l - ax - bx);
    lemma_eqm_sub(k * k - sx, l * l - (l * l - ax - bx), bx, bx);
    assert(l * l - (l * l - ax - bx) - bx == ax);
    lemma_eqm_trans(rx, k * k - sx - bx, ax);
    lemma_eqm_small(rx, ax);
    // back at a.y
    lemma_eqm_mul(k, -l, sx - ax, sx - ax);
    assert((-l) * (sx - ax) == l * (ax - sx)) by (nonlinear_arith);
    lemma_eqm_sub(k * (sx - ax), l * (ax - sx), sy, l * (ax - sx) - ay);
    assert(l * (ax - sx) - (l * (ax - sx) - ay) == ay);
    lemma_eqm_trans(ry, k * (sx - rx) - sy, ay);
    lemma_eqm_small(ry, ay);
}

/// The chord formula undoes itself: the chord sum of `a` and `b`, chord
/// summed with the opposite of `b`, is `a` again, wherever the two chord
/// gadgets apply.
pub proof fn lemma_chord_cancel(a: (nat, nat), b: (nat, nat))
    requires
        a.0 < fq_modulus(),
        a.1 < fq_modulus(),
        b.0 < fq_modulus(),
        b.1 < fq_modulus(),
        invertible(fq_sub(b.0, a.0)),
        invertible(fq_sub(b.0, chord(a, b).0)),
    ensures
        chord(chord(a, b), negate(b)) == a,
{
    let l = lemma_chord_equations(a, b);
    let s = chord(a, b);
    let nb = negate(b);
    lemma_fq_sub_eqm(0, b.1);
    let k = lemma_chord_equations(s, nb);
    let r = chord(s, nb);
    let d = fq_sub(b.0, s.0);
    let i = fq_inv(d);
    lemma_fq_sub_eqm(b.0, s.0);
    assert(eqm(d as int * i as int, 1)) by {
        assert(is_inverse(d, i));
        reveal(eqm);
        lemma_small_mod(1, fq_modulus());
    }
    lemma_cancel_slope(
        l,
        k,
        a.0 as int,
        a.1 as int,
        b.0 as int,
        b.1 as int,
        s.0 as int,
        s.1 as int,
        nb.1 as int,
        d as int,
        i as int,
    );
    lemma_cancel_point(
        l,
        k,
        a.0 as int,
        a.1 as int,
        b.0 as int,
        s.0 as int,
        s.1 as int,
        r.0 as int,
        r.1 as int,
    );
}

} // verus!
