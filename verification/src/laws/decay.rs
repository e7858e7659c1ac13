//! What holds of the pot's decay, for every pot, every number of drips and
//! every horizon.

use crate::fixed;
use crate::fixed::FP;
use vstd::prelude::*;

verus! {

/// `x` to the power `e`, over the naturals.
pub open spec fn npow(x: nat, e: nat) -> nat
    decreases e,
{
    if e == 0 {
        1
    } else {
        x * npow(x, (e - 1) as nat)
    }
}

/// Powers of the square: `(x * x)^k == x^(2 * k)`.
proof fn lemma_npow_square(x: nat, k: nat)
    ensures
        npow(x * x, k) == npow(x, 2 * k),
    decreases k,
{
    if k > 0 {
        lemma_npow_square(x, (k - 1) as nat);
        let y = npow(x, (2 * k - 2) as nat);
        assert(npow(x, (2 * k - 1) as nat) == x * y);
        assert(npow(x, 2 * k) == x * (x * y));
        assert((x * x) * y == x * (x * y)) by (nonlinear_arith);
    }
}

/// The fixed-point product grows with its factors.
proof fn lemma_fp_product_monotone(a: nat, b: nat, c: nat, d: nat)
    requires
        a <= c,
        b <= d,
    ensures
        fixed::fp_product(a, b) <= fixed::fp_product(c, d),
{
    assert(a * b <= c * d) by (nonlinear_arith)
        requires
            a <= c,
            b <= d,
    ;
    fixed::lemma_ceil_div(c * d, FP as nat);
    fixed::lemma_ceil_div_least(a * b, FP as nat, fixed::fp_product(c, d));
}

/// The power grows with its base and with what it is accumulated onto.
proof fn lemma_square_multiply_monotone(
    acc: nat,
    larger_acc: nat,
    base: nat,
    larger_base: nat,
    e: nat,
)
    requires
        acc <= larger_acc,
        base <= larger_base,
    ensures
        fixed::square_multiply(acc, base, e) <= fixed::square_multiply(larger_acc, larger_base, e),
    decreases e,
{
    if e > 0 {
        let sq = fixed::fp_product(base, base);
        let larger_sq = fixed::fp_product(larger_base, larger_base);
        lemma_fp_product_monotone(base, base, larger_base, larger_base);
        if e % 2 == 1 {
            lemma_fp_product_monotone(acc, base, larger_acc, larger_base);
            lemma_square_multiply_monotone(
                fixed::fp_product(acc, base),
                fixed::fp_product(larger_acc, larger_base),
                sq,
                larger_sq,
                e / 2,
            );
        } else {
            lemma_square_multiply_monotone(acc, larger_acc, sq, larger_sq, e / 2);
        }
    }
}

/// One is neutral.
proof fn lemma_fp_one(b: nat)
    ensures
        fixed::fp_product(FP as nat, b) == b,
{
    fixed::lemma_ceil_div((FP as nat) * b, FP as nat);
}

/// A carry through the low bits of the exponent does not raise the power: one
/// more factor `base` weighs at least as much as what `x` stands for.
proof fn lemma_carry(x: nat, base: nat, k: nat)
    requires
        base <= x <= FP,
    ensures
        fixed::square_multiply(FP as nat, base, k + 1) <= fixed::square_multiply(x, base, k),
    decreases k,
{
    let sq = fixed::fp_product(base, base);
    lemma_fp_one(base);
    if k % 2 == 0 {
        assert((k + 1) / 2 == k / 2);
        lemma_square_multiply_monotone(base, x, sq, sq, k / 2);
        if k == 0 {
            assert(fixed::square_multiply(base, sq, 0) == base);
        }
    } else {
        assert((k + 1) / 2 == k / 2 + 1);
        let y = fixed::fp_product(x, base);
        fixed::lemma_fp_product_bound(x, base);
        lemma_fp_product_monotone(base, base, x, base);
        lemma_carry(y, sq, k / 2);
    }
}

/// One more drip never raises the decay power.
proof fn lemma_power_steps_down(base: nat, e: nat)
    requires
        base <= FP,
    ensures
        fixed::square_multiply(FP as nat, base, e + 1) <= fixed::square_multiply(
            FP as nat,
            base,
            e,
        ),
{
    lemma_carry(FP as nat, base, e);
}

/// The decay power is monotone: more drips never leave a larger power.
pub proof fn law_power_is_monotone_in_drips(fewer: nat, more: nat, p: nat)
    requires
        fewer <= more,
        p > 0,
    ensures
        fixed::decay_power(more, p) <= fixed::decay_power(fewer, p),
    decreases more - fewer,
{
    if fewer < more {
        fixed::lemma_decay_base_bound(p);
        lemma_power_steps_down(fixed::decay_base(p), (more - 1) as nat);
        law_power_is_monotone_in_drips(fewer, (more - 1) as nat, p);
    }
}

/// The pot is monotone non-increasing in the number of drips: waiting longer
/// never leaves more in it.
pub proof fn law_pot_is_monotone_in_drips(b: nat, fewer: nat, more: nat, periods: nat)
    requires
        fewer <= more,
    ensures
        fixed::decayed_pot(b, more, periods) <= fixed::decayed_pot(b, fewer, periods),
{
    if b != 0 && more != 0 {
        if fewer == 0 {
            fixed::lemma_decayed_pot_bound(b, more, periods);
        } else {
            let p = fixed::horizon(periods);
            law_power_is_monotone_in_drips(fewer, more, p);
            let (x, y) = (fixed::decay_power(more, p), fixed::decay_power(fewer, p));
            assert(b * x <= b * y) by (nonlinear_arith)
                requires
                    x <= y,
            ;
            fixed::lemma_ceil_div(b * y, FP as nat);
            fixed::lemma_ceil_div_least(b * x, FP as nat, fixed::ceil_div(b * y, FP as nat));
        }
    }
}

/// A larger pot stays at least as large through the same drips.
pub proof fn law_pot_is_monotone_in_size(smaller: nat, larger: nat, e: nat, periods: nat)
    requires
        smaller <= larger,
    ensures
        fixed::decayed_pot(smaller, e, periods) <= fixed::decayed_pot(larger, e, periods),
{
    if smaller != 0 && e != 0 {
        let pow = fixed::decay_power(e, fixed::horizon(periods));
        assert(smaller * pow <= larger * pow) by (nonlinear_arith)
            requires
                smaller <= larger,
        ;
        fixed::lemma_ceil_div(larger * pow, FP as nat);
        fixed::lemma_ceil_div_least(
            smaller * pow,
            FP as nat,
            fixed::ceil_div(larger * pow, FP as nat),
        );
    }
}

/// A larger pot releases at least as much through the same drips.
pub proof fn law_release_is_monotone_in_size(smaller: nat, larger: nat, e: nat, periods: nat)
    requires
        smaller <= larger,
    ensures
        smaller - fixed::decayed_pot(smaller, e, periods) <= larger - fixed::decayed_pot(
            larger,
            e,
            periods,
        ),
{
    fixed::lemma_decayed_pot_bound(larger, e, periods);
    if smaller != 0 && e != 0 {
        let p = fixed::horizon(periods);
        let pow = fixed::decay_power(e, p);
        let one = FP as nat;
        let stays = fixed::decayed_pot(smaller, e, periods);
        let extra = (larger - smaller) as nat;
        fixed::lemma_decay_power_bound(e, p);
        fixed::lemma_ceil_div(smaller * pow, one);
        assert(larger * pow == smaller * pow + extra * pow) by (nonlinear_arith)
            requires
                larger == smaller + extra,
        ;
        assert(extra * pow <= extra * one) by (nonlinear_arith)
            requires
                pow <= one,
        ;
        assert((stays + extra) * one == stays * one + extra * one) by (nonlinear_arith);
        fixed::lemma_ceil_div_least(larger * pow, one, stays + extra);
    }
}

/// A longer horizon has a larger decay base.
proof fn lemma_decay_base_monotone(shorter: nat, longer: nat)
    requires
        0 < shorter <= longer,
    ensures
        fixed::decay_base(shorter) <= fixed::decay_base(longer),
{
    let one = FP as nat;
    let (q, r) = ((shorter - 1) as nat, (longer - 1) as nat);
    let base = fixed::decay_base(longer);
    assert(q * one == (shorter - 1) * FP && r * one == (longer - 1) * FP);
    fixed::lemma_decay_base_bound(longer);
    fixed::lemma_ceil_div(r * one, longer);
    // What the base falls short of one is at most one part in the horizon.
    assert((one - base) * longer == one * longer - base * longer) by (nonlinear_arith);
    assert(one * longer == r * one + one) by (nonlinear_arith)
        requires
            r == longer - 1,
    ;
    assert((one - base) * shorter <= (one - base) * longer) by (nonlinear_arith)
        requires
            base <= one,
            shorter <= longer,
    ;
    assert((one - base) * shorter == one * shorter - base * shorter) by (nonlinear_arith);
    assert(one * shorter == q * one + one) by (nonlinear_arith)
        requires
            q == shorter - 1,
    ;
    fixed::lemma_ceil_div_least(q * one, shorter, base);
}

/// The decay power is monotone in the horizon: over a longer one, the same
/// drips leave at least as large a power.
pub proof fn law_power_is_monotone_in_horizon(e: nat, shorter: nat, longer: nat)
    requires
        0 < shorter <= longer,
    ensures
        fixed::decay_power(e, shorter) <= fixed::decay_power(e, longer),
{
    lemma_decay_base_monotone(shorter, longer);
    lemma_square_multiply_monotone(
        FP as nat,
        FP as nat,
        fixed::decay_base(shorter),
        fixed::decay_base(longer),
        e,
    );
}

/// A shorter horizon weakens the forfeit: over it, the same drips leave no more
/// in the pot, so that what was forfeited is given back sooner.
pub proof fn law_shorter_horizon_weakens_the_forfeit(b: nat, e: nat, shorter: nat, longer: nat)
    requires
        shorter <= longer,
    ensures
        fixed::decayed_pot(b, e, shorter) <= fixed::decayed_pot(b, e, longer),
{
    if b != 0 && e != 0 {
        let (p, q) = (fixed::horizon(shorter), fixed::horizon(longer));
        law_power_is_monotone_in_horizon(e, p, q);
        let (x, y) = (fixed::decay_power(e, p), fixed::decay_power(e, q));
        assert(b * x <= b * y) by (nonlinear_arith)
            requires
                x <= y,
        ;
        fixed::lemma_ceil_div(b * y, FP as nat);
        fixed::lemma_ceil_div_least(b * x, FP as nat, fixed::ceil_div(b * y, FP as nat));
    }
}

/// If `a >= x * FP / xd` and `b >= y * FP / yd`, their fixed-point product is
/// at least the ideal one.
proof fn lemma_fp_product_lower(a: nat, b: nat, x: nat, xd: nat, y: nat, yd: nat)
    requires
        a * xd >= x * FP,
        b * yd >= y * FP,
    ensures
        fixed::fp_product(a, b) * (xd * yd) >= (x * y) * FP,
{
    let q = fixed::fp_product(a, b);
    fixed::lemma_ceil_div(a * b, FP as nat);
    assert((a * xd) * (b * yd) >= (x * FP) * (y * FP)) by (nonlinear_arith)
        requires
            a * xd >= x * FP,
            b * yd >= y * FP,
    ;
    assert((q * FP) * (xd * yd) >= (a * b) * (xd * yd)) by (nonlinear_arith)
        requires
            q * FP >= a * b,
    ;
    assert((a * b) * (xd * yd) == (a * xd) * (b * yd)) by (nonlinear_arith);
    assert((x * FP) * (y * FP) == ((x * y) * FP) * FP) by (nonlinear_arith);
    assert((q * FP) * (xd * yd) == (q * (xd * yd)) * FP) by (nonlinear_arith);
}

/// The power keeps at or above the ideal power, whatever ratios the factors
/// keep at or above.
proof fn lemma_square_multiply_lower(
    acc: nat,
    base: nat,
    e: nat,
    x: nat,
    xd: nat,
    y: nat,
    yd: nat,
)
    requires
        acc * xd >= x * FP,
        base * yd >= y * FP,
    ensures
        fixed::square_multiply(acc, base, e) * (xd * npow(yd, e)) >= (x * npow(y, e)) * FP,
    decreases e,
{
    let r = fixed::square_multiply(acc, base, e);
    if e == 0 {
        assert(xd * 1 == xd && x * 1 == x);
    } else {
        let k = e / 2;
        let sq = fixed::fp_product(base, base);
        lemma_fp_product_lower(base, base, y, yd, y, yd);
        lemma_npow_square(y, k);
        lemma_npow_square(yd, k);
        if e % 2 == 1 {
            lemma_fp_product_lower(acc, base, x, xd, y, yd);
            lemma_square_multiply_lower(
                fixed::fp_product(acc, base),
                sq,
                k,
                x * y,
                xd * yd,
                y * y,
                yd * yd,
            );
            let (u, v) = (npow(y, 2 * k), npow(yd, 2 * k));
            assert((x * y) * u == x * (y * u)) by (nonlinear_arith);
            assert((xd * yd) * v == xd * (yd * v)) by (nonlinear_arith);
        } else {
            lemma_square_multiply_lower(acc, sq, k, x, xd, y * y, yd * yd);
        }
    }
}

/// The decay power is at or above its ideal: with `p` the horizon,
/// `power / FP >= ((p - 1) / p)^e`.
pub proof fn law_power_is_rounded_up(e: nat, p: nat)
    requires
        p > 0,
    ensures
        fixed::decay_power(e, p) * npow(p, e) >= npow((p - 1) as nat, e) * FP,
{
    let q = (p - 1) as nat;
    assert(q * FP == (p - 1) * FP);
    fixed::lemma_ceil_div(q * (FP as nat), p);
    lemma_square_multiply_lower(FP as nat, fixed::decay_base(p), e, 1, 1, q, p);
    assert(1 * npow(p, e) == npow(p, e) && 1 * npow(q, e) == npow(q, e));
}

/// The release is rounded down: what stays in the pot is at least
/// `b * ((p - 1) / p)^e`, with `p` the horizon.
pub proof fn law_release_is_rounded_down(b: nat, e: nat, periods: nat)
    ensures
        ({
            let p = fixed::horizon(periods);
            fixed::decayed_pot(b, e, periods) * npow(p, e) >= b * npow((p - 1) as nat, e)
        }),
{
    let p = fixed::horizon(periods);
    let (u, v) = (npow(p, e), npow((p - 1) as nat, e));
    if b == 0 {
        assert(0 * v == 0);
    } else if e == 0 {
    } else {
        let pow = fixed::decay_power(e, p);
        let r = fixed::decayed_pot(b, e, periods);
        law_power_is_rounded_up(e, p);
        fixed::lemma_ceil_div(b * pow, FP as nat);
        assert((r * FP) * u >= (b * pow) * u) by (nonlinear_arith)
            requires
                r * FP >= b * pow,
        ;
        assert(b * (pow * u) >= b * (v * FP)) by (nonlinear_arith)
            requires
                pow * u >= v * FP,
        ;
        assert((b * pow) * u == b * (pow * u)) by (nonlinear_arith);
        assert(b * (v * FP) == (b * v) * FP) by (nonlinear_arith);
        assert((r * FP) * u == (r * u) * FP) by (nonlinear_arith);
    }
}

/// If `a` and `b` exceed their ratios by at most `i` and `j` units, their
/// fixed-point product exceeds the ideal one by at most `i + j + 1` units.
proof fn lemma_fp_product_upper(
    a: nat,
    b: nat,
    x: nat,
    xd: nat,
    i: nat,
    y: nat,
    yd: nat,
    j: nat,
)
    requires
        a * xd <= x * FP + i * xd,
        b * yd <= y * FP + j * yd,
        x <= xd,
        b <= FP,
    ensures
        fixed::fp_product(a, b) * (xd * yd) <= (x * y) * FP + (i + j + 1) * (xd * yd),
{
    let q = fixed::fp_product(a, b);
    let d = xd * yd;
    let one = FP as nat;
    fixed::lemma_ceil_div(a * b, one);
    assert((q * one) * d <= (a * b + one) * d) by (nonlinear_arith)
        requires
            q * one <= a * b + one,
    ;
    assert((a * b + one) * d == (a * xd) * (b * yd) + one * d) by (nonlinear_arith)
        requires
            d == xd * yd,
    ;
    assert((a * xd) * (b * yd) <= (x * one + i * xd) * (b * yd)) by (nonlinear_arith)
        requires
            a * xd <= x * one + i * xd,
    ;
    assert((x * one + i * xd) * (b * yd) == (x * one) * (b * yd) + b * (i * d))
        by (nonlinear_arith)
        requires
            d == xd * yd,
    ;
    assert((x * one) * (b * yd) <= (x * one) * (y * one + j * yd)) by (nonlinear_arith)
        requires
            b * yd <= y * one + j * yd,
    ;
    assert(b * (i * d) <= one * (i * d)) by (nonlinear_arith)
        requires
            b <= one,
    ;
    assert((x * one) * (y * one + j * yd) == ((x * y) * one) * one + (j * (x * yd)) * one)
        by (nonlinear_arith);
    assert(j * (x * yd) <= j * d) by (nonlinear_arith)
        requires
            x <= xd,
            d == xd * yd,
    ;
    assert((j * (x * yd)) * one <= (j * d) * one) by (nonlinear_arith)
        requires
            j * (x * yd) <= j * d,
    ;
    let top = (x * y) * one + (i + j + 1) * d;
    assert(((x * y) * one) * one + (j * d) * one + one * (i * d) + one * d == top * one)
        by (nonlinear_arith)
        requires
            top == (x * y) * one + (i + j + 1) * d,
    ;
    assert((q * one) * d == (q * d) * one) by (nonlinear_arith);
    assert((q * d) * one <= top * one);
}

/// Every product of the power adds at most the units of its factors and one
/// more.
proof fn lemma_square_multiply_upper(
    acc: nat,
    base: nat,
    e: nat,
    x: nat,
    xd: nat,
    i: nat,
    y: nat,
    yd: nat,
    j: nat,
)
    requires
        acc * xd <= x * FP + i * xd,
        base * yd <= y * FP + j * yd,
        x <= xd,
        y <= yd,
        base <= FP,
    ensures
        fixed::square_multiply(acc, base, e) * (xd * npow(yd, e)) <= (x * npow(y, e)) * FP + (i + (j
            + 1) * e) * (xd * npow(yd, e)),
    decreases e,
{
    if e == 0 {
        assert(xd * 1 == xd && x * 1 == x && (j + 1) * 0 == 0);
    } else {
        let k = e / 2;
        let sq = fixed::fp_product(base, base);
        fixed::lemma_fp_product_bound(base, base);
        lemma_fp_product_upper(base, base, y, yd, j, y, yd, j);
        lemma_npow_square(y, k);
        lemma_npow_square(yd, k);
        assert(y * y <= yd * yd) by (nonlinear_arith)
            requires
                y <= yd,
        ;
        let jj = j + j + 1;
        if e % 2 == 1 {
            lemma_fp_product_upper(acc, base, x, xd, i, y, yd, j);
            assert(x * y <= xd * yd) by (nonlinear_arith)
                requires
                    x <= xd,
                    y <= yd,
            ;
            lemma_square_multiply_upper(
                fixed::fp_product(acc, base),
                sq,
                k,
                x * y,
                xd * yd,
                i + j + 1,
                y * y,
                yd * yd,
                jj,
            );
            let (u, v) = (npow(y, 2 * k), npow(yd, 2 * k));
            assert((x * y) * u == x * (y * u)) by (nonlinear_arith);
            assert((xd * yd) * v == xd * (yd * v)) by (nonlinear_arith);
            assert(i + j + 1 + (jj + 1) * k == i + (j + 1) * e) by (nonlinear_arith)
                requires
                    jj == j + j + 1,
                    e == 2 * k + 1,
            ;
        } else {
            lemma_square_multiply_upper(acc, sq, k, x, xd, i, y * y, yd * yd, jj);
            assert((jj + 1) * k == (j + 1) * e) by (nonlinear_arith)
                requires
                    jj == j + j + 1,
                    e == 2 * k,
            ;
        }
    }
}

/// The decay power is accurate: it exceeds `((p - 1) / p)^e` by at most two
/// units of the scale per drip.
pub proof fn law_power_is_accurate(e: nat, p: nat)
    requires
        p > 0,
    ensures
        fixed::decay_power(e, p) * npow(p, e) <= npow((p - 1) as nat, e) * FP + (2 * e) * npow(
            p,
            e,
        ),
{
    let q = (p - 1) as nat;
    assert(q * FP == (p - 1) * FP);
    fixed::lemma_ceil_div(q * (FP as nat), p);
    fixed::lemma_decay_base_bound(p);
    lemma_square_multiply_upper(FP as nat, fixed::decay_base(p), e, 1, 1, 0, q, p, 1);
    assert(1 * npow(p, e) == npow(p, e) && 1 * npow(q, e) == npow(q, e));
}

/// The pot is accurate: what stays in it exceeds `b * ((p - 1) / p)^e`, with
/// `p` the horizon, by at most one unit and `2 * e * b / FP`.
pub proof fn law_pot_is_accurate(b: nat, e: nat, periods: nat)
    ensures
        ({
            let p = fixed::horizon(periods);
            (fixed::decayed_pot(b, e, periods) * npow(p, e)) * FP <= (b * npow(
                (p - 1) as nat,
                e,
            )) * FP + (2 * e * b + FP) * npow(p, e)
        }),
{
    let p = fixed::horizon(periods);
    let (u, v) = (npow(p, e), npow((p - 1) as nat, e));
    let one = FP as nat;
    if b == 0 {
        assert(0 * u == 0 && 0 * v == 0);
        assert((2 * e * b + one) * u >= 0) by (nonlinear_arith);
    } else if e == 0 {
    } else {
        let pow = fixed::decay_power(e, p);
        let r = fixed::decayed_pot(b, e, periods);
        law_power_is_accurate(e, p);
        fixed::lemma_ceil_div(b * pow, one);
        assert((r * one) * u <= (b * pow + one) * u) by (nonlinear_arith)
            requires
                r * one <= b * pow + one,
        ;
        assert((b * pow + one) * u == b * (pow * u) + one * u) by (nonlinear_arith);
        assert(b * (pow * u) <= b * (v * one + (2 * e) * u)) by (nonlinear_arith)
            requires
                pow * u <= v * one + (2 * e) * u,
        ;
        assert(b * (v * one + (2 * e) * u) + one * u == (b * v) * one + (2 * e * b + one) * u)
            by (nonlinear_arith);
        assert((r * one) * u == (r * u) * one) by (nonlinear_arith);
    }
}

/// One drip over a horizon of `p` drips leaves `b * (p - 1) / p`, rounded up,
/// and at most one unit of dust more for every scale that the pot holds or
/// begins; so for pots up to the scale, at most one unit.
pub proof fn law_one_drip_releases_one_part(b: nat, p: nat)
    requires
        p > 0,
    ensures
        fixed::ceil_div((b * (p - 1)) as nat, p) <= fixed::decayed_pot(b, 1, p),
        fixed::decayed_pot(b, 1, p) <= fixed::ceil_div((b * (p - 1)) as nat, p) + fixed::ceil_div(
            b,
            FP as nat,
        ),
        b <= FP ==> fixed::decayed_pot(b, 1, p) <= fixed::ceil_div((b * (p - 1)) as nat, p) + 1,
{
    let q = (p - 1) as nat;
    let one = FP as nat;
    let c = fixed::ceil_div(b * q, p);
    assert(b * q == b * (p - 1));
    assert(npow(p, 0) == 1 && npow(q, 0) == 1);
    assert(npow(p, 1) == p * 1 && npow(q, 1) == q * 1);
    law_release_is_rounded_down(b, 1, p);
    fixed::lemma_ceil_div_least(b * q, p, fixed::decayed_pot(b, 1, p));
    if b > 0 {
        let base = fixed::decay_base(p);
        let sq = fixed::fp_product(base, base);
        let dust = fixed::ceil_div(b, one);
        lemma_fp_one(base);
        assert(fixed::square_multiply(base, sq, 0) == base);
        assert(fixed::decay_power(1, p) == base);
        assert(q * FP == (p - 1) * FP);
        fixed::lemma_ceil_div(q * one, p);
        fixed::lemma_ceil_div(b * q, p);
        fixed::lemma_ceil_div(b, one);
        assert(b * (base * p) <= b * (q * one + q)) by (nonlinear_arith)
            requires
                base * p <= q * one + q,
        ;
        assert(b * (q * one + q) == (b * q) * one + b * q) by (nonlinear_arith);
        assert(b * q <= (dust * one) * p) by (nonlinear_arith)
            requires
                b <= dust * one,
                q <= p,
        ;
        assert((c * p) * one >= (b * q) * one) by (nonlinear_arith)
            requires
                c * p >= b * q,
        ;
        assert(((c + dust) * one) * p == (c * p) * one + (dust * one) * p) by (nonlinear_arith);
        assert((b * base) * p == b * (base * p)) by (nonlinear_arith);
        assert((c + dust) * one >= b * base) by (nonlinear_arith)
            requires
                ((c + dust) * one) * p >= (b * base) * p,
                p > 0,
        ;
        fixed::lemma_ceil_div_least(b * base, one, c + dust);
        if b <= FP {
            fixed::lemma_ceil_div_least(b, one, 1);
        }
    } else {
        fixed::lemma_ceil_div(0, one);
    }
}

/// Powers of positive factors stay positive.
proof fn lemma_square_multiply_positive(acc: nat, base: nat, e: nat)
    requires
        acc > 0,
        base > 0,
    ensures
        fixed::square_multiply(acc, base, e) > 0,
    decreases e,
{
    if e > 0 {
        lemma_fp_product_positive(acc, base);
        lemma_fp_product_positive(base, base);
        let acc2 = if e % 2 == 1 {
            fixed::fp_product(acc, base)
        } else {
            acc
        };
        lemma_square_multiply_positive(acc2, fixed::fp_product(base, base), e / 2);
    }
}

/// Positive factors have a positive product.
proof fn lemma_fp_product_positive(a: nat, b: nat)
    requires
        a > 0,
        b > 0,
    ensures
        fixed::fp_product(a, b) > 0,
{
    assert(a * b > 0) by (nonlinear_arith)
        requires
            a > 0,
            b > 0,
    ;
    fixed::lemma_ceil_div(a * b, FP as nat);
}

/// Over a horizon of two drips or more the pot never empties: however many
/// drips pass, a unit of dust stays.
pub proof fn law_dust_stays(b: nat, e: nat, periods: nat)
    requires
        b > 0,
        periods >= 2,
    ensures
        fixed::decayed_pot(b, e, periods) >= 1,
{
    if e > 0 {
        let q = (periods - 1) as nat;
        assert(q * FP == (periods - 1) * FP);
        assert(q * FP > 0) by (nonlinear_arith)
            requires
                q > 0,
        ;
        fixed::lemma_ceil_div(q * (FP as nat), periods);
        lemma_square_multiply_positive(FP as nat, fixed::decay_base(periods), e);
        let pow = fixed::decay_power(e, periods);
        assert(b * pow > 0) by (nonlinear_arith)
            requires
                b > 0,
                pow > 0,
        ;
        fixed::lemma_ceil_div(b * pow, FP as nat);
    }
}

/// A zero base leaves nothing, once a factor is taken.
proof fn lemma_square_multiply_zero(acc: nat, e: nat)
    requires
        e > 0 || acc == 0,
    ensures
        fixed::square_multiply(acc, 0, e) == 0,
    decreases e,
{
    if e > 0 {
        assert(fixed::fp_product(acc, 0) == 0 && fixed::fp_product(0, 0) == 0) by {
            assert(acc * 0 == 0);
        }
        let acc2 = if e % 2 == 1 {
            0
        } else {
            acc
        };
        lemma_square_multiply_zero(acc2, e / 2);
    }
}

/// Over a horizon of one drip, or of none, the first drip empties the pot.
pub proof fn law_shortest_horizon_empties(b: nat, e: nat, periods: nat)
    requires
        periods <= 1,
        e > 0,
    ensures
        fixed::decayed_pot(b, e, periods) == 0,
{
    assert(fixed::decay_base(1) == 0);
    lemma_square_multiply_zero(FP as nat, e);
    if b > 0 {
        assert(b * 0 == 0);
    }
}

/// Long silence is safe: the power takes no more rounds than its exponent has
/// bits.
pub proof fn law_rounds_count_the_bits(e: nat, bits: nat)
    requires
        e < npow(2, bits),
    ensures
        fixed::rounds(e) <= bits,
    decreases bits,
{
    if e > 0 {
        assert(bits > 0) by {
            assert(npow(2, 0) == 1);
        }
        law_rounds_count_the_bits(e / 2, (bits - 1) as nat);
    }
}

/// However many drips are due, the power takes at most 64 rounds.
pub proof fn law_silence_is_cheap(e: u64)
    ensures
        fixed::rounds(e as nat) <= 64,
{
    assert(npow(2, 64) == u64::MAX + 1) by {
        reveal_with_fuel(npow, 65);
    }
    law_rounds_count_the_bits(e as nat, 64);
}

} // verus!
