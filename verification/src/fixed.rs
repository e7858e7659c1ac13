//! Rounded quotients and the fixed-point decay of the pot.

use crate::error::VaultError;
use crate::wide;
use vstd::prelude::*;

verus! {

/// Fixed-point scale for the decay power: 2^64 stands for one.
pub const FP: u128 = 0x1_0000_0000_0000_0000;

/// `n / d`, rounded down. Meant for `d > 0`.
pub open spec fn floor_div(n: nat, d: nat) -> nat {
    n / d
}

/// `n / d`, rounded up. Meant for `d > 0`.
pub open spec fn ceil_div(n: nat, d: nat) -> nat {
    ((n + d - 1) / (d as int)) as nat
}

/// The product of two fixed-point factors, rounded up.
pub open spec fn fp_product(a: nat, b: nat) -> nat {
    ceil_div(a * b, FP as nat)
}

/// `(p - 1) / p` in fixed point, rounded up. Meant for `p > 0`.
pub open spec fn decay_base(p: nat) -> nat {
    ceil_div(((p - 1) * FP) as nat, p)
}

/// `acc` times `base` to the power `e`, the bits of `e` taken from the lowest
/// up, every product rounded up.
pub open spec fn square_multiply(acc: nat, base: nat, e: nat) -> nat
    decreases e,
{
    if e == 0 {
        acc
    } else {
        square_multiply(
            if e % 2 == 1 {
                fp_product(acc, base)
            } else {
                acc
            },
            fp_product(base, base),
            e / 2,
        )
    }
}

/// The rounds that the power `e` takes: one for every bit of `e`.
pub open spec fn rounds(e: nat) -> nat
    decreases e,
{
    if e == 0 {
        0
    } else {
        1 + rounds(e / 2)
    }
}

/// `((p - 1) / p)^e` in fixed point, every step rounded up. Meant for `p > 0`.
pub open spec fn decay_power(e: nat, p: nat) -> nat {
    square_multiply(FP as nat, decay_base(p), e)
}

/// `n`, or one where `n` is zero.
pub open spec fn at_least_one(n: nat) -> nat {
    if n == 0 {
        1
    } else {
        n
    }
}

/// The horizon that counts: zero drips are taken for one.
pub open spec fn horizon(periods: nat) -> nat {
    at_least_one(periods)
}

/// The pot `b` after `e` drips over a horizon of `periods` drips.
pub open spec fn decayed_pot(b: nat, e: nat, periods: nat) -> nat {
    if b == 0 || e == 0 {
        b
    } else {
        ceil_div(b * decay_power(e, horizon(periods)), FP as nat)
    }
}

/// The 128-bit outcome of a quotient: a zero divisor and a quotient beyond 128
/// bits are errors.
pub open spec fn checked_quotient(d: nat, q: nat) -> Result<u128, VaultError> {
    if d == 0 {
        Err(VaultError::DivisionByZero)
    } else if q > u128::MAX {
        Err(VaultError::MuldivOverflow)
    } else {
        Ok(q as u128)
    }
}

/// `ceil_div(n, d)` is the least `q` with `q * d >= n`.
pub proof fn lemma_ceil_div(n: nat, d: nat)
    requires
        d > 0,
    ensures
        ceil_div(n, d) * d >= n,
        ceil_div(n, d) * d < n + d,
{
    let m = n + d - 1;
    vstd::arithmetic::div_mod::lemma_fundamental_div_mod(m, d as int);
    vstd::arithmetic::div_mod::lemma_mod_bound(m, d as int);
    vstd::arithmetic::div_mod::lemma_div_pos_is_pos(m, d as int);
    assert(d * (m / (d as int)) == (m / (d as int)) * d) by (nonlinear_arith);
}

/// Whatever reaches `n` in steps of `d` takes at least `ceil_div(n, d)` steps.
pub proof fn lemma_ceil_div_least(n: nat, d: nat, q: nat)
    requires
        d > 0,
        q * d >= n,
    ensures
        ceil_div(n, d) <= q,
{
    lemma_ceil_div(n, d);
    let c = ceil_div(n, d);
    assert(c <= q) by (nonlinear_arith)
        requires
            c * d < n + d,
            q * d >= n,
            d > 0,
    ;
}

/// The quotient of a product by `d`, rounded up, where 128 bits hold it.
fn ceil_quotient(a: u128, b: u128, d: u128) -> (r: Option<u128>)
    requires
        d != 0,
    ensures
        r == (if ceil_div((a * b) as nat, d as nat) <= u128::MAX {
            Some(ceil_div((a * b) as nat, d as nat) as u128)
        } else {
            None
        }),
{
    proof {
        wide::lemma_product_fits(a, b);
        let m = wide::modulus();
        vstd::arithmetic::div_mod::lemma_small_mod((a * b) as nat, m);
        vstd::arithmetic::div_mod::lemma_small_mod((a * b + d) as nat, m);
        vstd::arithmetic::div_mod::lemma_small_mod((a * b + d - 1) as nat, m);
    }
    let wide_d = wide::from_u128(d);
    let one = wide::from_u128(1);
    let n = wide::product(wide::from_u128(a), wide::from_u128(b));
    wide::to_u128(wide::quotient(wide::difference(wide::sum(n, wide_d), one), wide_d))
}

/// `a * b / d`, rounded down.
pub fn muldiv_floor(a: u128, b: u128, d: u128) -> (r: Result<u128, VaultError>)
    ensures
        r == checked_quotient(d as nat, floor_div((a * b) as nat, d as nat)),
{
    if d == 0 {
        return Err(VaultError::DivisionByZero);
    }
    proof {
        wide::lemma_product_fits(a, b);
        vstd::arithmetic::div_mod::lemma_small_mod((a * b) as nat, wide::modulus());
    }
    let n = wide::product(wide::from_u128(a), wide::from_u128(b));
    match wide::to_u128(wide::quotient(n, wide::from_u128(d))) {
        Some(q) => Ok(q),
        None => Err(VaultError::MuldivOverflow),
    }
}

/// `a * b / d`, rounded up.
pub fn muldiv_ceil(a: u128, b: u128, d: u128) -> (r: Result<u128, VaultError>)
    ensures
        r == checked_quotient(d as nat, ceil_div((a * b) as nat, d as nat)),
{
    if d == 0 {
        return Err(VaultError::DivisionByZero);
    }
    match ceil_quotient(a, b, d) {
        Some(q) => Ok(q),
        None => Err(VaultError::MuldivOverflow),
    }
}

/// The product of two fixed-point factors, rounded up, and saturated where the
/// factors are so large that 128 bits do not hold it. Rounding up keeps the
/// decay power at or above its ideal value, so what a release takes out of the
/// pot is only ever rounded down.
pub fn mul_fp_ceil(a: u128, b: u128) -> (r: u128)
    ensures
        r == (if fp_product(a as nat, b as nat) <= u128::MAX {
            fp_product(a as nat, b as nat)
        } else {
            u128::MAX as nat
        }),
{
    match ceil_quotient(a, b, FP) {
        Some(q) => q,
        None => u128::MAX,
    }
}

/// Fixed-point factors in `[0, FP]` have a product that is no larger than
/// either of them.
pub proof fn lemma_fp_product_bound(a: nat, b: nat)
    requires
        a <= FP,
        b <= FP,
    ensures
        fp_product(a, b) <= a,
        fp_product(a, b) <= b,
{
    assert(a * (FP as nat) >= a * b && b * (FP as nat) >= a * b) by (nonlinear_arith)
        requires
            a <= FP,
            b <= FP,
    ;
    lemma_ceil_div_least(a * b, FP as nat, a);
    lemma_ceil_div_least(a * b, FP as nat, b);
}

/// The decay base is a fixed-point factor.
pub proof fn lemma_decay_base_bound(p: nat)
    requires
        p > 0,
    ensures
        decay_base(p) <= FP,
{
    assert((p - 1) * FP <= FP * p) by (nonlinear_arith);
    assert((p - 1) * FP >= 0) by (nonlinear_arith)
        requires
            p > 0,
    ;
    lemma_ceil_div_least(((p - 1) * FP) as nat, p, FP as nat);
}

/// Powers of fixed-point factors are fixed-point factors.
pub proof fn lemma_square_multiply_bound(acc: nat, base: nat, e: nat)
    requires
        acc <= FP,
        base <= FP,
    ensures
        square_multiply(acc, base, e) <= acc,
    decreases e,
{
    if e > 0 {
        lemma_fp_product_bound(acc, base);
        lemma_fp_product_bound(base, base);
        let acc2 = if e % 2 == 1 {
            fp_product(acc, base)
        } else {
            acc
        };
        lemma_square_multiply_bound(acc2, fp_product(base, base), e / 2);
    }
}

/// The decay power never exceeds one.
pub proof fn lemma_decay_power_bound(e: nat, p: nat)
    requires
        p > 0,
    ensures
        decay_power(e, p) <= FP,
{
    lemma_decay_base_bound(p);
    lemma_square_multiply_bound(FP as nat, decay_base(p), e);
}

/// `((periods - 1) / periods)^e` in fixed point, every step rounded up. The
/// loop takes `rounds(e)` rounds, of at most two products each.
pub fn pow_decay_fp(e: u64, periods: u128) -> (r: u128)
    requires
        periods > 0,
    ensures
        r == decay_power(e as nat, periods as nat),
        r <= FP,
{
    proof {
        lemma_decay_base_bound(periods as nat);
        lemma_decay_power_bound(e as nat, periods as nat);
    }
    let mut base: u128 = match ceil_quotient(periods - 1, FP, periods) {
        Some(q) => q,
        None => 0,
    };
    let mut result: u128 = FP;
    let mut left: u64 = e;
    while left > 0
        invariant
            result <= FP,
            base <= FP,
            square_multiply(result as nat, base as nat, left as nat) == decay_power(
                e as nat,
                periods as nat,
            ),
        decreases rounds(left as nat),
    {
        proof {
            lemma_fp_product_bound(result as nat, base as nat);
            lemma_fp_product_bound(base as nat, base as nat);
        }
        if left % 2 == 1 {
            result = mul_fp_ceil(result, base);
        }
        base = mul_fp_ceil(base, base);
        left = left / 2;
    }
    result
}

/// A pot never grows by decay.
pub proof fn lemma_decayed_pot_bound(b: nat, e: nat, periods: nat)
    ensures
        decayed_pot(b, e, periods) <= b,
{
    if b != 0 && e != 0 {
        let pow = decay_power(e, horizon(periods));
        lemma_decay_power_bound(e, horizon(periods));
        assert(b * (FP as nat) >= b * pow) by (nonlinear_arith)
            requires
                pow <= FP,
        ;
        lemma_ceil_div_least(b * pow, FP as nat, b);
    }
}

/// The pot after `e` drips: `b` times the power of `pow_decay_fp`, rounded up.
/// That power is itself rounded up from `((periods - 1) / periods)^e`, so a unit
/// more than the ideal pot rounded up may stay, and what a large pot times the
/// power's own error adds; the release is only ever rounded down. Zero periods
/// are taken for one.
pub fn pot_after_release(b: u128, e: u64, periods: u128) -> (r: u128)
    ensures
        r == decayed_pot(b as nat, e as nat, periods as nat),
        r <= b,
{
    if b == 0 || e == 0 {
        return b;
    }
    let p: u128 = if periods == 0 {
        1
    } else {
        periods
    };
    let pow = pow_decay_fp(e, p);
    proof {
        lemma_decayed_pot_bound(b as nat, e as nat, periods as nat);
    }
    match ceil_quotient(b, pow, FP) {
        Some(q) => q,
        None => b,
    }
}

} // verus!
