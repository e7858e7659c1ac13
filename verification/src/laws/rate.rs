//! What holds of the share rate `(L - B) / S`, of the rounding, and of the
//! invariant, through every operation.

use crate::error::VaultError;
use crate::fixed;
use crate::laws::release;
use crate::model;
use crate::model::{Call, VaultState, BPS, DEAD_SHARES};
use crate::parcel;
use vstd::prelude::*;

verus! {

/// `n / d * d` reaches `n` up to less than `d`.
pub proof fn lemma_floor_div(n: nat, d: nat)
    requires
        d > 0,
    ensures
        fixed::floor_div(n, d) * d <= n,
        n < fixed::floor_div(n, d) * d + d,
{
    vstd::arithmetic::div_mod::lemma_fundamental_div_mod(n as int, d as int);
    vstd::arithmetic::div_mod::lemma_mod_bound(n as int, d as int);
    let q = n / d;
    assert(d * q == q * d) by (nonlinear_arith);
}

/// `floor_div(n, d)` is the largest `q` with `q * d <= n`.
pub proof fn lemma_floor_div_largest(n: nat, d: nat, q: nat)
    requires
        d > 0,
        q * d <= n,
    ensures
        q <= fixed::floor_div(n, d),
{
    lemma_floor_div(n, d);
    let f = fixed::floor_div(n, d);
    assert(q <= f) by (nonlinear_arith)
        requires
            q * d <= n,
            n < f * d + d,
            d > 0,
    ;
}

/// The rate of `after` is at least the rate of `before`, the fractions compared
/// crosswise.
pub open spec fn rate_not_below(after: VaultState, before: VaultState) -> bool {
    after.active() * before.shares >= before.active() * after.shares
}

/// The rate of `after` is the rate of `before`, exactly.
pub open spec fn rate_equal(after: VaultState, before: VaultState) -> bool {
    after.active() * before.shares == before.active() * after.shares
}

/// A tithe of at most 100% never exceeds what it is taken from, and never
/// falls below its share of it.
pub proof fn law_tithe_is_rounded_up(w: nat, bps: nat)
    requires
        bps <= BPS,
    ensures
        model::tithe(w, bps) <= w,
        model::payout(w, bps) >= 0,
        model::tithe(w, bps) * BPS >= w * bps,
        model::tithe(w, bps) * BPS < w * bps + BPS,
{
    assert(w * (BPS as nat) >= w * bps) by (nonlinear_arith)
        requires
            bps <= BPS,
    ;
    fixed::lemma_ceil_div(w * bps, BPS as nat);
    fixed::lemma_ceil_div_least(w * bps, BPS as nat, w);
}

/// A deposit at the rate mints at most one share per unit, and what the minted
/// shares are worth falls short of the deposit by less than one share's worth.
pub proof fn law_mint_is_rounded_down(d: nat, active: nat, s: nat)
    requires
        0 < s <= active,
        d <= u128::MAX,
    ensures
        fixed::floor_div(d * s, active) <= d,
        fixed::floor_div(d * s, active) * active <= d * s,
        d * s < fixed::floor_div(d * s, active) * active + active,
        model::minted(d, active, s) == (if fixed::floor_div(d * s, active) == 0 {
            Err::<nat, VaultError>(VaultError::DepositTooSmall)
        } else {
            Ok(fixed::floor_div(d * s, active))
        }),
{
    let m = fixed::floor_div(d * s, active);
    lemma_floor_div(d * s, active);
    assert(d * s <= d * active) by (nonlinear_arith)
        requires
            s <= active,
    ;
    assert(m <= d) by (nonlinear_arith)
        requires
            m * active <= d * active,
            active > 0,
    ;
}

/// An exit is worth no more than its part of what the shares stand for, and
/// falls short of it by less than one unit. What stays keeps at least one unit
/// per share where there was one before.
pub proof fn law_worth_is_rounded_down(b: nat, active: nat, s: nat)
    requires
        0 < s,
        b <= s,
    ensures
        model::worth(b, active, s) * s <= b * active,
        b * active < model::worth(b, active, s) * s + s,
        model::worth(b, active, s) <= active,
        s <= active ==> s - b <= active - model::worth(b, active, s),
{
    let w = model::worth(b, active, s);
    lemma_floor_div(b * active, s);
    assert(b * active <= s * active) by (nonlinear_arith)
        requires
            b <= s,
    ;
    assert(w <= active) by (nonlinear_arith)
        requires
            w * s <= s * active,
            s > 0,
    ;
    if s <= active {
        let left = (s - b) as nat;
        assert(left * active >= left * s) by (nonlinear_arith)
            requires
                s <= active,
        ;
        assert(left * active == s * active - b * active) by (nonlinear_arith)
            requires
                left == s - b,
        ;
        assert((active - w) * s == s * active - w * s) by (nonlinear_arith);
        assert(left <= active - w) by (nonlinear_arith)
            requires
                (active - w) * s >= left * s,
                s > 0,
        ;
    }
}

/// A deposit keeps the invariant. It does not lower the rate: it leaves it
/// exactly where it is after the release, but for what the mint is rounded
/// down by, which is less than one share's worth and stays with those who
/// stand. Where the mint is not rounded, the rate does not move at all.
pub proof fn law_deposit_is_neutral(st: VaultState, call: Call)
    requires
        st.wf(),
        call.height <= u64::MAX,
        model::deposit(st, call) is Ok,
    ensures
        ({
            let r = st.released(call.height);
            let next = model::deposit(st, call)->Ok_0.0;
            let d = model::incoming_underlying(st, call)->Ok_0;
            &&& next.wf()
            &&& next.stands()
            &&& next.active() == r.active() + d
            &&& next.pot == r.pot
            &&& rate_not_below(next, r)
            &&& rate_not_below(next, st)
            &&& r.shares > 0 ==> next.active() * r.shares - r.active() * next.shares < r.active()
            &&& r.shares > 0 && (d * r.shares) % r.active() == 0 ==> rate_equal(next, r)
        }),
{
    let r = st.released(call.height);
    let next = model::deposit(st, call)->Ok_0.0;
    let d = model::incoming_underlying(st, call)->Ok_0;
    release::law_release_keeps_the_vault_sound(st, call.height);
    let (a, s) = (r.active(), r.shares);
    if s == 0 {
        assert(next.active() * 0 == 0);
        assert(0 * next.shares == 0);
    } else {
        let m = fixed::floor_div(d * s, a);
        law_mint_is_rounded_down(d, a, s);
        assert(next.shares == s + m);
        assert((a + d) * s == a * s + d * s) by (nonlinear_arith);
        assert(a * (s + m) == a * s + m * a) by (nonlinear_arith);
        if (d * s) % a == 0 {
            vstd::arithmetic::div_mod::lemma_fundamental_div_mod((d * s) as int, a as int);
            assert(a * m == m * a) by (nonlinear_arith);
        }
        assert(a * next.shares >= st.active() * next.shares) by (nonlinear_arith)
            requires
                a >= st.active(),
        ;
    }
}

/// An exit keeps the invariant and the dead shares. It does not lower the
/// rate: it leaves it exactly where it is after the release, but for the
/// fraction of a unit that the exit's worth is rounded down by. Where the
/// worth is not rounded, the rate does not move at all.
pub proof fn law_exit_is_neutral(st: VaultState, call: Call)
    requires
        st.wf(),
        call.height <= u64::MAX,
        model::withdraw(st, call) is Ok,
    ensures
        ({
            let r = st.released(call.height);
            let next = model::withdraw(st, call)->Ok_0.0;
            let b = parcel::first_value(call.incoming, call.myself)->0;
            let w = model::worth(b as nat, r.active(), r.shares);
            &&& next.wf()
            &&& next.shares >= DEAD_SHARES
            &&& next.active() == r.active() - w
            &&& rate_not_below(next, r)
            &&& rate_not_below(next, st)
            &&& next.active() * r.shares - r.active() * next.shares < r.shares
            &&& (b * r.active()) % (r.shares as int) == 0 ==> rate_equal(next, r)
        }),
{
    let r = st.released(call.height);
    let next = model::withdraw(st, call)->Ok_0.0;
    let b = parcel::first_value(call.incoming, call.myself)->0 as nat;
    release::law_release_keeps_the_vault_sound(st, call.height);
    let (a, s) = (r.active(), r.shares);
    let w = model::worth(b, a, s);
    law_worth_is_rounded_down(b, a, s);
    law_tithe_is_rounded_up(w, r.penalty_bps);
    assert((a - w) * s == a * s - w * s) by (nonlinear_arith);
    assert(a * (s - b) == a * s - b * a) by (nonlinear_arith);
    assert(b * a == (b as u128) * a);
    if (b * a) % s == 0 {
        vstd::arithmetic::div_mod::lemma_fundamental_div_mod((b * a) as int, s as int);
        assert(s * w == w * s) by (nonlinear_arith);
    }
    assert(a * next.shares >= st.active() * next.shares) by (nonlinear_arith)
        requires
            a >= st.active(),
    ;
}

/// An exit conserves the underlying: what stays and what is paid out make up
/// what there was, and what is paid out and tithed makes up what the shares
/// are worth.
pub proof fn law_exit_conserves(st: VaultState, call: Call)
    requires
        st.wf(),
        call.height <= u64::MAX,
        model::withdraw(st, call) is Ok,
    ensures
        ({
            let r = st.released(call.height);
            let next = model::withdraw(st, call)->Ok_0.0;
            let b = parcel::first_value(call.incoming, call.myself)->0;
            let w = model::worth(b as nat, r.active(), r.shares);
            let p = model::payout(w, st.penalty_bps);
            let t = model::tithe(w, st.penalty_bps);
            &&& p >= 0
            &&& next.liquidity + p == st.liquidity
            &&& next.pot == r.pot + t
            &&& next.shares + b == st.shares
            &&& p + t == w
        }),
{
    let r = st.released(call.height);
    let b = parcel::first_value(call.incoming, call.myself)->0 as nat;
    release::law_release_keeps_the_vault_sound(st, call.height);
    let w = model::worth(b, r.active(), r.shares);
    law_worth_is_rounded_down(b, r.active(), r.shares);
    law_tithe_is_rounded_up(w, r.penalty_bps);
}

/// A donation into the pot keeps the invariant and does not move the rate from
/// where the release leaves it.
pub proof fn law_pot_donation_is_neutral(st: VaultState, call: Call)
    requires
        st.wf(),
        call.height <= u64::MAX,
        model::donate_pot(st, call) is Ok,
    ensures
        ({
            let r = st.released(call.height);
            let next = model::donate_pot(st, call)->Ok_0.0;
            let d = model::incoming_underlying(st, call)->Ok_0;
            &&& next.wf()
            &&& next.pot == r.pot + d
            &&& next.active() == r.active()
            &&& next.shares == r.shares
            &&& rate_equal(next, r)
            &&& rate_not_below(next, st)
        }),
{
    let r = st.released(call.height);
    release::law_release_keeps_the_vault_sound(st, call.height);
    assert(r.active() * st.shares >= st.active() * st.shares) by (nonlinear_arith)
        requires
            r.active() >= st.active(),
    ;
}

/// A donation into the pot is never refused for the pot's sake: the pot is
/// part of the liquidity, which would overflow first.
pub proof fn law_pot_never_overflows(st: VaultState, call: Call)
    requires
        st.wf(),
        call.height <= u64::MAX,
    ensures
        model::donate_pot(st, call) != Err::<(VaultState, model::Reply), VaultError>(
            VaultError::PotOverflow,
        ),
{
    release::law_release_keeps_the_vault_sound(st, call.height);
}

/// A boost keeps the invariant and lifts the rate at once; it can only lift it.
pub proof fn law_boost_lifts_the_rate(st: VaultState, call: Call)
    requires
        st.wf(),
        call.height <= u64::MAX,
        model::donate_boost(st, call) is Ok,
    ensures
        ({
            let r = st.released(call.height);
            let next = model::donate_boost(st, call)->Ok_0.0;
            let d = model::incoming_underlying(st, call)->Ok_0;
            &&& next.wf()
            &&& next.pot == r.pot
            &&& next.shares == r.shares
            &&& next.active() == r.active() + d
            &&& next.active() * r.shares > r.active() * next.shares
            &&& next.active() * st.shares > st.active() * next.shares
        }),
{
    let r = st.released(call.height);
    let d = model::incoming_underlying(st, call)->Ok_0;
    release::law_release_keeps_the_vault_sound(st, call.height);
    let (a, s) = (r.active(), r.shares);
    assert((a + d) * s > a * s) by (nonlinear_arith)
        requires
            d > 0,
            s > 0,
    ;
    assert(a * s >= st.active() * s) by (nonlinear_arith)
        requires
            a >= st.active(),
    ;
}

/// The setup keeps the invariant and happens once: the vault it leaves refuses
/// another.
pub proof fn law_setup_happens_once(st: VaultState, call: Call, setup: model::Setup)
    requires
        st.wf(),
        call.height <= u64::MAX,
        model::initialize(st, call, setup) is Ok,
    ensures
        ({
            let next = model::initialize(st, call, setup)->Ok_0.0;
            &&& next.wf()
            &&& next.shares == 0 && next.liquidity == 0 && next.pot == 0
            &&& forall|again: model::Setup, later: Call|
                #[trigger] model::initialize(next, later, again) == Err::<
                    (VaultState, model::Reply),
                    VaultError,
                >(VaultError::AlreadyInitialized)
        }),
{
}

} // verus!
