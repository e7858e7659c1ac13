//! What holds of exits: what they pay, that slicing them buys nothing, and
//! what the last one leaves.

use crate::fixed;
use crate::laws::rate;
use crate::laws::release;
use crate::model;
use crate::model::{Call, VaultState, BPS, DEAD_SHARES};
use crate::parcel;
use vstd::prelude::*;

verus! {

/// The payout is what the tithe leaves of the worth, rounded down.
pub proof fn law_payout_is_rounded_down(w: nat, bps: nat)
    requires
        bps <= BPS,
    ensures
        model::payout(w, bps) == fixed::floor_div((w * (BPS - bps)) as nat, BPS as nat),
        model::payout(w, bps) * BPS <= w * (BPS - bps),
        w * (BPS - bps) < model::payout(w, bps) * BPS + BPS,
{
    rate::law_tithe_is_rounded_up(w, bps);
    let p = model::payout(w, bps);
    let t = model::tithe(w, bps);
    let one = BPS as nat;
    assert(p * one == w * one - t * one) by (nonlinear_arith)
        requires
            p == w - t,
    ;
    assert(w * (one - bps) == w * one - w * bps) by (nonlinear_arith);
    let n = (w * (one - bps)) as nat;
    rate::lemma_floor_div(n, one);
    rate::lemma_floor_div_largest(n, one, p as nat);
    let f = fixed::floor_div(n, one);
    assert(f <= p) by (nonlinear_arith)
        requires
            f * one <= n,
            n < p * one + one,
            one > 0,
    ;
}

/// What is worth more pays more.
pub proof fn law_payout_grows_with_worth(less: nat, more: nat, bps: nat)
    requires
        bps <= BPS,
        less <= more,
    ensures
        model::payout(less, bps) <= model::payout(more, bps),
{
    law_payout_is_rounded_down(less, bps);
    law_payout_is_rounded_down(more, bps);
    let rest = (BPS - bps) as nat;
    assert(less * rest <= more * rest) by (nonlinear_arith)
        requires
            less <= more,
    ;
    let (p, q) = (model::payout(less, bps), model::payout(more, bps));
    assert(p <= q) by (nonlinear_arith)
        requires
            p * BPS < q * BPS + BPS,
    ;
}

/// Shares are worth more where more stands behind them.
pub proof fn law_worth_grows_with_active(b: nat, less: nat, more: nat, s: nat)
    requires
        s > 0,
        less <= more,
    ensures
        model::worth(b, less, s) <= model::worth(b, more, s),
{
    assert(b * less <= b * more) by (nonlinear_arith)
        requires
            less <= more,
    ;
    rate::lemma_floor_div(b * less, s);
    rate::lemma_floor_div_largest(b * more, s, model::worth(b, less, s));
}

/// Both doors see the drips first. The later the height, the more an exit of
/// the same shares pays, for it takes the drips that it stood for; and the
/// fewer shares a deposit of the same amount mints, for the drips belong to
/// those who stood.
pub proof fn law_drips_come_before_the_caller(st: VaultState, h: nat, later: nat, b: nat, d: nat)
    requires
        st.wf(),
        h <= later <= u64::MAX,
        0 < b,
        b + DEAD_SHARES <= st.shares,
        d <= u128::MAX,
    ensures
        ({
            let (r, q) = (st.released(h), st.released(later));
            &&& r.active() <= q.active()
            &&& model::payout(model::worth(b, r.active(), r.shares), r.penalty_bps)
                <= model::payout(model::worth(b, q.active(), q.shares), q.penalty_bps)
            &&& fixed::floor_div(d * q.shares, q.active()) <= fixed::floor_div(
                d * r.shares,
                r.active(),
            )
        }),
{
    let (r, q) = (st.released(h), st.released(later));
    release::law_waiting_never_fills_the_pot(st, h, later);
    release::law_release_keeps_the_vault_sound(st, h);
    release::law_release_keeps_the_vault_sound(st, later);
    let s = st.shares;
    law_worth_grows_with_active(b, r.active(), q.active(), s);
    law_payout_grows_with_worth(
        model::worth(b, r.active(), s),
        model::worth(b, q.active(), s),
        st.penalty_bps,
    );
    let m = fixed::floor_div(d * s, q.active());
    rate::lemma_floor_div(d * s, q.active());
    assert(m * r.active() <= m * q.active()) by (nonlinear_arith)
        requires
            r.active() <= q.active(),
    ;
    rate::lemma_floor_div_largest(d * s, r.active(), m);
}

/// Of two slices of an exit, the second taken after the first, the worths make
/// up at most the worth of the lump, and fall short of it by at most one unit.
/// Where the first slice's worth is not rounded, the second is worth what it
/// would be alone.
pub proof fn law_slices_are_worth_no_more(b1: nat, b2: nat, active: nat, s: nat)
    requires
        b1 + b2 < s,
    ensures
        ({
            let w1 = model::worth(b1, active, s);
            let w2 = model::worth(b2, (active - w1) as nat, (s - b1) as nat);
            let w = model::worth(b1 + b2, active, s);
            &&& w1 + w2 <= w <= w1 + w2 + 1
            &&& (b1 * active) % s == 0 ==> w2 == model::worth(b2, active, s)
            &&& (b1 * active) % s == 0 && (b2 * active) % s == 0 ==> w == w1 + w2
        }),
{
    let w1 = model::worth(b1, active, s);
    rate::law_worth_is_rounded_down(b1, active, s);
    let a2 = (active - w1) as nat;
    let s2 = (s - b1) as nat;
    let w2 = model::worth(b2, a2, s2);
    rate::law_worth_is_rounded_down(b2, a2, s2);
    let w = model::worth(b1 + b2, active, s);
    rate::law_worth_is_rounded_down(b1 + b2, active, s);
    let x = (b1 * active - w1 * s) as nat;
    assert(a2 * s == active * s2 + x) by (nonlinear_arith)
        requires
            a2 == active - w1,
            s2 == s - b1,
            x == b1 * active - w1 * s,
    ;
    assert((b1 + b2) * active == b1 * active + b2 * active) by (nonlinear_arith);
    assert((w2 * s2) * s <= (b2 * a2) * s) by (nonlinear_arith)
        requires
            w2 * s2 <= b2 * a2,
    ;
    assert((b2 * a2) * s == b2 * (a2 * s)) by (nonlinear_arith);
    assert(b2 * (active * s2 + x) == (b2 * active) * s2 + b2 * x) by (nonlinear_arith);
    assert(b2 * x <= s2 * x) by (nonlinear_arith)
        requires
            b2 <= s2,
    ;
    assert((w2 * s2) * s == (w2 * s) * s2) by (nonlinear_arith);
    assert(w2 * s <= b2 * active + x) by (nonlinear_arith)
        requires
            (w2 * s) * s2 <= (b2 * active) * s2 + s2 * x,
            s2 > 0,
    ;
    assert((w1 + w2) * s == w1 * s + w2 * s) by (nonlinear_arith);
    rate::lemma_floor_div_largest((b1 + b2) * active, s, w1 + w2);
    // The lump exceeds the slices by at most one unit.
    let alone = model::worth(b2, active, s);
    rate::law_worth_is_rounded_down(b2, active, s);
    assert(alone <= w2) by {
        assert((alone * s) * s2 <= (b2 * active) * s2) by (nonlinear_arith)
            requires
                alone * s <= b2 * active,
        ;
        assert((b2 * active) * s2 <= (b2 * a2) * s);
        assert((alone * s) * s2 == (alone * s2) * s) by (nonlinear_arith);
        assert(alone * s2 <= b2 * a2) by (nonlinear_arith)
            requires
                (alone * s2) * s <= (b2 * a2) * s,
                s > 0,
        ;
        rate::lemma_floor_div_largest(b2 * a2, s2, alone);
    }
    assert((w1 + alone) * s == w1 * s + alone * s) by (nonlinear_arith);
    assert(w <= w1 + alone + 1) by (nonlinear_arith)
        requires
            w * s < (w1 + alone) * s + s + s,
            s > 0,
    ;
    if (b1 * active) % s == 0 {
        vstd::arithmetic::div_mod::lemma_fundamental_div_mod((b1 * active) as int, s as int);
        assert(s * w1 == w1 * s) by (nonlinear_arith);
        assert(x == 0);
        assert(w2 <= alone) by {
            rate::lemma_floor_div_largest(b2 * active, s, w2);
        }
        if (b2 * active) % s == 0 {
            vstd::arithmetic::div_mod::lemma_fundamental_div_mod((b2 * active) as int, s as int);
            assert(s * alone == alone * s) by (nonlinear_arith);
            assert(w <= w1 + alone) by (nonlinear_arith)
                requires
                    w * s <= (w1 + alone) * s,
                    s > 0,
            ;
        }
    }
}

/// A tithe that is not rounded adds up.
proof fn lemma_exact_tithes_add(w1: nat, w2: nat, bps: nat)
    requires
        (w1 * bps) % (BPS as nat) == 0,
        (w2 * bps) % (BPS as nat) == 0,
    ensures
        model::tithe(w1, bps) + model::tithe(w2, bps) == model::tithe(w1 + w2, bps),
{
    assert((w1 + w2) * bps == w1 * bps + w2 * bps) by (nonlinear_arith);
}

/// The flat price: slicing an exit buys nothing. Two slices at one height never
/// pay out more than the lump, and leave at least as much in the vault and
/// behind the shares that stay. Where neither the worth nor the tithe of a slice
/// is rounded, they pay exactly the same payout and exactly the same tithe as
/// the lump.
pub proof fn law_slicing_an_exit_buys_nothing(
    st: VaultState,
    first: Call,
    second: Call,
    lump: Call,
)
    requires
        st.wf(),
        first.height == second.height == lump.height,
        first.height <= u64::MAX,
        model::withdraw(st, first) is Ok,
        model::withdraw(model::withdraw(st, first)->Ok_0.0, second) is Ok,
        model::withdraw(st, lump) is Ok,
        parcel::first_value(lump.incoming, lump.myself)->0 == parcel::first_value(
            first.incoming,
            first.myself,
        )->0 + parcel::first_value(second.incoming, second.myself)->0,
    ensures
        ({
            let r = st.released(first.height);
            let b1 = parcel::first_value(first.incoming, first.myself)->0 as nat;
            let b2 = parcel::first_value(second.incoming, second.myself)->0 as nat;
            let sliced = model::withdraw(model::withdraw(st, first)->Ok_0.0, second)->Ok_0.0;
            let whole = model::withdraw(st, lump)->Ok_0.0;
            &&& sliced.shares == whole.shares
            &&& sliced.liquidity >= whole.liquidity
            &&& sliced.active() >= whole.active()
            &&& ({
                &&& (b1 * r.active()) % r.shares == 0
                &&& (b2 * r.active()) % r.shares == 0
                &&& (model::worth(b1, r.active(), r.shares) * r.penalty_bps) % (BPS as nat) == 0
                &&& (model::worth(b2, r.active(), r.shares) * r.penalty_bps) % (BPS as nat) == 0
            }) ==> sliced == whole
        }),
{
    let h = first.height;
    let r = st.released(h);
    let b1 = parcel::first_value(first.incoming, first.myself)->0 as nat;
    let b2 = parcel::first_value(second.incoming, second.myself)->0 as nat;
    let mid = model::withdraw(st, first)->Ok_0.0;
    release::law_release_keeps_the_vault_sound(st, h);
    rate::law_exit_is_neutral(st, first);
    rate::law_exit_conserves(st, first);
    rate::law_exit_is_neutral(st, lump);
    rate::law_exit_conserves(st, lump);
    // Nothing is left to release for the second slice.
    if h > st.anchor {
        release::law_anchor_lands_on_the_last_drip(st, h);
    } else {
        assert(0 * st.interval() == 0);
    }
    release::law_no_drip_no_release(mid, h);
    rate::law_exit_is_neutral(mid, second);
    rate::law_exit_conserves(mid, second);
    let (a, s, bps) = (r.active(), r.shares, r.penalty_bps);
    let w1 = model::worth(b1, a, s);
    let w2 = model::worth(b2, (a - w1) as nat, (s - b1) as nat);
    let w = model::worth(b1 + b2, a, s);
    law_slices_are_worth_no_more(b1, b2, a, s);
    law_payout_is_rounded_down(w1, bps);
    law_payout_is_rounded_down(w2, bps);
    law_payout_is_rounded_down(w, bps);
    let (p1, p2, p) = (model::payout(w1, bps), model::payout(w2, bps), model::payout(w, bps));
    let rest = (BPS - bps) as nat;
    assert((w1 + w2) * rest <= w * rest) by (nonlinear_arith)
        requires
            w1 + w2 <= w,
    ;
    assert((w1 + w2) * rest == w1 * rest + w2 * rest) by (nonlinear_arith);
    assert(p1 + p2 <= p) by (nonlinear_arith)
        requires
            p1 * BPS + p2 * BPS < p * BPS + BPS,
    ;
    if (b1 * a) % s == 0 && (b2 * a) % s == 0 && (w1 * bps) % (BPS as nat) == 0 && (model::worth(
        b2,
        a,
        s,
    ) * bps) % (BPS as nat) == 0 {
        lemma_exact_tithes_add(w1, w2, bps);
    }
}

/// An exit of shares that circulate is never refused.
pub proof fn law_exits_are_never_refused(st: VaultState, call: Call)
    requires
        st.wf(),
        parcel::first_value(call.incoming, call.myself) is Some,
        0 < parcel::first_value(call.incoming, call.myself)->0,
        parcel::first_value(call.incoming, call.myself)->0 + DEAD_SHARES <= st.shares,
    ensures
        model::withdraw(st, call) is Ok,
{
}

/// The last exit follows the common rule, and the pot survives it: only dead
/// shares remain, the pot holds what it held and the last tithe, and not a
/// unit of it drips until someone stands again.
pub proof fn law_pot_survives_the_exodus(st: VaultState, call: Call)
    requires
        st.wf(),
        call.height <= u64::MAX,
        model::withdraw(st, call) is Ok,
        parcel::first_value(call.incoming, call.myself)->0 + DEAD_SHARES == st.shares,
    ensures
        ({
            let r = st.released(call.height);
            let next = model::withdraw(st, call)->Ok_0.0;
            let b = parcel::first_value(call.incoming, call.myself)->0 as nat;
            let w = model::worth(b, r.active(), r.shares);
            &&& next.shares == DEAD_SHARES
            &&& next.pot == r.pot + model::tithe(w, st.penalty_bps)
            &&& forall|h: nat| (#[trigger] next.released(h)).pot == next.pot
        }),
{
}

} // verus!
