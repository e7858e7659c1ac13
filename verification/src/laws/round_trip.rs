//! What holds of going in and out again: it does not pay.

use crate::laws::exit;
use crate::laws::rate;
use crate::laws::release;
use crate::model;
use crate::model::{Call, VaultState, BPS};
use crate::parcel;
use vstd::prelude::*;

verus! {

/// Whoever puts `d` into a vault whose shares stand for `a`, gets `m` of then
/// `s` shares for it, and takes them out again after what the shares stand for
/// has grown by `x`, gets no more than `d` back, as long as `x` is no more than
/// what the tithe takes of the vault. Where it is less, the round trip loses.
pub proof fn law_gain_below_the_tithe_does_not_pay(
    d: nat,
    a: nat,
    m: nat,
    s: nat,
    x: nat,
    bps: nat,
)
    requires
        0 < d,
        0 < s,
        m <= s,
        m * (a + d) <= d * s,
        bps <= BPS,
        x * (BPS - bps) <= bps * (a + d),
    ensures
        model::payout(model::worth(m, a + d + x, s), bps) <= d,
        x * (BPS - bps) < bps * (a + d) ==> model::payout(
            model::worth(m, a + d + x, s),
            bps,
        ) < d,
{
    let c = a + d;
    let w = model::worth(m, c + x, s);
    let p = model::payout(w, bps);
    let one = BPS as nat;
    let rest = (BPS - bps) as nat;
    rate::law_worth_is_rounded_down(m, c + x, s);
    exit::law_payout_is_rounded_down(w, bps);
    assert((w * s) * c <= (m * (c + x)) * c) by (nonlinear_arith)
        requires
            w * s <= m * (c + x),
    ;
    assert((m * (c + x)) * c == (m * c) * (c + x)) by (nonlinear_arith);
    assert((m * c) * (c + x) <= (d * s) * (c + x)) by (nonlinear_arith)
        requires
            m * c <= d * s,
    ;
    assert((w * s) * c == (w * c) * s) by (nonlinear_arith);
    assert((d * s) * (c + x) == (d * (c + x)) * s) by (nonlinear_arith);
    assert(w * c <= d * (c + x)) by (nonlinear_arith)
        requires
            (w * c) * s <= (d * (c + x)) * s,
            s > 0,
    ;
    assert((p * one) * c <= (w * rest) * c) by (nonlinear_arith)
        requires
            p * one <= w * rest,
    ;
    assert((w * rest) * c == (w * c) * rest) by (nonlinear_arith);
    assert((w * c) * rest <= (d * (c + x)) * rest) by (nonlinear_arith)
        requires
            w * c <= d * (c + x),
    ;
    assert((d * (c + x)) * rest == d * (c * rest + x * rest)) by (nonlinear_arith);
    assert(c * rest + bps * c == c * one) by (nonlinear_arith)
        requires
            rest == one - bps,
    ;
    assert((p * one) * c == (p * c) * one) by (nonlinear_arith);
    assert(d * (c * one) == (d * c) * one) by (nonlinear_arith);
    if x * rest < bps * c {
        assert(d * (c * rest + x * rest) < d * (c * one)) by (nonlinear_arith)
            requires
                c * rest + x * rest < c * one,
                d > 0,
        ;
        assert(p < d) by (nonlinear_arith)
            requires
                (p * c) * one < (d * c) * one,
                c > 0,
                one > 0,
        ;
    } else {
        assert(d * (c * rest + x * rest) <= d * (c * one)) by (nonlinear_arith)
            requires
                c * rest + x * rest <= c * one,
        ;
        assert(p <= d) by (nonlinear_arith)
            requires
                (p * c) * one <= (d * c) * one,
                c > 0,
                one > 0,
        ;
    }
}

/// The shares that a deposit mints never exceed its part of the vault.
proof fn lemma_minted_part(st: VaultState, call: Call)
    requires
        st.wf(),
        call.height <= u64::MAX,
        model::deposit(st, call) is Ok,
    ensures
        ({
            let r = st.released(call.height);
            let next = model::deposit(st, call)->Ok_0.0;
            let d = model::incoming_underlying(st, call)->Ok_0;
            let m = model::minted(d, r.active(), r.shares)->Ok_0;
            &&& model::minted(d, r.active(), r.shares) is Ok
            &&& d > 0
            &&& next.active() == r.active() + d
            &&& 0 < m <= next.shares
            &&& m * (r.active() + d) <= d * next.shares
        }),
{
    let r = st.released(call.height);
    let d = model::incoming_underlying(st, call)->Ok_0;
    rate::law_deposit_is_neutral(st, call);
    release::law_release_keeps_the_vault_sound(st, call.height);
    let (a, s) = (r.active(), r.shares);
    let m = model::minted(d, a, s)->Ok_0;
    if s == 0 {
        assert(m * d <= d * d) by (nonlinear_arith)
            requires
                m <= d,
        ;
    } else {
        rate::law_mint_is_rounded_down(d, a, s);
        assert(m * (a + d) == m * a + d * m) by (nonlinear_arith);
        assert(d * (s + m) == d * s + d * m) by (nonlinear_arith);
    }
}

/// Going in and out again does not pay, whenever the exit comes. Between the
/// deposit and the exit the shares gain only what drips out of the pot; as
/// long as that is no more than what the tithe takes of the vault, the exit of
/// the minted shares pays at most the deposit, and where it is less, it pays
/// less than the deposit.
pub proof fn law_sniping_the_drip_does_not_pay(st: VaultState, go_in: Call, out: Call)
    requires
        st.wf(),
        go_in.height <= u64::MAX,
        out.height <= u64::MAX,
        model::deposit(st, go_in) is Ok,
        ({
            let r = st.released(go_in.height);
            let d = model::incoming_underlying(st, go_in)->Ok_0;
            let next = model::deposit(st, go_in)->Ok_0.0;
            let drip = (next.pot - next.released(out.height).pot) as nat;
            &&& model::withdraw(next, out) is Ok
            &&& parcel::first_value(out.incoming, out.myself)->0 == model::minted(
                d,
                r.active(),
                r.shares,
            )->Ok_0
            &&& drip * (BPS - st.penalty_bps) <= st.penalty_bps * next.active()
        }),
    ensures
        ({
            let d = model::incoming_underlying(st, go_in)->Ok_0;
            let next = model::deposit(st, go_in)->Ok_0.0;
            let drip = (next.pot - next.released(out.height).pot) as nat;
            let paid = next.liquidity - model::withdraw(next, out)->Ok_0.0.liquidity;
            &&& paid <= d
            &&& drip * (BPS - st.penalty_bps) < st.penalty_bps * next.active() ==> paid < d
        }),
{
    let next = model::deposit(st, go_in)->Ok_0.0;
    let last = next.released(out.height);
    let r = st.released(go_in.height);
    let d = model::incoming_underlying(st, go_in)->Ok_0;
    let m = model::minted(d, r.active(), r.shares)->Ok_0;
    lemma_minted_part(st, go_in);
    rate::law_deposit_is_neutral(st, go_in);
    rate::law_exit_conserves(next, out);
    release::law_release_keeps_the_vault_sound(st, go_in.height);
    release::law_release_keeps_the_vault_sound(next, out.height);
    let drip = (next.pot - last.pot) as nat;
    law_gain_below_the_tithe_does_not_pay(d, r.active(), m, next.shares, drip, st.penalty_bps);
}

/// Going in before a boost and out after it does not pay, whatever the heights,
/// as long as the boost and what drips out of the pot in between are together
/// no more than what the tithe takes of the vault; where they are less, the
/// exit of the minted shares pays less than the deposit.
pub proof fn law_boosts_and_drips_below_the_tithe_do_not_pay(
    st: VaultState,
    go_in: Call,
    boost: Call,
    out: Call,
)
    requires
        st.wf(),
        go_in.height <= u64::MAX,
        boost.height <= u64::MAX,
        out.height <= u64::MAX,
        model::deposit(st, go_in) is Ok,
        ({
            let r = st.released(go_in.height);
            let d = model::incoming_underlying(st, go_in)->Ok_0;
            let next = model::deposit(st, go_in)->Ok_0.0;
            let boosted = model::donate_boost(next, boost)->Ok_0.0;
            let x = model::incoming_underlying(next, boost)->Ok_0;
            let drip = (next.pot - boosted.released(out.height).pot) as nat;
            &&& model::donate_boost(next, boost) is Ok
            &&& model::withdraw(boosted, out) is Ok
            &&& parcel::first_value(out.incoming, out.myself)->0 == model::minted(
                d,
                r.active(),
                r.shares,
            )->Ok_0
            &&& (x + drip) * (BPS - st.penalty_bps) <= st.penalty_bps * next.active()
        }),
    ensures
        ({
            let d = model::incoming_underlying(st, go_in)->Ok_0;
            let next = model::deposit(st, go_in)->Ok_0.0;
            let boosted = model::donate_boost(next, boost)->Ok_0.0;
            let x = model::incoming_underlying(next, boost)->Ok_0;
            let drip = (next.pot - boosted.released(out.height).pot) as nat;
            let paid = boosted.liquidity - model::withdraw(boosted, out)->Ok_0.0.liquidity;
            &&& paid <= d
            &&& (x + drip) * (BPS - st.penalty_bps) < st.penalty_bps * next.active() ==> paid < d
        }),
{
    let next = model::deposit(st, go_in)->Ok_0.0;
    let boosted = model::donate_boost(next, boost)->Ok_0.0;
    let last = boosted.released(out.height);
    let r = st.released(go_in.height);
    let d = model::incoming_underlying(st, go_in)->Ok_0;
    let m = model::minted(d, r.active(), r.shares)->Ok_0;
    let x = model::incoming_underlying(next, boost)->Ok_0;
    let drip = (next.pot - last.pot) as nat;
    lemma_minted_part(st, go_in);
    rate::law_deposit_is_neutral(st, go_in);
    rate::law_boost_lifts_the_rate(next, boost);
    rate::law_exit_conserves(boosted, out);
    release::law_release_keeps_the_vault_sound(next, boost.height);
    release::law_release_keeps_the_vault_sound(boosted, out.height);
    law_gain_below_the_tithe_does_not_pay(
        d,
        r.active(),
        m,
        next.shares,
        x + drip,
        st.penalty_bps,
    );
}

/// A race for a boost does not pay: whoever enters before a boost and leaves
/// after it, before another drip is due, gets at most the deposit back, as long
/// as the boost is no more than what the tithe takes of the vault, and less than
/// the deposit where the boost is less. At a tithe of 10% that is every boost
/// under a ninth of the vault.
pub proof fn law_racing_a_boost_does_not_pay(st: VaultState, go_in: Call, boost: Call, out: Call)
    requires
        st.wf(),
        go_in.height <= u64::MAX,
        boost.height <= u64::MAX,
        out.height <= u64::MAX,
        model::deposit(st, go_in) is Ok,
        ({
            let r = st.released(go_in.height);
            let d = model::incoming_underlying(st, go_in)->Ok_0;
            let next = model::deposit(st, go_in)->Ok_0.0;
            let boosted = model::donate_boost(next, boost)->Ok_0.0;
            let x = model::incoming_underlying(next, boost)->Ok_0;
            &&& boost.height < r.anchor + st.interval() || boost.height == go_in.height
            &&& out.height < r.anchor + st.interval() || out.height == go_in.height
            &&& model::donate_boost(next, boost) is Ok
            &&& model::withdraw(boosted, out) is Ok
            &&& parcel::first_value(out.incoming, out.myself)->0 == model::minted(
                d,
                r.active(),
                r.shares,
            )->Ok_0
            &&& x * (BPS - st.penalty_bps) <= st.penalty_bps * next.active()
        }),
    ensures
        ({
            let d = model::incoming_underlying(st, go_in)->Ok_0;
            let next = model::deposit(st, go_in)->Ok_0.0;
            let boosted = model::donate_boost(next, boost)->Ok_0.0;
            let x = model::incoming_underlying(next, boost)->Ok_0;
            let paid = boosted.liquidity - model::withdraw(boosted, out)->Ok_0.0.liquidity;
            &&& paid <= d
            &&& x * (BPS - st.penalty_bps) < st.penalty_bps * next.active() ==> paid < d
        }),
{
    let h = go_in.height;
    let next = model::deposit(st, go_in)->Ok_0.0;
    let boosted = model::donate_boost(next, boost)->Ok_0.0;
    if h > st.anchor {
        release::law_anchor_lands_on_the_last_drip(st, h);
    } else {
        assert(0 * st.interval() == 0);
    }
    release::law_no_drip_no_release(next, boost.height);
    release::law_no_drip_no_release(boosted, out.height);
    law_boosts_and_drips_below_the_tithe_do_not_pay(st, go_in, boost, out);
}

} // verus!
