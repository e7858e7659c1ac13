//! What holds through every call and every history of calls.

use crate::laws::rate;
use crate::laws::release;
use crate::message;
use crate::message::PermafrostMessage;
use crate::model;
use crate::model::{Call, VaultState, DEAD_SHARES};
use vstd::prelude::*;

verus! {

/// A call as it reaches the vault.
pub struct Step {
    pub message: PermafrostMessage,
    pub call: Call,
    pub logo: Seq<u8>,
}

/// The vault after a call; a refused call leaves it as it was.
pub open spec fn after_step(st: VaultState, step: Step) -> VaultState {
    match message::effect(st, step.message, step.call, step.logo) {
        Ok((next, reply)) => next,
        Err(e) => st,
    }
}

/// The vault after a history of calls, the first call first.
pub open spec fn after_history(st: VaultState, steps: Seq<Step>) -> VaultState
    decreases steps.len(),
{
    if steps.len() == 0 {
        st
    } else {
        after_step(after_history(st, steps.drop_last()), steps.last())
    }
}

/// Whether every call of a history has a 64-bit height.
pub open spec fn heights_fit(steps: Seq<Step>) -> bool {
    forall|i: int| 0 <= i < steps.len() ==> #[trigger] steps[i].call.height <= u64::MAX
}

/// Whether two states of the vault have the same parameters.
pub open spec fn same_parameters(a: VaultState, b: VaultState) -> bool {
    &&& a.underlying == b.underlying
    &&& a.penalty_bps == b.penalty_bps
    &&& a.name == b.name
    &&& a.symbol == b.symbol
    &&& a.drip_interval == b.drip_interval
    &&& a.release_periods == b.release_periods
}

/// Whether a message only asks.
pub open spec fn is_view(message: PermafrostMessage) -> bool {
    !(message is Initialize) && !(message is Deposit) && !(message is Withdraw) && !(
    message is DonatePot) && !(message is DonateBoost)
}

/// A view changes nothing, hands every incoming token back, and is refused
/// only where it asks for the underlying before the setup or for a quote that
/// cannot be given.
pub proof fn law_views_change_nothing(st: VaultState, step: Step)
    requires
        is_view(step.message),
    ensures
        after_step(st, step) == st,
        message::effect(st, step.message, step.call, step.logo) matches Ok(out)
            ==> out.1.alkanes == step.call.incoming,
        message::effect(st, step.message, step.call, step.logo) is Err ==> step.message
            is GetUnderlying || step.message is QuoteDeposit || step.message is QuoteWithdraw,
{
}

/// Whatever the call, the vault stays sound, the rate does not fall, shares
/// once issued never vanish altogether, and the parameters of a vault that is
/// set up do not change.
pub proof fn law_every_call_keeps_the_vault(st: VaultState, step: Step)
    requires
        st.wf(),
        step.call.height <= u64::MAX,
    ensures
        after_step(st, step).wf(),
        rate::rate_not_below(after_step(st, step), st),
        st.shares > 0 ==> after_step(st, step).shares >= DEAD_SHARES,
        st.underlying is Some ==> same_parameters(after_step(st, step), st),
{
    let (message, call) = (step.message, step.call);
    assert(st.active() * st.shares == st.active() * st.shares);
    if message::effect(st, message, call, step.logo) is Ok {
        release::law_release_keeps_the_vault_sound(st, call.height);
        match message {
            PermafrostMessage::Initialize {
                underlying,
                penalty_bps,
                name,
                symbol,
                drip_interval,
                release_periods,
            } => {
                assert(0 * 0 == 0);
            },
            PermafrostMessage::Deposit => {
                rate::law_deposit_is_neutral(st, call);
            },
            PermafrostMessage::Withdraw => {
                rate::law_exit_is_neutral(st, call);
            },
            PermafrostMessage::DonatePot => {
                rate::law_pot_donation_is_neutral(st, call);
            },
            PermafrostMessage::DonateBoost => {
                rate::law_boost_lifts_the_rate(st, call);
            },
            _ => {
                law_views_change_nothing(st, step);
            },
        }
    }
}

/// A rate that is not below one that is not below a third is not below it.
proof fn lemma_rates_chain(a: VaultState, b: VaultState, c: VaultState)
    requires
        a.wf(),
        rate::rate_not_below(b, a),
        rate::rate_not_below(c, b),
        a.shares > 0 ==> b.shares > 0,
    ensures
        rate::rate_not_below(c, a),
{
    let (a1, s1) = (a.active(), a.shares);
    let (a2, s2) = (b.active(), b.shares);
    let (a3, s3) = (c.active(), c.shares);
    if s1 == 0 {
        assert(a3 * 0 == 0 && 0 * s3 == 0);
    } else {
        assert((a3 * s2) * s1 >= (a2 * s3) * s1) by (nonlinear_arith)
            requires
                a3 * s2 >= a2 * s3,
        ;
        assert((a2 * s1) * s3 >= (a1 * s2) * s3) by (nonlinear_arith)
            requires
                a2 * s1 >= a1 * s2,
        ;
        assert((a2 * s3) * s1 == (a2 * s1) * s3) by (nonlinear_arith);
        assert((a3 * s2) * s1 == (a3 * s1) * s2) by (nonlinear_arith);
        assert((a1 * s2) * s3 == (a1 * s3) * s2) by (nonlinear_arith);
        assert(a3 * s1 >= a1 * s3) by (nonlinear_arith)
            requires
                (a3 * s1) * s2 >= (a1 * s3) * s2,
                s2 > 0,
        ;
    }
}

/// Through any history of calls the vault stays sound and the rate never
/// decreases; once there are shares, at least the dead ones remain; and once
/// the vault is set up, its parameters never change.
pub proof fn law_history_keeps_the_vault(st: VaultState, steps: Seq<Step>)
    requires
        st.wf(),
        heights_fit(steps),
    ensures
        after_history(st, steps).wf(),
        rate::rate_not_below(after_history(st, steps), st),
        st.shares > 0 ==> after_history(st, steps).shares >= DEAD_SHARES,
        st.underlying is Some ==> same_parameters(after_history(st, steps), st),
    decreases steps.len(),
{
    if steps.len() > 0 {
        let init = steps.drop_last();
        let mid = after_history(st, init);
        assert forall|i: int| 0 <= i < init.len() implies #[trigger] init[i].call.height
            <= u64::MAX by {
            assert(init[i] == steps[i]);
        }
        law_history_keeps_the_vault(st, init);
        law_every_call_keeps_the_vault(mid, steps.last());
        lemma_rates_chain(st, mid, after_step(mid, steps.last()));
    }
}

/// A vault that starts blank is sound after any history of calls: the pot is
/// part of the liquidity, every share stands for at least one unit, and the
/// supply is zero or holds the dead shares.
pub proof fn law_reachable_vaults_are_sound(steps: Seq<Step>)
    requires
        heights_fit(steps),
    ensures
        ({
            let st = after_history(VaultState::blank(), steps);
            &&& st.wf()
            &&& st.pot <= st.liquidity
            &&& st.active() >= st.shares
            &&& st.shares == 0 || st.shares >= DEAD_SHARES
        }),
{
    law_history_keeps_the_vault(VaultState::blank(), steps);
}

/// Every operation settles the drips that are due: at the height of a deposit,
/// an exit or a donation nothing is left to release, so what the operation put
/// into the pot is never decayed by drips that predate it.
pub proof fn law_every_operation_settles_the_drips(st: VaultState, step: Step)
    requires
        st.wf(),
        step.call.height <= u64::MAX,
        step.message is Deposit || step.message is Withdraw || step.message is DonatePot
            || step.message is DonateBoost,
        message::effect(st, step.message, step.call, step.logo) is Ok,
    ensures
        after_step(st, step).anchor == st.released(step.call.height).anchor,
        after_step(st, step).drips_due(step.call.height) == 0,
        after_step(st, step).released(step.call.height) == after_step(st, step),
{
    let h = step.call.height;
    let next = after_step(st, step);
    if h > st.anchor {
        release::law_anchor_lands_on_the_last_drip(st, h);
    } else {
        assert(0 * st.interval() == 0);
    }
    release::law_no_drip_no_release(next, h);
    release::lemma_drips_due(next, h);
    let (e, i) = (next.drips_due(h), next.interval());
    if h > next.anchor {
        assert(e == 0) by (nonlinear_arith)
            requires
                e * i < i,
                e >= 0,
                i > 0,
        ;
    }
}

/// The first deposit credits its whole amount: the depositor's shares and the
/// dead shares make up one share per unit, and what tribute waited in the pot
/// stays there.
pub proof fn law_genesis_mints_one_to_one(st: VaultState, call: Call)
    requires
        st.wf(),
        call.height <= u64::MAX,
        st.shares == 0,
        model::deposit(st, call) is Ok,
    ensures
        ({
            let next = model::deposit(st, call)->Ok_0.0;
            let d = model::incoming_underlying(st, call)->Ok_0;
            &&& d > DEAD_SHARES
            &&& model::minted(d, 0, 0) == Ok::<nat, crate::error::VaultError>(
                (d - DEAD_SHARES) as nat,
            )
            &&& next.shares == d
            &&& next.active() == d
            &&& next.pot == st.pot
        }),
{
}

/// A donation into the pot is taken at any time after the setup, also while no
/// one stands; only a liquidity beyond 128 bits refuses it.
pub proof fn law_pot_donations_are_always_taken(st: VaultState, call: Call)
    requires
        st.wf(),
        call.height <= u64::MAX,
        model::incoming_underlying(st, call) is Ok,
        st.liquidity + model::incoming_underlying(st, call)->Ok_0 <= u128::MAX,
    ensures
        model::donate_pot(st, call) is Ok,
{
    release::law_release_keeps_the_vault_sound(st, call.height);
}

} // verus!
