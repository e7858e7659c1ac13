//! What holds of the release, the first step of every operation.

use crate::fixed;
use crate::laws::decay;
use crate::model::VaultState;
use vstd::prelude::*;

verus! {

/// The drips due at height `h` fill the time since the anchor up to less than
/// one interval.
pub proof fn lemma_drips_due(st: VaultState, h: nat)
    ensures
        h <= st.anchor ==> st.drips_due(h) == 0,
        h > st.anchor ==> st.anchor + st.drips_due(h) * st.interval() <= h,
        h > st.anchor ==> h < st.anchor + (st.drips_due(h) + 1) * st.interval(),
{
    if h > st.anchor {
        let n = (h - st.anchor) as nat;
        let i = st.interval();
        vstd::arithmetic::div_mod::lemma_fundamental_div_mod(n as int, i as int);
        vstd::arithmetic::div_mod::lemma_mod_bound(n as int, i as int);
        let e = n / i;
        assert(i * e == e * i) by (nonlinear_arith);
        assert((e + 1) * i == e * i + i) by (nonlinear_arith);
    }
}

/// The release keeps the invariant, touches nothing but the pot and the
/// anchor, and only ever lowers the pot and raises the anchor. So it only ever
/// raises what the shares stand for.
pub proof fn law_release_keeps_the_vault_sound(st: VaultState, h: nat)
    requires
        st.wf(),
        h <= u64::MAX,
    ensures
        st.released(h).wf(),
        st.released(h) == (VaultState {
            pot: st.released(h).pot,
            anchor: st.released(h).anchor,
            ..st
        }),
        st.released(h).pot <= st.pot,
        st.released(h).active() >= st.active(),
        st.released(h).anchor >= st.anchor,
{
    lemma_drips_due(st, h);
    let e = st.drips_due(h);
    assert(e * st.interval() >= 0) by (nonlinear_arith);
    assert(0 * st.interval() == 0);
    fixed::lemma_decayed_pot_bound(st.pot, e, st.periods());
}

/// While no one stands the pot is frozen: the drips are consumed, and not a
/// unit leaves the pot.
pub proof fn law_pot_is_frozen_while_no_one_stands(st: VaultState, h: nat)
    requires
        !st.stands(),
    ensures
        st.released(h).pot == st.pot,
        st.released(h).anchor == st.anchor + st.drips_due(h) * st.interval(),
{
}

/// The anchor lands on the last drip that is due: on a whole number of
/// intervals from where it was, not past the height, and less than one
/// interval before it.
pub proof fn law_anchor_lands_on_the_last_drip(st: VaultState, h: nat)
    requires
        st.anchor <= h,
    ensures
        st.released(h).anchor == st.anchor + st.drips_due(h) * st.interval(),
        st.released(h).anchor <= h < st.released(h).anchor + st.interval(),
{
    lemma_drips_due(st, h);
    let (e, i) = (st.drips_due(h), st.interval());
    assert((e + 1) * i == e * i + i) by (nonlinear_arith);
    assert(0 * i == 0);
}

/// Between two drips there is nothing to release.
pub proof fn law_no_drip_no_release(st: VaultState, h: nat)
    requires
        h < st.anchor + st.interval(),
    ensures
        st.released(h) == st,
{
    lemma_drips_due(st, h);
    let (e, i) = (st.drips_due(h), st.interval());
    if h > st.anchor {
        assert(e == 0) by (nonlinear_arith)
            requires
                e * i < i,
                e >= 0,
                i > 0,
        ;
    }
    assert(0 * i == 0);
}

/// A release at a height leaves nothing to release at that height.
pub proof fn law_release_is_idempotent(st: VaultState, h: nat)
    ensures
        st.released(h).released(h) == st.released(h),
{
    if h > st.anchor {
        law_anchor_lands_on_the_last_drip(st, h);
    } else {
        assert(0 * st.interval() == 0);
    }
    law_no_drip_no_release(st.released(h), h);
}

/// Releasing on the way consumes no drip twice and defers none: the anchor
/// ends where one release at the end puts it.
pub proof fn law_anchor_does_not_depend_on_the_stops(st: VaultState, mid: nat, h: nat)
    requires
        mid <= h,
    ensures
        st.released(mid).released(h).anchor == st.released(h).anchor,
        st.drips_due(mid) + st.released(mid).drips_due(h) == st.drips_due(h),
{
    let r = st.released(mid);
    let i = st.interval();
    let (e1, e2, e) = (st.drips_due(mid), r.drips_due(h), st.drips_due(h));
    lemma_drips_due(st, mid);
    lemma_drips_due(r, h);
    lemma_drips_due(st, h);
    assert(r.interval() == i);
    assert(0 * i == 0);
    if h > st.anchor {
        if mid > st.anchor {
            law_anchor_lands_on_the_last_drip(st, mid);
        }
        assert(r.anchor <= h);
        law_anchor_lands_on_the_last_drip(r, h);
        assert((e1 + e2) * i == e1 * i + e2 * i) by (nonlinear_arith);
        assert(e1 + e2 == e) by (nonlinear_arith)
            requires
                (e1 + e2) * i <= h - st.anchor,
                h - st.anchor < (e1 + e2) * i + i,
                e * i <= h - st.anchor,
                h - st.anchor < (e + 1) * i,
                i > 0,
        ;
    }
}

/// The later the height, the smaller the pot after the release.
pub proof fn law_waiting_never_fills_the_pot(st: VaultState, h: nat, later: nat)
    requires
        h <= later,
    ensures
        st.drips_due(h) <= st.drips_due(later),
        st.released(later).pot <= st.released(h).pot,
{
    let i = st.interval();
    if h > st.anchor {
        vstd::arithmetic::div_mod::lemma_div_is_ordered(
            h - st.anchor,
            later - st.anchor,
            i as int,
        );
    }
    decay::law_pot_is_monotone_in_drips(
        st.pot,
        st.drips_due(h),
        st.drips_due(later),
        st.periods(),
    );
}

/// Of two vaults that differ in their horizon alone, the one with the shorter
/// horizon has released at least as much at every height: no more is left in
/// its pot, and its shares stand for no less.
pub proof fn law_shorter_horizon_releases_sooner(
    st: VaultState,
    shorter: nat,
    longer: nat,
    h: nat,
)
    requires
        st.wf(),
        shorter <= longer,
    ensures
        ({
            let soon = (VaultState { release_periods: shorter, ..st }).released(h);
            let late = (VaultState { release_periods: longer, ..st }).released(h);
            &&& soon.pot <= late.pot
            &&& soon.active() >= late.active()
            &&& soon.anchor == late.anchor
        }),
{
    let (p, q) = (fixed::horizon(shorter), fixed::horizon(longer));
    decay::law_shorter_horizon_weakens_the_forfeit(st.pot, st.drips_due(h), p, q);
    fixed::lemma_decayed_pot_bound(st.pot, st.drips_due(h), q);
}

} // verus!
