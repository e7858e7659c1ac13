//! The vault.

use crate::bytes;
use crate::error::VaultError;
use crate::fixed;
use crate::laws;
use crate::message;
use crate::message::PermafrostMessage;
use crate::model;
use crate::model::{BPS, DEAD_SHARES};
use crate::parcel;
use crate::parcel::{AlkaneId, AlkaneTransfer, CallResponse, Context};
use vstd::prelude::*;

verus! {

/// What an instance keeps in storage, cell by cell.
#[derive(Debug)]
pub struct Cells {
    pub underlying: Option<AlkaneId>,
    pub penalty_bps: u128,
    pub name: Vec<u8>,
    pub symbol: Vec<u8>,
    pub drip_interval: u64,
    pub release_periods: u128,
    pub liquidity: u128,
    pub pot: u128,
    pub total_shares: u128,
    pub pot_anchor: u64,
}

impl View for Cells {
    type V = model::VaultState;

    open spec fn view(&self) -> model::VaultState {
        model::VaultState {
            underlying: self.underlying,
            penalty_bps: self.penalty_bps as nat,
            name: self.name@,
            symbol: self.symbol@,
            drip_interval: self.drip_interval as nat,
            release_periods: self.release_periods as nat,
            liquidity: self.liquidity as nat,
            pot: self.pot as nat,
            shares: self.total_shares as nat,
            anchor: self.pot_anchor as nat,
        }
    }
}

/// A perpetual vault for one fungible token.
#[derive(Debug)]
pub struct Permafrost {
    cells: Cells,
}

impl View for Permafrost {
    type V = model::VaultState;

    closed spec fn view(&self) -> model::VaultState {
        self.cells@
    }
}

impl Default for Permafrost {
    /// The vault before its setup.
    fn default() -> (r: Permafrost)
        ensures
            r@ == model::VaultState::blank(),
            r@.wf(),
    {
        Permafrost {
            cells: Cells {
                underlying: None,
                penalty_bps: 0,
                name: Vec::new(),
                symbol: Vec::new(),
                drip_interval: 0,
                release_periods: 0,
                liquidity: 0,
                pot: 0,
                total_shares: 0,
                pot_anchor: 0,
            },
        }
    }
}

/// Whether the handler of a call did what `expected` says: on success the
/// vault and the response are the expected ones, on refusal the error is and
/// the vault is as it was.
pub open spec fn handled(
    before: Permafrost,
    after: Permafrost,
    result: Result<CallResponse, VaultError>,
    expected: Result<(model::VaultState, model::Reply), VaultError>,
) -> bool {
    match expected {
        Ok((next, reply)) => {
            &&& after@ == next
            &&& result matches Ok(response) && response@ == reply
        },
        Err(e) => after == before && result == Err::<CallResponse, VaultError>(e),
    }
}

/// Whether a view answered what `expected` says.
pub open spec fn answered(
    result: Result<CallResponse, VaultError>,
    expected: Result<model::Reply, VaultError>,
) -> bool {
    match expected {
        Ok(reply) => result matches Ok(response) && response@ == reply,
        Err(e) => result == Err::<CallResponse, VaultError>(e),
    }
}

impl Permafrost {
    // Storage

    /// The vault that `cells` hold, if they are those of a vault.
    pub fn restore(cells: Cells) -> (r: Option<Permafrost>)
        ensures
            r is Some <==> cells@.wf(),
            r matches Some(vault) ==> vault@ == cells@,
    {
        if cells.pot > cells.liquidity || cells.total_shares > cells.liquidity - cells.pot {
            return None;
        }
        if cells.total_shares == 0 {
            if cells.liquidity != cells.pot {
                return None;
            }
        } else if cells.total_shares < DEAD_SHARES {
            return None;
        }
        if cells.penalty_bps > BPS {
            return None;
        }
        match cells.underlying {
            None => {
                if cells.liquidity != 0 {
                    return None;
                }
            },
            Some(id) => {
                if (id.block == 0 && id.tx == 0) || cells.drip_interval < 1
                    || cells.release_periods < 1 {
                    return None;
                }
            },
        }
        Some(Permafrost { cells })
    }

    /// The cells that hold the vault.
    pub fn into_cells(self) -> (r: Cells)
        ensures
            r@ == self@,
    {
        self.cells
    }

    /// The underlying token.
    pub fn underlying(&self) -> (r: Result<AlkaneId, VaultError>)
        ensures
            r == (match self@.underlying {
                Some(id) => Ok::<AlkaneId, VaultError>(id),
                None => Err(VaultError::NotInitialized),
            }),
    {
        match self.cells.underlying {
            Some(id) => Ok(id),
            None => Err(VaultError::NotInitialized),
        }
    }

    /// The share supply, dead shares included.
    pub fn total_shares(&self) -> (r: u128)
        ensures
            r == self@.shares,
    {
        self.cells.total_shares
    }

    fn set_total_shares(&mut self, value: u128)
        ensures
            final(self)@ == (model::VaultState { shares: value as nat, ..old(self)@ }),
    {
        self.cells.total_shares = value;
    }

    /// The liquidity, the pot included.
    pub fn liquidity(&self) -> (r: u128)
        ensures
            r == self@.liquidity,
    {
        self.cells.liquidity
    }

    fn set_liquidity(&mut self, value: u128)
        ensures
            final(self)@ == (model::VaultState { liquidity: value as nat, ..old(self)@ }),
    {
        self.cells.liquidity = value;
    }

    /// The pot as stored, pending drips not applied.
    pub fn pot(&self) -> (r: u128)
        ensures
            r == self@.pot,
    {
        self.cells.pot
    }

    fn set_pot(&mut self, value: u128)
        ensures
            final(self)@ == (model::VaultState { pot: value as nat, ..old(self)@ }),
    {
        self.cells.pot = value;
    }

    /// The drip anchor: the height up to which drips are taken out of the pot.
    pub fn pot_anchor(&self) -> (r: u64)
        ensures
            r == self@.anchor,
    {
        self.cells.pot_anchor
    }

    fn set_pot_anchor(&mut self, value: u64)
        ensures
            final(self)@ == (model::VaultState { anchor: value as nat, ..old(self)@ }),
    {
        self.cells.pot_anchor = value;
    }

    /// The tithe rate in basis points.
    pub fn penalty_bps(&self) -> (r: u128)
        ensures
            r == self@.penalty_bps,
    {
        self.cells.penalty_bps
    }

    /// Blocks per drip; one before the setup.
    pub fn drip_interval(&self) -> (r: u64)
        ensures
            r == self@.interval(),
    {
        if self.cells.drip_interval == 0 {
            1
        } else {
            self.cells.drip_interval
        }
    }

    /// Drips to empty the pot; one before the setup.
    pub fn release_periods(&self) -> (r: u128)
        ensures
            r == self@.periods(),
    {
        if self.cells.release_periods == 0 {
            1
        } else {
            self.cells.release_periods
        }
    }

    // Release

    /// The pot and the anchor after a release at height `h`. While no one
    /// stands, drips are consumed but nothing is released: the pot waits whole
    /// for the next generation.
    pub fn released_pot_at(&self, h: u64) -> (r: (u128, u64))
        ensures
            r.0 == self@.released(h as nat).pot,
            r.1 == self@.released(h as nat).anchor,
    {
        let interval = self.drip_interval();
        let h0 = self.pot_anchor();
        let e: u64 = if h <= h0 {
            0
        } else {
            (h - h0) / interval
        };
        proof {
            laws::release::lemma_drips_due(self@, h as nat);
            assert(0 * self@.interval() == 0);
            assert(e == self@.drips_due(h as nat));
        }
        let b = if self.total_shares() > DEAD_SHARES {
            fixed::pot_after_release(self.pot(), e, self.release_periods())
        } else {
            self.pot()
        };
        (b, h0 + e * interval)
    }

    /// The release at height `h`, the first step of every mutating operation;
    /// the pot after it. The anchor advances even where the pot is empty or
    /// frozen, so that a later tithe is never decayed by drips that predate it.
    pub fn release(&mut self, h: u64) -> (r: u128)
        ensures
            final(self)@ == old(self)@.released(h as nat),
            r == final(self)@.pot,
    {
        let (b, h0) = self.released_pot_at(h);
        self.set_pot(b);
        self.set_pot_anchor(h0);
        b
    }

    // Core math

    /// The shares that a deposit of `amount` mints where `s` shares stand for
    /// `active`. The first deposit mints one share per unit and burns the dead
    /// shares; a later one mints at the rate, rounded down.
    pub fn deposit_shares(&self, amount: u128, active: u128, s: u128) -> (r: Result<
        u128,
        VaultError,
    >)
        ensures
            match model::minted(amount as nat, active as nat, s as nat) {
                Ok(m) => r matches Ok(v) && v == m,
                Err(e) => r == Err::<u128, VaultError>(e),
            },
    {
        if s == 0 {
            if amount > DEAD_SHARES {
                Ok(amount - DEAD_SHARES)
            } else {
                Err(VaultError::FirstDepositTooSmall)
            }
        } else {
            match fixed::muldiv_floor(amount, s, active) {
                Ok(m) => if m > 0 {
                    Ok(m)
                } else {
                    Err(VaultError::DepositTooSmall)
                },
                Err(e) => Err(e),
            }
        }
    }

    /// The payout, the tithe and the pot after burning `b` of `s` shares of a
    /// vault with liquidity `l` and a pot of `pot`. The rule is the same for
    /// everyone, the very last exit included.
    pub fn exit_amounts(&self, b: u128, l: u128, pot: u128, s: u128) -> (r: Result<
        (u128, u128, u128),
        VaultError,
    >)
        requires
            pot <= l,
            self@.penalty_bps <= BPS,
            ({
                let w = model::worth(b as nat, (l - pot) as nat, s as nat);
                s > 0 && w <= u128::MAX ==> pot + model::tithe(w, self@.penalty_bps) <= u128::MAX
            }),
        ensures
            ({
                let w = model::worth(b as nat, (l - pot) as nat, s as nat);
                let t = model::tithe(w, self@.penalty_bps);
                if s == 0 {
                    r == Err::<(u128, u128, u128), VaultError>(VaultError::VaultEmpty)
                } else if w > u128::MAX {
                    r == Err::<(u128, u128, u128), VaultError>(VaultError::MuldivOverflow)
                } else {
                    r matches Ok(out) && out.0 == model::payout(w, self@.penalty_bps) && out.1 == t
                        && out.2 == pot + t
                }
            }),
    {
        if s == 0 {
            return Err(VaultError::VaultEmpty);
        }
        let active: u128 = l - pot;
        let w = match fixed::muldiv_floor(b, active, s) {
            Ok(w) => w,
            Err(e) => {
                return Err(e);
            },
        };
        proof {
            laws::rate::law_tithe_is_rounded_up(w as nat, self@.penalty_bps);
        }
        let tithe = match fixed::muldiv_ceil(w, self.penalty_bps(), BPS) {
            Ok(t) => t,
            Err(e) => {
                return Err(e);
            },
        };
        Ok((w - tithe, tithe, pot + tithe))
    }

    // Handlers

    /// Binds the underlying token and fixes the parameters, once and for all.
    pub fn initialize(
        &mut self,
        context: &Context,
        underlying: AlkaneId,
        penalty_bps: u128,
        name: u128,
        symbol: u128,
        drip_interval: u128,
        release_periods: u128,
    ) -> (r: Result<CallResponse, VaultError>)
        requires
            old(self)@.wf(),
        ensures
            final(self)@.wf(),
            handled(
                *old(self),
                *final(self),
                r,
                model::initialize(
                    old(self)@,
                    context@,
                    model::Setup {
                        underlying,
                        penalty_bps,
                        name,
                        symbol,
                        drip_interval,
                        release_periods,
                    },
                ),
            ),
    {
        if self.cells.underlying.is_some() {
            return Err(VaultError::AlreadyInitialized);
        }
        if penalty_bps > BPS {
            return Err(VaultError::TitheRateTooHigh);
        }
        if underlying.block == 0 && underlying.tx == 0 {
            return Err(VaultError::UnderlyingNotSet);
        }
        if underlying == context.myself {
            return Err(VaultError::UnderlyingIsVault);
        }
        if drip_interval < 1 || drip_interval > u64::MAX as u128 {
            return Err(VaultError::BadDripInterval);
        }
        if release_periods < 1 {
            return Err(VaultError::BadReleasePeriods);
        }
        self.cells.underlying = Some(underlying);
        self.cells.penalty_bps = penalty_bps;
        self.cells.name = bytes::text_bytes(&bytes::trim(name));
        self.cells.symbol = bytes::text_bytes(&bytes::trim(symbol));
        self.cells.drip_interval = drip_interval as u64;
        self.cells.release_periods = release_periods;
        self.set_pot_anchor(context.height);
        Ok(CallResponse::forward(&context.incoming_alkanes, Vec::new()))
    }

    /// The underlying that comes in with a call, and a response that refunds
    /// every other token and answers the amount. Callers may extend or
    /// overwrite the response.
    pub fn take_underlying(&self, context: &Context) -> (r: Result<
        (u128, CallResponse),
        VaultError,
    >)
        ensures
            match model::incoming_underlying(self@, context@) {
                Err(e) => r == Err::<(u128, CallResponse), VaultError>(e),
                Ok(d) => {
                    &&& r is Ok
                    &&& r->Ok_0.0 == d
                    &&& r->Ok_0.1@ == (model::Reply {
                        alkanes: parcel::without(
                            context.incoming_alkanes@,
                            self@.underlying->0,
                        ),
                        data: bytes::u128_bytes(d),
                    })
                },
            },
    {
        let underlying = match self.underlying() {
            Ok(id) => id,
            Err(e) => {
                return Err(e);
            },
        };
        let amount: u128 = match parcel::find_value(&context.incoming_alkanes, underlying) {
            Some(v) => v,
            None => {
                return Err(VaultError::NoUnderlying);
            },
        };
        if amount == 0 {
            return Err(VaultError::ZeroUnderlying);
        }
        let alkanes = parcel::refund_others(&context.incoming_alkanes, underlying);
        Ok((amount, CallResponse { alkanes, data: bytes::u128_le_bytes(amount) }))
    }

    /// Takes the incoming underlying in and mints shares at the rate after the
    /// release.
    pub fn deposit(&mut self, context: &Context) -> (r: Result<CallResponse, VaultError>)
        requires
            old(self)@.wf(),
        ensures
            final(self)@.wf(),
            handled(*old(self), *final(self), r, model::deposit(old(self)@, context@)),
    {
        let (amount, mut response) = match self.take_underlying(context) {
            Ok(taken) => taken,
            Err(e) => {
                return Err(e);
            },
        };
        proof {
            laws::release::law_release_keeps_the_vault_sound(self@, context.height as nat);
        }
        let (pot, anchor) = self.released_pot_at(context.height);
        let s = self.total_shares();
        let l = self.liquidity();
        let minted = match self.deposit_shares(amount, l - pot, s) {
            Ok(m) => m,
            Err(e) => {
                return Err(e);
            },
        };
        // Genesis credits the full amount to the supply: the user's shares and
        // the dead shares.
        let supply_delta = if s == 0 {
            amount
        } else {
            minted
        };
        let shares = match s.checked_add(supply_delta) {
            Some(v) => v,
            None => {
                return Err(VaultError::ShareSupplyOverflow);
            },
        };
        let liquidity = match l.checked_add(amount) {
            Some(v) => v,
            None => {
                return Err(VaultError::LiquidityOverflow);
            },
        };
        proof {
            laws::rate::law_deposit_is_neutral(self@, context@);
        }
        self.set_pot(pot);
        self.set_pot_anchor(anchor);
        self.set_total_shares(shares);
        self.set_liquidity(liquidity);
        response.alkanes.push(AlkaneTransfer { id: context.myself, value: minted });
        response.data = bytes::u128_le_bytes(minted);
        Ok(response)
    }

    /// Burns the incoming shares and pays out what they are worth after the
    /// release, minus the tithe, which goes into the pot.
    pub fn withdraw(&mut self, context: &Context) -> (r: Result<CallResponse, VaultError>)
        requires
            old(self)@.wf(),
        ensures
            final(self)@.wf(),
            handled(*old(self), *final(self), r, model::withdraw(old(self)@, context@)),
    {
        let b: u128 = match parcel::find_value(&context.incoming_alkanes, context.myself) {
            Some(v) => v,
            None => {
                return Err(VaultError::NoShares);
            },
        };
        if b == 0 {
            return Err(VaultError::ZeroShares);
        }
        proof {
            laws::release::law_release_keeps_the_vault_sound(self@, context.height as nat);
        }
        let (pot, anchor) = self.released_pot_at(context.height);
        let s = self.total_shares();
        let l = self.liquidity();
        // Dead shares never circulate, so this holds of every honest call; an
        // inflated amount would drain the vault.
        match b.checked_add(DEAD_SHARES) {
            Some(t) => {
                if t > s {
                    return Err(VaultError::ExceedsCirculatingSupply);
                }
            },
            None => {
                return Err(VaultError::ExceedsCirculatingSupply);
            },
        }
        proof {
            let a = (l - pot) as nat;
            let w = model::worth(b as nat, a, s as nat);
            laws::rate::law_worth_is_rounded_down(b as nat, a, s as nat);
            laws::rate::law_tithe_is_rounded_up(w, self@.penalty_bps);
            laws::rate::law_exit_is_neutral(self@, context@);
        }
        let (payout, tithe, pot_after) = match self.exit_amounts(b, l, pot, s) {
            Ok(out) => out,
            Err(e) => {
                return Err(e);
            },
        };
        let underlying = match self.underlying() {
            Ok(id) => id,
            Err(e) => {
                return Err(e);
            },
        };
        self.set_pot_anchor(anchor);
        self.set_total_shares(s - b);
        self.set_liquidity(l - payout);
        self.set_pot(pot_after);
        // Everything that is not the shares being burned goes back.
        let mut alkanes = parcel::refund_others(&context.incoming_alkanes, context.myself);
        if payout > 0 {
            alkanes.push(AlkaneTransfer { id: underlying, value: payout });
        }
        let mut data = bytes::u128_le_bytes(payout);
        let mut tithe_data = bytes::u128_le_bytes(tithe);
        data.append(&mut tithe_data);
        Ok(CallResponse { alkanes, data })
    }

    /// Takes the incoming underlying into the pot. Where no one stands it
    /// waits there whole.
    pub fn donate_pot(&mut self, context: &Context) -> (r: Result<CallResponse, VaultError>)
        requires
            old(self)@.wf(),
        ensures
            final(self)@.wf(),
            handled(*old(self), *final(self), r, model::donate_pot(old(self)@, context@)),
    {
        let (amount, response) = match self.take_underlying(context) {
            Ok(taken) => taken,
            Err(e) => {
                return Err(e);
            },
        };
        proof {
            laws::release::law_release_keeps_the_vault_sound(self@, context.height as nat);
        }
        let (pot, anchor) = self.released_pot_at(context.height);
        let liquidity = match self.liquidity().checked_add(amount) {
            Some(v) => v,
            None => {
                return Err(VaultError::LiquidityOverflow);
            },
        };
        let pot_after = match pot.checked_add(amount) {
            Some(v) => v,
            None => {
                return Err(VaultError::PotOverflow);
            },
        };
        proof {
            laws::rate::law_pot_donation_is_neutral(self@, context@);
        }
        self.set_pot_anchor(anchor);
        self.set_liquidity(liquidity);
        self.set_pot(pot_after);
        Ok(response)
    }

    /// Takes the incoming underlying straight into the rate, for those who
    /// stand now. Before the first deposit the first depositor would swallow
    /// it whole, in a dead vault it would be locked forever: both are refused.
    pub fn donate_boost(&mut self, context: &Context) -> (r: Result<CallResponse, VaultError>)
        requires
            old(self)@.wf(),
        ensures
            final(self)@.wf(),
            handled(*old(self), *final(self), r, model::donate_boost(old(self)@, context@)),
    {
        let (amount, response) = match self.take_underlying(context) {
            Ok(taken) => taken,
            Err(e) => {
                return Err(e);
            },
        };
        if self.total_shares() <= DEAD_SHARES {
            return Err(VaultError::NoOneStanding);
        }
        let (pot, anchor) = self.released_pot_at(context.height);
        let liquidity = match self.liquidity().checked_add(amount) {
            Some(v) => v,
            None => {
                return Err(VaultError::LiquidityOverflow);
            },
        };
        proof {
            laws::rate::law_boost_lifts_the_rate(self@, context@);
        }
        self.set_pot(pot);
        self.set_pot_anchor(anchor);
        self.set_liquidity(liquidity);
        Ok(response)
    }

    // Views

    /// Answers the token name.
    pub fn get_name(&self, context: &Context) -> (r: Result<CallResponse, VaultError>)
        ensures
            answered(r, Ok(model::forward(context@, self@.name))),
    {
        let data = vstd::slice::slice_to_vec(self.cells.name.as_slice());
        Ok(CallResponse::forward(&context.incoming_alkanes, data))
    }

    /// Answers the token symbol.
    pub fn get_symbol(&self, context: &Context) -> (r: Result<CallResponse, VaultError>)
        ensures
            answered(r, Ok(model::forward(context@, self@.symbol))),
    {
        let data = vstd::slice::slice_to_vec(self.cells.symbol.as_slice());
        Ok(CallResponse::forward(&context.incoming_alkanes, data))
    }

    /// Answers the share supply.
    pub fn get_total_shares(&self, context: &Context) -> (r: Result<CallResponse, VaultError>)
        ensures
            answered(r, Ok(model::forward(context@, bytes::u128_bytes(self@.shares)))),
    {
        let data = bytes::u128_le_bytes(self.total_shares());
        Ok(CallResponse::forward(&context.incoming_alkanes, data))
    }

    /// Answers the liquidity.
    pub fn get_vault_balance(&self, context: &Context) -> (r: Result<CallResponse, VaultError>)
        ensures
            answered(r, Ok(model::forward(context@, bytes::u128_bytes(self@.liquidity)))),
    {
        Ok(CallResponse::forward(&context.incoming_alkanes, bytes::u128_le_bytes(self.liquidity())))
    }

    /// Answers the tithe rate.
    pub fn get_penalty_bps(&self, context: &Context) -> (r: Result<CallResponse, VaultError>)
        ensures
            answered(r, Ok(model::forward(context@, bytes::u128_bytes(self@.penalty_bps)))),
    {
        let data = bytes::u128_le_bytes(self.penalty_bps());
        Ok(CallResponse::forward(&context.incoming_alkanes, data))
    }

    /// Answers the underlying id: block and tx, in 32 bytes.
    pub fn get_underlying(&self, context: &Context) -> (r: Result<CallResponse, VaultError>)
        ensures
            answered(r, model::get_underlying(self@, context@)),
    {
        let underlying = match self.underlying() {
            Ok(id) => id,
            Err(e) => {
                return Err(e);
            },
        };
        let mut data = bytes::u128_le_bytes(underlying.block);
        let mut tx_data = bytes::u128_le_bytes(underlying.tx);
        data.append(&mut tx_data);
        Ok(CallResponse::forward(&context.incoming_alkanes, data))
    }

    /// Answers the pot as stored.
    pub fn get_pot(&self, context: &Context) -> (r: Result<CallResponse, VaultError>)
        ensures
            answered(r, Ok(model::forward(context@, bytes::u128_bytes(self@.pot)))),
    {
        Ok(CallResponse::forward(&context.incoming_alkanes, bytes::u128_le_bytes(self.pot())))
    }

    /// Answers the liquidity, the pot and the share supply as stored, in 48
    /// bytes. It is never refused and answers zeros before the setup; pending
    /// drips are not applied.
    pub fn get_state(&self, context: &Context) -> (r: Result<CallResponse, VaultError>)
        ensures
            answered(r, Ok(model::forward(context@, model::state_bytes(self@)))),
    {
        let mut data = bytes::u128_le_bytes(self.liquidity());
        let mut pot_data = bytes::u128_le_bytes(self.pot());
        let mut shares_data = bytes::u128_le_bytes(self.total_shares());
        data.append(&mut pot_data);
        data.append(&mut shares_data);
        Ok(CallResponse::forward(&context.incoming_alkanes, data))
    }

    /// Answers the drip anchor.
    pub fn get_pot_anchor(&self, context: &Context) -> (r: Result<CallResponse, VaultError>)
        ensures
            answered(r, Ok(model::forward(context@, bytes::u128_bytes(self@.anchor)))),
    {
        let data = bytes::u128_le_bytes(self.pot_anchor() as u128);
        Ok(CallResponse::forward(&context.incoming_alkanes, data))
    }

    /// Answers the blocks per drip.
    pub fn get_drip_interval(&self, context: &Context) -> (r: Result<CallResponse, VaultError>)
        ensures
            answered(r, Ok(model::forward(context@, bytes::u128_bytes(self@.interval())))),
    {
        let data = bytes::u128_le_bytes(self.drip_interval() as u128);
        Ok(CallResponse::forward(&context.incoming_alkanes, data))
    }

    /// Answers the drips to empty the pot.
    pub fn get_release_periods(&self, context: &Context) -> (r: Result<CallResponse, VaultError>)
        ensures
            answered(r, Ok(model::forward(context@, bytes::u128_bytes(self@.periods())))),
    {
        let data = bytes::u128_le_bytes(self.release_periods());
        Ok(CallResponse::forward(&context.incoming_alkanes, data))
    }

    /// Answers the token image, which is the same for every instance.
    pub fn get_data(&self, context: &Context, logo: &[u8]) -> (r: Result<
        CallResponse,
        VaultError,
    >)
        ensures
            answered(r, Ok(model::forward(context@, logo@))),
    {
        Ok(CallResponse::forward(&context.incoming_alkanes, vstd::slice::slice_to_vec(logo)))
    }

    /// Answers the shares that a deposit of `amount` would mint at the height of
    /// the call.
    pub fn quote_deposit(&self, context: &Context, amount: u128) -> (r: Result<
        CallResponse,
        VaultError,
    >)
        requires
            self@.wf(),
        ensures
            answered(r, model::quote_deposit(self@, context@, amount)),
    {
        proof {
            laws::release::law_release_keeps_the_vault_sound(self@, context.height as nat);
        }
        let (pot, _) = self.released_pot_at(context.height);
        match self.deposit_shares(amount, self.liquidity() - pot, self.total_shares()) {
            Ok(minted) => Ok(
                CallResponse::forward(&context.incoming_alkanes, bytes::u128_le_bytes(minted)),
            ),
            Err(e) => Err(e),
        }
    }

    /// Answers the payout and the tithe that an exit of `shares` would give at
    /// the height of the call.
    pub fn quote_withdraw(&self, context: &Context, shares: u128) -> (r: Result<
        CallResponse,
        VaultError,
    >)
        requires
            self@.wf(),
        ensures
            answered(r, model::quote_withdraw(self@, context@, shares)),
    {
        let s = self.total_shares();
        if shares == 0 {
            return Err(VaultError::InvalidShareAmount);
        }
        match shares.checked_add(DEAD_SHARES) {
            Some(t) => {
                if t > s {
                    return Err(VaultError::InvalidShareAmount);
                }
            },
            None => {
                return Err(VaultError::InvalidShareAmount);
            },
        }
        proof {
            laws::release::law_release_keeps_the_vault_sound(self@, context.height as nat);
            let a = self@.released(context.height as nat).active();
            let w = model::worth(shares as nat, a, s as nat);
            laws::rate::law_worth_is_rounded_down(shares as nat, a, s as nat);
            laws::rate::law_tithe_is_rounded_up(w, self@.penalty_bps);
        }
        let (pot, _) = self.released_pot_at(context.height);
        match self.exit_amounts(shares, self.liquidity(), pot, s) {
            Ok((payout, tithe, _)) => {
                let mut data = bytes::u128_le_bytes(payout);
                let mut tithe_data = bytes::u128_le_bytes(tithe);
                data.append(&mut tithe_data);
                Ok(CallResponse::forward(&context.incoming_alkanes, data))
            },
            Err(e) => Err(e),
        }
    }

    /// Answers a call; `logo` is the token image.
    pub fn dispatch(
        &mut self,
        message: PermafrostMessage,
        context: &Context,
        logo: &[u8],
    ) -> (r: Result<CallResponse, VaultError>)
        requires
            old(self)@.wf(),
        ensures
            final(self)@.wf(),
            handled(
                *old(self),
                *final(self),
                r,
                message::effect(old(self)@, message, context@, logo@),
            ),
    {
        match message {
            PermafrostMessage::Initialize {
                underlying,
                penalty_bps,
                name,
                symbol,
                drip_interval,
                release_periods,
            } => self.initialize(
                context,
                underlying,
                penalty_bps,
                name,
                symbol,
                drip_interval,
                release_periods,
            ),
            PermafrostMessage::Deposit => self.deposit(context),
            PermafrostMessage::Withdraw => self.withdraw(context),
            PermafrostMessage::DonatePot => self.donate_pot(context),
            PermafrostMessage::DonateBoost => self.donate_boost(context),
            PermafrostMessage::GetName => self.get_name(context),
            PermafrostMessage::GetSymbol => self.get_symbol(context),
            PermafrostMessage::GetTotalShares => self.get_total_shares(context),
            PermafrostMessage::GetVaultBalance => self.get_vault_balance(context),
            PermafrostMessage::GetPenaltyBps => self.get_penalty_bps(context),
            PermafrostMessage::GetUnderlying => self.get_underlying(context),
            PermafrostMessage::QuoteDeposit { amount } => self.quote_deposit(context, amount),
            PermafrostMessage::QuoteWithdraw { shares } => self.quote_withdraw(context, shares),
            PermafrostMessage::GetPot => self.get_pot(context),
            PermafrostMessage::GetState => self.get_state(context),
            PermafrostMessage::GetPotAnchor => self.get_pot_anchor(context),
            PermafrostMessage::GetDripInterval => self.get_drip_interval(context),
            PermafrostMessage::GetReleasePeriods => self.get_release_periods(context),
            PermafrostMessage::GetData => self.get_data(context, logo),
        }
    }
}

} // verus!
