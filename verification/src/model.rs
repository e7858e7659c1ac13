//! The vault as a mathematical state machine.
//!
//! `L` is the liquidity, `B` the pot, `S` the share supply and `h0` the drip
//! anchor. The share rate is `(L - B) / S`.

use crate::bytes;
use crate::error::VaultError;
use crate::fixed;
use crate::parcel;
use crate::parcel::{AlkaneId, AlkaneTransfer};
use vstd::prelude::*;

verus! {

/// Basis-point denominator: a tithe rate of 1000 is 10%.
pub const BPS: u128 = 10_000;

/// Genesis shares burned on the first deposit. They never circulate, keep the
/// share supply above zero forever, and bound the dust the last exit leaves.
pub const DEAD_SHARES: u128 = 1_000;

/// What goes into a call.
pub struct Call {
    pub myself: AlkaneId,
    pub incoming: Seq<AlkaneTransfer>,
    pub height: nat,
}

/// What comes out of a call.
pub struct Reply {
    pub alkanes: Seq<AlkaneTransfer>,
    pub data: Seq<u8>,
}

/// The parameters of an instance, as they are handed to its setup.
pub struct Setup {
    pub underlying: AlkaneId,
    pub penalty_bps: u128,
    pub name: u128,
    pub symbol: u128,
    pub drip_interval: u128,
    pub release_periods: u128,
}

/// What the vault stores.
pub struct VaultState {
    /// The token that the vault wraps; none before the setup.
    pub underlying: Option<AlkaneId>,
    pub penalty_bps: nat,
    pub name: Seq<u8>,
    pub symbol: Seq<u8>,
    pub drip_interval: nat,
    pub release_periods: nat,
    pub liquidity: nat,
    pub pot: nat,
    pub shares: nat,
    pub anchor: nat,
}

impl VaultState {
    /// The vault before its setup.
    pub open spec fn blank() -> VaultState {
        VaultState {
            underlying: None,
            penalty_bps: 0,
            name: Seq::empty(),
            symbol: Seq::empty(),
            drip_interval: 0,
            release_periods: 0,
            liquidity: 0,
            pot: 0,
            shares: 0,
            anchor: 0,
        }
    }

    /// What holds of the vault at all times.
    pub open spec fn wf(self) -> bool {
        &&& self.liquidity <= u128::MAX
        &&& self.pot <= self.liquidity
        &&& self.shares <= self.liquidity - self.pot
        &&& self.shares == 0 ==> self.liquidity == self.pot
        &&& self.shares == 0 || self.shares >= DEAD_SHARES
        &&& self.anchor <= u64::MAX
        &&& self.drip_interval <= u64::MAX
        &&& self.release_periods <= u128::MAX
        &&& self.penalty_bps <= BPS
        &&& match self.underlying {
            None => self.liquidity == 0,
            Some(id) => {
                &&& id != null_id()
                &&& self.drip_interval >= 1
                &&& self.release_periods >= 1
            },
        }
    }

    /// What the shares stand for: the liquidity without the pot.
    pub open spec fn active(self) -> nat {
        (self.liquidity - self.pot) as nat
    }

    /// Blocks per drip; at least one, also before the setup.
    pub open spec fn interval(self) -> nat {
        fixed::at_least_one(self.drip_interval)
    }

    /// Drips to empty the pot; at least one, also before the setup.
    pub open spec fn periods(self) -> nat {
        fixed::horizon(self.release_periods)
    }

    /// The drips due at height `h`.
    pub open spec fn drips_due(self, h: nat) -> nat {
        if h <= self.anchor {
            0
        } else {
            ((h - self.anchor) as nat) / self.interval()
        }
    }

    /// Whether anyone stands: whether there are shares beyond the dead ones.
    pub open spec fn stands(self) -> bool {
        self.shares > DEAD_SHARES
    }

    /// The vault with the drips due at height `h` taken out of the pot. While
    /// no one stands the drips are consumed and the pot stays whole.
    pub open spec fn released(self, h: nat) -> VaultState {
        let e = self.drips_due(h);
        VaultState {
            pot: if self.stands() {
                fixed::decayed_pot(self.pot, e, self.periods())
            } else {
                self.pot
            },
            anchor: self.anchor + e * self.interval(),
            ..self
        }
    }
}

/// The id that stands for no token.
pub open spec fn null_id() -> AlkaneId {
    AlkaneId { block: 0, tx: 0 }
}

/// The shares that a deposit of `amount` mints where `s` shares stand for
/// `active`. The first deposit mints one share per unit and leaves the dead
/// shares out; a later one mints at the rate, rounded down.
pub open spec fn minted(amount: nat, active: nat, s: nat) -> Result<nat, VaultError> {
    if s == 0 {
        if amount > DEAD_SHARES {
            Ok((amount - DEAD_SHARES) as nat)
        } else {
            Err(VaultError::FirstDepositTooSmall)
        }
    } else {
        match fixed::checked_quotient(active, fixed::floor_div(amount * s, active)) {
            Err(e) => Err(e),
            Ok(m) => if m == 0 {
                Err(VaultError::DepositTooSmall)
            } else {
                Ok(m as nat)
            },
        }
    }
}

/// What `b` of `s` shares are worth where all of them stand for `active`,
/// rounded down.
pub open spec fn worth(b: nat, active: nat, s: nat) -> nat {
    fixed::floor_div(b * active, s)
}

/// The tithe on `w` at a rate of `bps` basis points, rounded up.
pub open spec fn tithe(w: nat, bps: nat) -> nat {
    fixed::ceil_div(w * bps, BPS as nat)
}

/// What an exit that is worth `w` pays out at a rate of `bps` basis points.
pub open spec fn payout(w: nat, bps: nat) -> int {
    w - tithe(w, bps)
}

/// The amount of the underlying that comes in with a call.
pub open spec fn incoming_underlying(st: VaultState, call: Call) -> Result<nat, VaultError> {
    match st.underlying {
        None => Err(VaultError::NotInitialized),
        Some(id) => match parcel::first_value(call.incoming, id) {
            None => Err(VaultError::NoUnderlying),
            Some(v) => if v == 0 {
                Err(VaultError::ZeroUnderlying)
            } else {
                Ok(v as nat)
            },
        },
    }
}

/// The setup of an instance.
pub open spec fn initialize(st: VaultState, call: Call, setup: Setup) -> Result<
    (VaultState, Reply),
    VaultError,
> {
    if st.underlying is Some {
        Err(VaultError::AlreadyInitialized)
    } else if setup.penalty_bps > BPS {
        Err(VaultError::TitheRateTooHigh)
    } else if setup.underlying == null_id() {
        Err(VaultError::UnderlyingNotSet)
    } else if setup.underlying == call.myself {
        Err(VaultError::UnderlyingIsVault)
    } else if setup.drip_interval < 1 || setup.drip_interval > u64::MAX {
        Err(VaultError::BadDripInterval)
    } else if setup.release_periods < 1 {
        Err(VaultError::BadReleasePeriods)
    } else {
        Ok(
            (
                VaultState {
                    underlying: Some(setup.underlying),
                    penalty_bps: setup.penalty_bps as nat,
                    name: bytes::packed_text(setup.name as nat),
                    symbol: bytes::packed_text(setup.symbol as nat),
                    drip_interval: setup.drip_interval as nat,
                    release_periods: setup.release_periods as nat,
                    anchor: call.height,
                    ..st
                },
                Reply { alkanes: call.incoming, data: Seq::empty() },
            ),
        )
    }
}

/// A deposit: the underlying comes in, shares go out.
pub open spec fn deposit(st: VaultState, call: Call) -> Result<(VaultState, Reply), VaultError> {
    match incoming_underlying(st, call) {
        Err(e) => Err(e),
        Ok(d) => {
            let r = st.released(call.height);
            match minted(d, r.active(), r.shares) {
                Err(e) => Err(e),
                Ok(m) => {
                    let shares = r.shares + if r.shares == 0 {
                        d
                    } else {
                        m
                    };
                    if shares > u128::MAX {
                        Err(VaultError::ShareSupplyOverflow)
                    } else if r.liquidity + d > u128::MAX {
                        Err(VaultError::LiquidityOverflow)
                    } else {
                        Ok(
                            (
                                VaultState { shares, liquidity: r.liquidity + d, ..r },
                                Reply {
                                    alkanes: parcel::without(
                                        call.incoming,
                                        st.underlying->0,
                                    ).push(AlkaneTransfer { id: call.myself, value: m as u128 }),
                                    data: bytes::u128_bytes(m),
                                },
                            ),
                        )
                    }
                },
            }
        },
    }
}

/// An exit: shares come in and are burned, the underlying goes out, the tithe
/// goes into the pot.
pub open spec fn withdraw(st: VaultState, call: Call) -> Result<(VaultState, Reply), VaultError> {
    match parcel::first_value(call.incoming, call.myself) {
        None => Err(VaultError::NoShares),
        Some(b) => {
            let r = st.released(call.height);
            if b == 0 {
                Err(VaultError::ZeroShares)
            } else if b + DEAD_SHARES > r.shares {
                Err(VaultError::ExceedsCirculatingSupply)
            } else {
                let w = worth(b as nat, r.active(), r.shares);
                let t = tithe(w, r.penalty_bps);
                let p = payout(w, r.penalty_bps) as nat;
                let others = parcel::without(call.incoming, call.myself);
                Ok(
                    (
                        VaultState {
                            shares: (r.shares - b) as nat,
                            liquidity: (r.liquidity - p) as nat,
                            pot: r.pot + t,
                            ..r
                        },
                        Reply {
                            alkanes: if p > 0 {
                                others.push(
                                    AlkaneTransfer { id: st.underlying->0, value: p as u128 },
                                )
                            } else {
                                others
                            },
                            data: bytes::u128_bytes(p) + bytes::u128_bytes(t),
                        },
                    ),
                )
            }
        },
    }
}

/// A donation into the pot: it drips to those who stand.
pub open spec fn donate_pot(st: VaultState, call: Call) -> Result<
    (VaultState, Reply),
    VaultError,
> {
    match incoming_underlying(st, call) {
        Err(e) => Err(e),
        Ok(d) => {
            let r = st.released(call.height);
            if r.liquidity + d > u128::MAX {
                Err(VaultError::LiquidityOverflow)
            } else if r.pot + d > u128::MAX {
                Err(VaultError::PotOverflow)
            } else {
                Ok(
                    (
                        VaultState { liquidity: r.liquidity + d, pot: r.pot + d, ..r },
                        Reply {
                            alkanes: parcel::without(call.incoming, st.underlying->0),
                            data: bytes::u128_bytes(d),
                        },
                    ),
                )
            }
        },
    }
}

/// A donation straight into the rate: instant, for those who stand now.
pub open spec fn donate_boost(st: VaultState, call: Call) -> Result<
    (VaultState, Reply),
    VaultError,
> {
    match incoming_underlying(st, call) {
        Err(e) => Err(e),
        Ok(d) => {
            let r = st.released(call.height);
            if !r.stands() {
                Err(VaultError::NoOneStanding)
            } else if r.liquidity + d > u128::MAX {
                Err(VaultError::LiquidityOverflow)
            } else {
                Ok(
                    (
                        VaultState { liquidity: r.liquidity + d, ..r },
                        Reply {
                            alkanes: parcel::without(call.incoming, st.underlying->0),
                            data: bytes::u128_bytes(d),
                        },
                    ),
                )
            }
        },
    }
}

/// An answer of `data` that hands every incoming token back.
pub open spec fn forward(call: Call, data: Seq<u8>) -> Reply {
    Reply { alkanes: call.incoming, data }
}

/// The underlying id in 32 bytes: block, then tx.
pub open spec fn id_bytes(id: AlkaneId) -> Seq<u8> {
    bytes::u128_bytes(id.block as nat) + bytes::u128_bytes(id.tx as nat)
}

/// What `get_underlying` answers.
pub open spec fn get_underlying(st: VaultState, call: Call) -> Result<Reply, VaultError> {
    match st.underlying {
        None => Err(VaultError::NotInitialized),
        Some(id) => Ok(forward(call, id_bytes(id))),
    }
}

/// `L`, `B` and `S` in 48 bytes.
pub open spec fn state_bytes(st: VaultState) -> Seq<u8> {
    bytes::u128_bytes(st.liquidity) + bytes::u128_bytes(st.pot) + bytes::u128_bytes(st.shares)
}

/// The shares that a deposit of `amount` would mint.
pub open spec fn quote_deposit(st: VaultState, call: Call, amount: u128) -> Result<
    Reply,
    VaultError,
> {
    let r = st.released(call.height);
    match minted(amount as nat, r.active(), r.shares) {
        Err(e) => Err(e),
        Ok(m) => Ok(forward(call, bytes::u128_bytes(m))),
    }
}

/// The payout and the tithe that an exit of `shares` would give.
pub open spec fn quote_withdraw(st: VaultState, call: Call, shares: u128) -> Result<
    Reply,
    VaultError,
> {
    if shares == 0 || shares + DEAD_SHARES > st.shares {
        Err(VaultError::InvalidShareAmount)
    } else {
        let r = st.released(call.height);
        let w = worth(shares as nat, r.active(), r.shares);
        Ok(
            forward(
                call,
                bytes::u128_bytes(payout(w, r.penalty_bps) as nat) + bytes::u128_bytes(
                    tithe(w, r.penalty_bps),
                ),
            ),
        )
    }
}

} // verus!
