//! The calls that the vault answers, and their opcodes.

use crate::bytes;
use crate::error::VaultError;
use crate::model;
use crate::model::{Call, Reply, Setup, VaultState};
use crate::parcel::AlkaneId;
use vstd::prelude::*;

verus! {

/// A call of the vault.
#[derive(Clone, Copy, Debug, PartialEq, Eq, Structural)]
pub enum PermafrostMessage {
    /// One-time setup: bind the underlying token, fix the tithe rate, the drip
    /// cadence and the release horizon, set the share token's name and symbol.
    Initialize {
        underlying: AlkaneId,
        penalty_bps: u128,
        name: u128,
        symbol: u128,
        drip_interval: u128,
        release_periods: u128,
    },
    /// Deposit the incoming underlying, mint shares at the current rate.
    Deposit,
    /// Burn the incoming shares, withdraw the underlying minus the tithe.
    Withdraw,
    /// Donate the incoming underlying into the pot.
    DonatePot,
    /// Donate the incoming underlying straight into the rate.
    DonateBoost,
    /// The token name.
    GetName,
    /// The token symbol.
    GetSymbol,
    /// The share supply, dead shares included.
    GetTotalShares,
    /// The liquidity, the pot included.
    GetVaultBalance,
    /// The tithe rate in basis points.
    GetPenaltyBps,
    /// The underlying token's id.
    GetUnderlying,
    /// The shares that a deposit of `amount` would mint.
    QuoteDeposit { amount: u128 },
    /// The payout and the tithe that burning `shares` would give.
    QuoteWithdraw { shares: u128 },
    /// The pot as stored, pending drips not applied.
    GetPot,
    /// The liquidity, the pot and the share supply as stored.
    GetState,
    /// The drip anchor.
    GetPotAnchor,
    /// The drip interval in blocks.
    GetDripInterval,
    /// The release horizon in drips.
    GetReleasePeriods,
    /// The token image.
    GetData,
}

/// The call that an opcode and its parameters stand for. Opcodes that name no
/// call, and calls with parameters missing, stand for none; parameters beyond
/// those that the call takes are not read.
pub open spec fn decoded(opcode: u128, inputs: Seq<u128>) -> Option<PermafrostMessage> {
    if opcode == 0 {
        if inputs.len() >= 7 {
            Some(
                PermafrostMessage::Initialize {
                    underlying: AlkaneId { block: inputs[0], tx: inputs[1] },
                    penalty_bps: inputs[2],
                    name: inputs[3],
                    symbol: inputs[4],
                    drip_interval: inputs[5],
                    release_periods: inputs[6],
                },
            )
        } else {
            None
        }
    } else if opcode == 1 {
        Some(PermafrostMessage::Deposit)
    } else if opcode == 2 {
        Some(PermafrostMessage::Withdraw)
    } else if opcode == 3 {
        Some(PermafrostMessage::DonatePot)
    } else if opcode == 4 {
        Some(PermafrostMessage::DonateBoost)
    } else if opcode == 99 {
        Some(PermafrostMessage::GetName)
    } else if opcode == 100 {
        Some(PermafrostMessage::GetSymbol)
    } else if opcode == 101 {
        Some(PermafrostMessage::GetTotalShares)
    } else if opcode == 102 {
        Some(PermafrostMessage::GetVaultBalance)
    } else if opcode == 103 {
        Some(PermafrostMessage::GetPenaltyBps)
    } else if opcode == 104 {
        Some(PermafrostMessage::GetUnderlying)
    } else if opcode == 105 {
        if inputs.len() >= 1 {
            Some(PermafrostMessage::QuoteDeposit { amount: inputs[0] })
        } else {
            None
        }
    } else if opcode == 106 {
        if inputs.len() >= 1 {
            Some(PermafrostMessage::QuoteWithdraw { shares: inputs[0] })
        } else {
            None
        }
    } else if opcode == 107 {
        Some(PermafrostMessage::GetPot)
    } else if opcode == 108 {
        Some(PermafrostMessage::GetState)
    } else if opcode == 109 {
        Some(PermafrostMessage::GetPotAnchor)
    } else if opcode == 110 {
        Some(PermafrostMessage::GetDripInterval)
    } else if opcode == 111 {
        Some(PermafrostMessage::GetReleasePeriods)
    } else if opcode == 1000 {
        Some(PermafrostMessage::GetData)
    } else {
        None
    }
}

impl PermafrostMessage {
    /// The call that an opcode and its parameters stand for.
    pub fn from_opcode(opcode: u128, inputs: &Vec<u128>) -> (r: Option<PermafrostMessage>)
        ensures
            r == decoded(opcode, inputs@),
    {
        match opcode {
            0 => if inputs.len() >= 7 {
                Some(
                    PermafrostMessage::Initialize {
                        underlying: AlkaneId { block: inputs[0], tx: inputs[1] },
                        penalty_bps: inputs[2],
                        name: inputs[3],
                        symbol: inputs[4],
                        drip_interval: inputs[5],
                        release_periods: inputs[6],
                    },
                )
            } else {
                None
            },
            1 => Some(PermafrostMessage::Deposit),
            2 => Some(PermafrostMessage::Withdraw),
            3 => Some(PermafrostMessage::DonatePot),
            4 => Some(PermafrostMessage::DonateBoost),
            99 => Some(PermafrostMessage::GetName),
            100 => Some(PermafrostMessage::GetSymbol),
            101 => Some(PermafrostMessage::GetTotalShares),
            102 => Some(PermafrostMessage::GetVaultBalance),
            103 => Some(PermafrostMessage::GetPenaltyBps),
            104 => Some(PermafrostMessage::GetUnderlying),
            105 => if inputs.len() >= 1 {
                Some(PermafrostMessage::QuoteDeposit { amount: inputs[0] })
            } else {
                None
            },
            106 => if inputs.len() >= 1 {
                Some(PermafrostMessage::QuoteWithdraw { shares: inputs[0] })
            } else {
                None
            },
            107 => Some(PermafrostMessage::GetPot),
            108 => Some(PermafrostMessage::GetState),
            109 => Some(PermafrostMessage::GetPotAnchor),
            110 => Some(PermafrostMessage::GetDripInterval),
            111 => Some(PermafrostMessage::GetReleasePeriods),
            1000 => Some(PermafrostMessage::GetData),
            _ => None,
        }
    }
}

/// What a view answers: `data`, every incoming token back, the vault as it was.
pub open spec fn view_answer(st: VaultState, call: Call, data: Seq<u8>) -> Result<
    (VaultState, Reply),
    VaultError,
> {
    Ok((st, model::forward(call, data)))
}

/// What an answer without an effect comes to.
pub open spec fn unchanged(st: VaultState, answer: Result<Reply, VaultError>) -> Result<
    (VaultState, Reply),
    VaultError,
> {
    match answer {
        Ok(reply) => Ok((st, reply)),
        Err(e) => Err(e),
    }
}

/// What a call does to the vault and what it hands back; `logo` is the token
/// image.
pub open spec fn effect(
    st: VaultState,
    message: PermafrostMessage,
    call: Call,
    logo: Seq<u8>,
) -> Result<(VaultState, Reply), VaultError> {
    match message {
        PermafrostMessage::Initialize {
            underlying,
            penalty_bps,
            name,
            symbol,
            drip_interval,
            release_periods,
        } => model::initialize(
            st,
            call,
            Setup { underlying, penalty_bps, name, symbol, drip_interval, release_periods },
        ),
        PermafrostMessage::Deposit => model::deposit(st, call),
        PermafrostMessage::Withdraw => model::withdraw(st, call),
        PermafrostMessage::DonatePot => model::donate_pot(st, call),
        PermafrostMessage::DonateBoost => model::donate_boost(st, call),
        PermafrostMessage::GetName => view_answer(st, call, st.name),
        PermafrostMessage::GetSymbol => view_answer(st, call, st.symbol),
        PermafrostMessage::GetTotalShares => view_answer(st, call, bytes::u128_bytes(st.shares)),
        PermafrostMessage::GetVaultBalance => view_answer(
            st,
            call,
            bytes::u128_bytes(st.liquidity),
        ),
        PermafrostMessage::GetPenaltyBps => view_answer(
            st,
            call,
            bytes::u128_bytes(st.penalty_bps),
        ),
        PermafrostMessage::GetUnderlying => unchanged(st, model::get_underlying(st, call)),
        PermafrostMessage::QuoteDeposit { amount } => unchanged(
            st,
            model::quote_deposit(st, call, amount),
        ),
        PermafrostMessage::QuoteWithdraw { shares } => unchanged(
            st,
            model::quote_withdraw(st, call, shares),
        ),
        PermafrostMessage::GetPot => view_answer(st, call, bytes::u128_bytes(st.pot)),
        PermafrostMessage::GetState => view_answer(st, call, model::state_bytes(st)),
        PermafrostMessage::GetPotAnchor => view_answer(st, call, bytes::u128_bytes(st.anchor)),
        PermafrostMessage::GetDripInterval => view_answer(
            st,
            call,
            bytes::u128_bytes(st.interval()),
        ),
        PermafrostMessage::GetReleasePeriods => view_answer(
            st,
            call,
            bytes::u128_bytes(st.periods()),
        ),
        PermafrostMessage::GetData => view_answer(st, call, logo),
    }
}

} // verus!
