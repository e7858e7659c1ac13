//! The reasons for which the vault refuses a call.

use vstd::prelude::*;

verus! {

/// Why a call is refused. A refused call changes nothing.
#[derive(Clone, Copy, Debug, PartialEq, Eq, Structural)]
pub enum VaultError {
    /// The vault is set up once, and was.
    AlreadyInitialized,
    /// The tithe rate exceeds 100%.
    TitheRateTooHigh,
    /// The underlying id is the null id.
    UnderlyingNotSet,
    /// The underlying id is the vault's own.
    UnderlyingIsVault,
    /// The drip interval is zero or no 64-bit block count.
    BadDripInterval,
    /// The release horizon is zero drips.
    BadReleasePeriods,
    /// The vault was never set up.
    NotInitialized,
    /// The underlying token is not among the incoming transfers.
    NoUnderlying,
    /// The incoming transfer of the underlying token is zero.
    ZeroUnderlying,
    /// The first deposit does not exceed the dead shares.
    FirstDepositTooSmall,
    /// The deposit is worth less than one share.
    DepositTooSmall,
    /// The share supply would leave 128 bits.
    ShareSupplyOverflow,
    /// The liquidity would leave 128 bits.
    LiquidityOverflow,
    /// The vault's shares are not among the incoming transfers.
    NoShares,
    /// The incoming transfer of shares is zero.
    ZeroShares,
    /// More shares come in than circulate.
    ExceedsCirculatingSupply,
    /// There are no shares at all.
    VaultEmpty,
    /// The pot would leave 128 bits.
    PotOverflow,
    /// Only dead shares stand, so no one would receive the boost.
    NoOneStanding,
    /// A quote is asked for no shares, or for more than circulate.
    InvalidShareAmount,
    /// A quotient has a zero divisor.
    DivisionByZero,
    /// A quotient leaves 128 bits.
    MuldivOverflow,
}

impl VaultError {
    /// The text of the error.
    pub open spec fn text(self) -> Seq<char> {
        match self {
            VaultError::AlreadyInitialized => "already initialized"@,
            VaultError::TitheRateTooHigh => "tithe rate exceeds 100%"@,
            VaultError::UnderlyingNotSet => "underlying must be set"@,
            VaultError::UnderlyingIsVault => "underlying cannot be the vault itself"@,
            VaultError::BadDripInterval => "drip_interval must be a positive block count"@,
            VaultError::BadReleasePeriods => "release_periods must be positive"@,
            VaultError::NotInitialized => "not initialized"@,
            VaultError::NoUnderlying => "no underlying tokens in incoming transaction"@,
            VaultError::ZeroUnderlying => "underlying transfer is zero"@,
            VaultError::FirstDepositTooSmall => "first deposit must exceed 1000 units"@,
            VaultError::DepositTooSmall => "deposit too small: mints zero shares"@,
            VaultError::ShareSupplyOverflow => "share supply overflow"@,
            VaultError::LiquidityOverflow => "liquidity overflow"@,
            VaultError::NoShares => "no shares in incoming transaction"@,
            VaultError::ZeroShares => "cannot withdraw zero shares"@,
            VaultError::ExceedsCirculatingSupply => "share amount exceeds circulating supply"@,
            VaultError::VaultEmpty => "vault is empty"@,
            VaultError::PotOverflow => "pot overflow"@,
            VaultError::NoOneStanding => "no one standing to receive the boost"@,
            VaultError::InvalidShareAmount => "invalid share amount"@,
            VaultError::DivisionByZero => "division by zero"@,
            VaultError::MuldivOverflow => "muldiv overflow"@,
        }
    }

    /// The text of the error, as a caller sees it.
    pub fn message(&self) -> (r: &'static str)
        ensures
            r@ == self.text(),
    {
        match self {
            VaultError::AlreadyInitialized => "already initialized",
            VaultError::TitheRateTooHigh => "tithe rate exceeds 100%",
            VaultError::UnderlyingNotSet => "underlying must be set",
            VaultError::UnderlyingIsVault => "underlying cannot be the vault itself",
            VaultError::BadDripInterval => "drip_interval must be a positive block count",
            VaultError::BadReleasePeriods => "release_periods must be positive",
            VaultError::NotInitialized => "not initialized",
            VaultError::NoUnderlying => "no underlying tokens in incoming transaction",
            VaultError::ZeroUnderlying => "underlying transfer is zero",
            VaultError::FirstDepositTooSmall => "first deposit must exceed 1000 units",
            VaultError::DepositTooSmall => "deposit too small: mints zero shares",
            VaultError::ShareSupplyOverflow => "share supply overflow",
            VaultError::LiquidityOverflow => "liquidity overflow",
            VaultError::NoShares => "no shares in incoming transaction",
            VaultError::ZeroShares => "cannot withdraw zero shares",
            VaultError::ExceedsCirculatingSupply => "share amount exceeds circulating supply",
            VaultError::VaultEmpty => "vault is empty",
            VaultError::PotOverflow => "pot overflow",
            VaultError::NoOneStanding => "no one standing to receive the boost",
            VaultError::InvalidShareAmount => "invalid share amount",
            VaultError::DivisionByZero => "division by zero",
            VaultError::MuldivOverflow => "muldiv overflow",
        }
    }
}

} // verus!
