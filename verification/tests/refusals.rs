//! Every reason to refuse a call, and that a refused call changes nothing.

use permafrost::{AlkaneId, AlkaneTransfer, CallResponse, Cells, Context};
use permafrost::{Permafrost, PermafrostMessage, VaultError};

const MAX: u128 = u128::MAX;

fn coin() -> AlkaneId {
    AlkaneId { block: 2, tx: 1 }
}

fn me() -> AlkaneId {
    AlkaneId { block: 4, tx: 7 }
}

fn cells(liquidity: u128, pot: u128, total_shares: u128) -> Cells {
    Cells {
        underlying: Some(coin()),
        penalty_bps: 1_000,
        name: b"N".to_vec(),
        symbol: b"S".to_vec(),
        drip_interval: 144,
        release_periods: 365,
        liquidity,
        pot,
        total_shares,
        pot_anchor: 1_000,
    }
}

fn vault(liquidity: u128, pot: u128, total_shares: u128) -> Permafrost {
    Permafrost::restore(cells(liquidity, pot, total_shares)).unwrap()
}

fn context(height: u64, incoming: Vec<(AlkaneId, u128)>) -> Context {
    Context {
        myself: me(),
        incoming_alkanes: incoming
            .into_iter()
            .map(|(id, value)| AlkaneTransfer { id, value })
            .collect(),
        height,
    }
}

/// The error of a call on `v`, which leaves `v` as it was.
fn refused(v: &mut Permafrost, message: PermafrostMessage, c: &Context) -> VaultError {
    let before = format!("{:?}", v);
    let error = v.dispatch(message, c, &[]).err().expect("a refusal");
    assert_eq!(format!("{:?}", v), before);
    error
}

fn initialize(
    v: &mut Permafrost,
    underlying: AlkaneId,
    bps: u128,
    interval: u128,
    periods: u128,
) -> Result<CallResponse, VaultError> {
    let message = PermafrostMessage::Initialize {
        underlying,
        penalty_bps: bps,
        name: 78,
        symbol: 83,
        drip_interval: interval,
        release_periods: periods,
    };
    v.dispatch(message, &context(50, vec![]), &[])
}

#[test]
fn setup_refuses_bad_parameters() {
    let mut v = Permafrost::default();
    let blank = format!("{:?}", v);
    let null = AlkaneId { block: 0, tx: 0 };
    assert_eq!(initialize(&mut v, coin(), 10_001, 144, 365).err(), Some(VaultError::TitheRateTooHigh));
    assert_eq!(initialize(&mut v, null, 1_000, 144, 365).err(), Some(VaultError::UnderlyingNotSet));
    assert_eq!(initialize(&mut v, me(), 1_000, 144, 365).err(), Some(VaultError::UnderlyingIsVault));
    assert_eq!(initialize(&mut v, coin(), 1_000, 0, 365).err(), Some(VaultError::BadDripInterval));
    let too_long = u64::MAX as u128 + 1;
    assert_eq!(
        initialize(&mut v, coin(), 1_000, too_long, 365).err(),
        Some(VaultError::BadDripInterval)
    );
    assert_eq!(initialize(&mut v, coin(), 1_000, 144, 0).err(), Some(VaultError::BadReleasePeriods));
    assert_eq!(format!("{:?}", v), blank);
}

#[test]
fn setup_takes_the_bounds() {
    let mut v = Permafrost::default();
    initialize(&mut v, AlkaneId { block: 0, tx: 1 }, 10_000, u64::MAX as u128, MAX).unwrap();
    assert_eq!(v.penalty_bps(), 10_000);
    assert_eq!(v.drip_interval(), u64::MAX);
    assert_eq!(v.release_periods(), MAX);
    assert_eq!(v.pot_anchor(), 50);
    let mut v = Permafrost::default();
    initialize(&mut v, AlkaneId { block: 1, tx: 0 }, 0, 1, 1).unwrap();
    assert_eq!(v.underlying(), Ok(AlkaneId { block: 1, tx: 0 }));
}

#[test]
fn setup_checks_in_order() {
    let mut v = Permafrost::default();
    let null = AlkaneId { block: 0, tx: 0 };
    assert_eq!(initialize(&mut v, null, 10_001, 0, 0).err(), Some(VaultError::TitheRateTooHigh));
    assert_eq!(initialize(&mut v, null, 0, 0, 0).err(), Some(VaultError::UnderlyingNotSet));
    assert_eq!(initialize(&mut v, me(), 0, 0, 0).err(), Some(VaultError::UnderlyingIsVault));
    assert_eq!(initialize(&mut v, coin(), 0, 0, 0).err(), Some(VaultError::BadDripInterval));
}

#[test]
fn setup_happens_once() {
    let mut v = Permafrost::default();
    initialize(&mut v, coin(), 1_000, 144, 365).unwrap();
    assert_eq!(
        initialize(&mut v, coin(), 1_000, 144, 365).err(),
        Some(VaultError::AlreadyInitialized)
    );
    assert_eq!(
        initialize(&mut v, AlkaneId { block: 0, tx: 0 }, 10_001, 0, 0).err(),
        Some(VaultError::AlreadyInitialized)
    );
    assert_eq!(v.penalty_bps(), 1_000);
}

#[test]
fn nothing_goes_in_before_the_setup() {
    let mut v = Permafrost::default();
    let c = context(10, vec![(coin(), 5_000), (me(), 5_000)]);
    assert_eq!(refused(&mut v, PermafrostMessage::Deposit, &c), VaultError::NotInitialized);
    assert_eq!(refused(&mut v, PermafrostMessage::DonatePot, &c), VaultError::NotInitialized);
    assert_eq!(refused(&mut v, PermafrostMessage::DonateBoost, &c), VaultError::NotInitialized);
    assert_eq!(refused(&mut v, PermafrostMessage::GetUnderlying, &c), VaultError::NotInitialized);
    assert_eq!(
        refused(&mut v, PermafrostMessage::Withdraw, &c),
        VaultError::ExceedsCirculatingSupply
    );
    assert_eq!(v.underlying(), Err(VaultError::NotInitialized));
}

#[test]
fn the_underlying_must_come_in() {
    let mut v = vault(10_000, 1_000, 9_000);
    let other = AlkaneId { block: 2, tx: 2 };
    for m in [PermafrostMessage::Deposit, PermafrostMessage::DonatePot, PermafrostMessage::DonateBoost]
    {
        let c = context(2_000, vec![(other, 5_000), (me(), 5)]);
        assert_eq!(refused(&mut v, m, &c), VaultError::NoUnderlying);
        let c = context(2_000, vec![(coin(), 0)]);
        assert_eq!(refused(&mut v, m, &c), VaultError::ZeroUnderlying);
    }
}

#[test]
fn the_first_deposit_exceeds_the_dead_shares() {
    let mut v = vault(0, 0, 0);
    let c = context(2_000, vec![(coin(), 1_000)]);
    assert_eq!(refused(&mut v, PermafrostMessage::Deposit, &c), VaultError::FirstDepositTooSmall);
    assert_eq!(
        refused(&mut v, PermafrostMessage::QuoteDeposit { amount: 1_000 }, &c),
        VaultError::FirstDepositTooSmall
    );
    let c = context(2_000, vec![(coin(), 1_001)]);
    let response = v.deposit(&c).unwrap();
    assert_eq!(response.alkanes, vec![AlkaneTransfer { id: me(), value: 1 }]);
    assert_eq!((v.total_shares(), v.liquidity()), (1_001, 1_001));
}

#[test]
fn a_deposit_below_one_share_is_refused() {
    let mut v = vault(100_000, 0, 2_000);
    let c = context(1_000, vec![(coin(), 49)]);
    assert_eq!(refused(&mut v, PermafrostMessage::Deposit, &c), VaultError::DepositTooSmall);
    let c = context(1_000, vec![(coin(), 50)]);
    assert_eq!(v.deposit(&c).unwrap().alkanes, vec![AlkaneTransfer { id: me(), value: 1 }]);
}

#[test]
fn sums_do_not_leave_their_width() {
    let mut v = vault(MAX, 0, MAX);
    let c = context(1_000, vec![(coin(), 1)]);
    assert_eq!(refused(&mut v, PermafrostMessage::Deposit, &c), VaultError::ShareSupplyOverflow);
    assert_eq!(refused(&mut v, PermafrostMessage::DonatePot, &c), VaultError::LiquidityOverflow);
    assert_eq!(refused(&mut v, PermafrostMessage::DonateBoost, &c), VaultError::LiquidityOverflow);
    let mut v = vault(MAX, 0, 2_000);
    let c = context(1_000, vec![(coin(), MAX / 1_000)]);
    assert_eq!(refused(&mut v, PermafrostMessage::Deposit, &c), VaultError::LiquidityOverflow);
}

#[test]
fn quotients_of_odd_states_are_refused() {
    let v = vault(0, 0, 0);
    assert_eq!(v.deposit_shares(1, 0, 1), Err(VaultError::DivisionByZero));
    assert_eq!(v.deposit_shares(MAX, 1, 2), Err(VaultError::MuldivOverflow));
    assert_eq!(v.exit_amounts(1, 1, 0, 0), Err(VaultError::VaultEmpty));
    assert_eq!(v.exit_amounts(MAX, MAX, 0, 1), Err(VaultError::MuldivOverflow));
    assert_eq!(v.exit_amounts(500, 10_000, 1_000, 9_000), Ok((450, 50, 1_050)));
}

#[test]
fn an_exit_needs_circulating_shares() {
    let mut v = vault(10_000, 1_000, 9_000);
    let m = PermafrostMessage::Withdraw;
    assert_eq!(refused(&mut v, m, &context(2_000, vec![(coin(), 5)])), VaultError::NoShares);
    assert_eq!(refused(&mut v, m, &context(2_000, vec![(me(), 0)])), VaultError::ZeroShares);
    for b in [8_001, 9_000, MAX - 1_000, MAX] {
        assert_eq!(
            refused(&mut v, m, &context(2_000, vec![(me(), b)])),
            VaultError::ExceedsCirculatingSupply
        );
    }
    v.withdraw(&context(2_000, vec![(me(), 8_000)])).unwrap();
    assert_eq!(v.total_shares(), 1_000);
}

#[test]
fn a_boost_needs_someone_standing() {
    let c = context(2_000, vec![(coin(), 5)]);
    let m = PermafrostMessage::DonateBoost;
    let mut v = vault(500, 500, 0);
    assert_eq!(refused(&mut v, m, &c), VaultError::NoOneStanding);
    let mut v = vault(1_500, 500, 1_000);
    assert_eq!(refused(&mut v, m, &c), VaultError::NoOneStanding);
    let mut v = vault(1_501, 500, 1_001);
    v.donate_boost(&c).unwrap();
    assert_eq!(v.liquidity(), 1_506);
}

#[test]
fn quotes_need_circulating_shares() {
    let mut v = vault(10_000, 1_000, 9_000);
    let c = context(2_000, vec![]);
    for shares in [0, 8_001, MAX] {
        assert_eq!(
            refused(&mut v, PermafrostMessage::QuoteWithdraw { shares }, &c),
            VaultError::InvalidShareAmount
        );
    }
    assert_eq!(v.quote_withdraw(&c, 8_000).unwrap().data.len(), 32);
}

#[test]
fn errors_have_their_texts() {
    let texts = [
        (VaultError::AlreadyInitialized, "already initialized"),
        (VaultError::TitheRateTooHigh, "tithe rate exceeds 100%"),
        (VaultError::UnderlyingNotSet, "underlying must be set"),
        (VaultError::UnderlyingIsVault, "underlying cannot be the vault itself"),
        (VaultError::BadDripInterval, "drip_interval must be a positive block count"),
        (VaultError::BadReleasePeriods, "release_periods must be positive"),
        (VaultError::NotInitialized, "not initialized"),
        (VaultError::NoUnderlying, "no underlying tokens in incoming transaction"),
        (VaultError::ZeroUnderlying, "underlying transfer is zero"),
        (VaultError::FirstDepositTooSmall, "first deposit must exceed 1000 units"),
        (VaultError::DepositTooSmall, "deposit too small: mints zero shares"),
        (VaultError::ShareSupplyOverflow, "share supply overflow"),
        (VaultError::LiquidityOverflow, "liquidity overflow"),
        (VaultError::NoShares, "no shares in incoming transaction"),
        (VaultError::ZeroShares, "cannot withdraw zero shares"),
        (VaultError::ExceedsCirculatingSupply, "share amount exceeds circulating supply"),
        (VaultError::VaultEmpty, "vault is empty"),
        (VaultError::PotOverflow, "pot overflow"),
        (VaultError::NoOneStanding, "no one standing to receive the boost"),
        (VaultError::InvalidShareAmount, "invalid share amount"),
        (VaultError::DivisionByZero, "division by zero"),
        (VaultError::MuldivOverflow, "muldiv overflow"),
    ];
    for (error, text) in texts {
        assert_eq!(error.message(), text);
    }
}

#[test]
fn opcodes_are_decoded() {
    let none = vec![];
    let one = vec![9];
    let seven: Vec<u128> = (1..8).collect();
    let decode = PermafrostMessage::from_opcode;
    assert_eq!(
        decode(0, &seven),
        Some(PermafrostMessage::Initialize {
            underlying: AlkaneId { block: 1, tx: 2 },
            penalty_bps: 3,
            name: 4,
            symbol: 5,
            drip_interval: 6,
            release_periods: 7,
        })
    );
    assert_eq!(decode(0, &vec![1, 2, 3, 4, 5, 6]), None);
    assert_eq!(decode(105, &one), Some(PermafrostMessage::QuoteDeposit { amount: 9 }));
    assert_eq!(decode(106, &one), Some(PermafrostMessage::QuoteWithdraw { shares: 9 }));
    assert_eq!(decode(105, &none), None);
    assert_eq!(decode(106, &none), None);
    let plain = [
        (1, PermafrostMessage::Deposit),
        (2, PermafrostMessage::Withdraw),
        (3, PermafrostMessage::DonatePot),
        (4, PermafrostMessage::DonateBoost),
        (99, PermafrostMessage::GetName),
        (100, PermafrostMessage::GetSymbol),
        (101, PermafrostMessage::GetTotalShares),
        (102, PermafrostMessage::GetVaultBalance),
        (103, PermafrostMessage::GetPenaltyBps),
        (104, PermafrostMessage::GetUnderlying),
        (107, PermafrostMessage::GetPot),
        (108, PermafrostMessage::GetState),
        (109, PermafrostMessage::GetPotAnchor),
        (110, PermafrostMessage::GetDripInterval),
        (111, PermafrostMessage::GetReleasePeriods),
        (1000, PermafrostMessage::GetData),
    ];
    for (opcode, message) in plain {
        assert_eq!(decode(opcode, &none), Some(message));
        assert_eq!(decode(opcode, &one), Some(message));
    }
    for opcode in [5, 98, 112, 999, 1001, MAX] {
        assert_eq!(decode(opcode, &seven), None);
    }
}

#[test]
fn cells_that_hold_no_vault_are_refused() {
    assert!(Permafrost::restore(cells(10_000, 1_000, 9_000)).is_some());
    assert!(Permafrost::restore(cells(0, 0, 0)).is_some());
    assert!(Permafrost::restore(cells(700, 700, 0)).is_some());
    assert!(Permafrost::restore(cells(10_000, 10_001, 0)).is_none());
    assert!(Permafrost::restore(cells(10_000, 1_000, 9_001)).is_none());
    assert!(Permafrost::restore(cells(10_000, 1_000, 999)).is_none());
    assert!(Permafrost::restore(cells(10_000, 1_000, 0)).is_none());
    let c = Cells { penalty_bps: 10_001, ..cells(0, 0, 0) };
    assert!(Permafrost::restore(c).is_none());
    let c = Cells { drip_interval: 0, ..cells(0, 0, 0) };
    assert!(Permafrost::restore(c).is_none());
    let c = Cells { release_periods: 0, ..cells(0, 0, 0) };
    assert!(Permafrost::restore(c).is_none());
    let c = Cells { underlying: Some(AlkaneId { block: 0, tx: 0 }), ..cells(0, 0, 0) };
    assert!(Permafrost::restore(c).is_none());
    let c = Cells { underlying: None, ..cells(10_000, 1_000, 9_000) };
    assert!(Permafrost::restore(c).is_none());
}

#[test]
fn cells_come_back_as_they_went_in() {
    let back = vault(10_000, 1_000, 9_000).into_cells();
    assert_eq!(format!("{:?}", back), format!("{:?}", cells(10_000, 1_000, 9_000)));
}
