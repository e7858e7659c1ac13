//! What each call does, said of what goes in, what is stored and what comes out.
//!
//! Amounts are given by what they satisfy: `n` drips are the whole stored
//! intervals that have passed, `m` shares are `d * S / (L - B)` rounded down,
//! and so on. Each law covers every outcome of its call, the refusals in the
//! order in which they come.

use crate::bytes;
use crate::error::VaultError;
use crate::fixed;
use crate::laws::rate;
use crate::laws::release;
use crate::laws::terms;
use crate::laws::wire;
use crate::message;
use crate::message::PermafrostMessage;
use crate::model;
use crate::model::{Call, Reply, Setup, VaultState};
use crate::parcel;
use crate::parcel::{AlkaneId, AlkaneTransfer};
use vstd::prelude::*;

verus! {

/// Whether a call was refused for reason `e`.
pub open spec fn refused(out: Result<(VaultState, Reply), VaultError>, e: VaultError) -> bool {
    out matches Err(x) && x == e
}

/// The integer in the `k`-th 16 bytes of an answer.
pub open spec fn word(data: Seq<u8>, k: int) -> nat {
    bytes::le_value(data.subrange(16 * k, 16 * k + 16))
}

/// Whether an answer is the one 128-bit integer `x`.
pub open spec fn answers(data: Seq<u8>, x: int) -> bool {
    data.len() == 16 && word(data, 0) == x
}

/// Whether an answer is the two 128-bit integers `x` and `y`.
pub open spec fn answers_two(data: Seq<u8>, x: int, y: int) -> bool {
    data.len() == 32 && word(data, 0) == x && word(data, 1) == y
}

/// Whether the parameters stayed and the anchor moved by `n` stored intervals.
pub open spec fn settled(st: VaultState, next: VaultState, n: nat) -> bool {
    &&& next.underlying == st.underlying
    &&& next.penalty_bps == st.penalty_bps
    &&& next.name == st.name
    &&& next.symbol == st.symbol
    &&& next.drip_interval == st.drip_interval
    &&& next.release_periods == st.release_periods
    &&& next.anchor == st.anchor + n * st.drip_interval
}

/// An integer in 16 bytes is that integer, alone and beside others.
proof fn lemma_words(x: u128, y: u128, z: u128)
    ensures
        answers(bytes::u128_bytes(x as nat), x as int),
        answers_two(
            bytes::u128_bytes(x as nat) + bytes::u128_bytes(y as nat),
            x as int,
            y as int,
        ),
        ({
            let data = bytes::u128_bytes(x as nat) + bytes::u128_bytes(y as nat)
                + bytes::u128_bytes(z as nat);
            data.len() == 48 && word(data, 0) == x && word(data, 1) == y && word(data, 2) == z
        }),
{
    let (a, b, c) = (
        bytes::u128_bytes(x as nat),
        bytes::u128_bytes(y as nat),
        bytes::u128_bytes(z as nat),
    );
    wire::law_u128_bytes_read_back(x);
    wire::law_u128_bytes_read_back(y);
    wire::law_u128_bytes_read_back(z);
    assert(a.subrange(0, 16) =~= a);
    assert((a + b).subrange(0, 16) =~= a);
    assert((a + b).subrange(16, 32) =~= b);
    assert((a + b + c).subrange(0, 16) =~= a);
    assert((a + b + c).subrange(16, 32) =~= b);
    assert((a + b + c).subrange(32, 48) =~= c);
}

/// The setup is refused where it was done, then for a tithe above 100%, a null
/// underlying, the vault itself as underlying, an interval that is zero or
/// beyond 64 bits, and a horizon of no drips; and for nothing else. It stores
/// every parameter as it was handed in, each in its own place, anchors the drips
/// at the height of the call, hands every token back and answers nothing.
pub proof fn law_setup_stores_what_it_is_given(
    st: VaultState,
    call: Call,
    logo: Seq<u8>,
    underlying: AlkaneId,
    penalty_bps: u128,
    name: u128,
    symbol: u128,
    drip_interval: u128,
    release_periods: u128,
)
    ensures
        ({
            let out = message::effect(
                st,
                PermafrostMessage::Initialize {
                    underlying,
                    penalty_bps,
                    name,
                    symbol,
                    drip_interval,
                    release_periods,
                },
                call,
                logo,
            );
            if st.underlying is Some {
                refused(out, VaultError::AlreadyInitialized)
            } else if penalty_bps > 10_000 {
                refused(out, VaultError::TitheRateTooHigh)
            } else if underlying.block == 0 && underlying.tx == 0 {
                refused(out, VaultError::UnderlyingNotSet)
            } else if underlying == call.myself {
                refused(out, VaultError::UnderlyingIsVault)
            } else if drip_interval == 0 || drip_interval > 0xffff_ffff_ffff_ffff {
                refused(out, VaultError::BadDripInterval)
            } else if release_periods == 0 {
                refused(out, VaultError::BadReleasePeriods)
            } else {
                &&& out is Ok
                &&& out->Ok_0.0.underlying == Some(underlying)
                &&& out->Ok_0.0.penalty_bps == penalty_bps
                &&& out->Ok_0.0.name == bytes::packed_text(name as nat)
                &&& out->Ok_0.0.symbol == bytes::packed_text(symbol as nat)
                &&& out->Ok_0.0.drip_interval == drip_interval
                &&& out->Ok_0.0.release_periods == release_periods
                &&& out->Ok_0.0.anchor == call.height
                &&& out->Ok_0.0.liquidity == st.liquidity
                &&& out->Ok_0.0.pot == st.pot
                &&& out->Ok_0.0.shares == st.shares
                &&& out->Ok_0.1.alkanes == call.incoming
                &&& out->Ok_0.1.data.len() == 0
            }
        }),
{
}

/// Before the setup nothing goes in and nothing comes out: deposits and
/// donations are refused, and so are exits, for there are no shares.
pub proof fn law_nothing_moves_before_the_setup(
    st: VaultState,
    call: Call,
    logo: Seq<u8>,
    b: Option<u128>,
)
    requires
        st.wf(),
        st.underlying is None,
        terms::first_transfer(call.incoming, call.myself, b),
    ensures
        refused(
            message::effect(st, PermafrostMessage::Deposit, call, logo),
            VaultError::NotInitialized,
        ),
        refused(
            message::effect(st, PermafrostMessage::DonatePot, call, logo),
            VaultError::NotInitialized,
        ),
        refused(
            message::effect(st, PermafrostMessage::DonateBoost, call, logo),
            VaultError::NotInitialized,
        ),
        refused(
            message::effect(st, PermafrostMessage::GetUnderlying, call, logo),
            VaultError::NotInitialized,
        ),
        refused(
            message::effect(st, PermafrostMessage::Withdraw, call, logo),
            match b {
                None => VaultError::NoShares,
                Some(v) => if v == 0 {
                    VaultError::ZeroShares
                } else {
                    VaultError::ExceedsCirculatingSupply
                },
            },
        ),
{
    terms::law_first_transfer_counts(call.incoming, call.myself, b);
}

/// A deposit of `d` is refused where no underlying comes in or none of it, where
/// a first deposit does not exceed the dead thousand or a later one is worth less
/// than a share, and where the shares or the liquidity would leave 128 bits; and
/// for nothing else. After `n` drips it mints one share per unit but for the dead
/// thousand where there are none, and `m = d * S / (L - B)`, rounded down, where
/// there are. The liquidity grows by `d`, the shares go out beside every other
/// token, and the answer is how many they are.
pub proof fn law_deposit_mints_at_the_rate(
    st: VaultState,
    call: Call,
    logo: Seq<u8>,
    n: nat,
    d: Option<u128>,
    m: nat,
)
    requires
        st.wf(),
        st.underlying is Some,
        call.height <= u64::MAX,
        terms::drips_passed(st, call.height, n),
        terms::first_transfer(call.incoming, st.underlying->0, d),
        d is Some && st.shares == 0 ==> m + 1_000 == d->0 || d->0 <= 1_000,
        d is Some && st.shares > 0 ==> terms::rounded_down(
            m,
            d->0 as nat * st.shares,
            (st.liquidity - terms::pot_after(st, n)) as nat,
        ),
    ensures
        ({
            let out = message::effect(st, PermafrostMessage::Deposit, call, logo);
            let added = if st.shares == 0 {
                m + 1_000
            } else {
                m
            };
            if d is None {
                refused(out, VaultError::NoUnderlying)
            } else if d == Some(0u128) {
                refused(out, VaultError::ZeroUnderlying)
            } else if st.shares == 0 && d->0 <= 1_000 {
                refused(out, VaultError::FirstDepositTooSmall)
            } else if m == 0 {
                refused(out, VaultError::DepositTooSmall)
            } else if st.shares + added > u128::MAX {
                refused(out, VaultError::ShareSupplyOverflow)
            } else if st.liquidity + d->0 > u128::MAX {
                refused(out, VaultError::LiquidityOverflow)
            } else {
                &&& out is Ok
                &&& settled(st, out->Ok_0.0, n)
                &&& out->Ok_0.0.pot == terms::pot_after(st, n)
                &&& out->Ok_0.0.liquidity == st.liquidity + d->0
                &&& out->Ok_0.0.shares == st.shares + added
                &&& out->Ok_0.1.alkanes == parcel::without(call.incoming, st.underlying->0).push(
                    AlkaneTransfer { id: call.myself, value: m as u128 },
                )
                &&& m <= u128::MAX
                &&& answers(out->Ok_0.1.data, m as int)
            }
        }),
{
    let u = st.underlying->0;
    let h = call.height;
    terms::law_first_transfer_counts(call.incoming, u, d);
    terms::law_release_goes_by_the_stored_parameters(st, h, n);
    release::law_release_keeps_the_vault_sound(st, h);
    let r = st.released(h);
    if d is Some && d->0 > 0 {
        let v = d->0 as nat;
        terms::law_minted_amounts(v, r.active(), r.shares, m);
        if st.shares > 0 {
            rate::law_mint_is_rounded_down(v, r.active(), r.shares);
            terms::law_quotients_are_rounded(v * r.shares, r.active(), m);
            assert(0 * r.active() == 0);
        }
        lemma_words(m as u128, 0, 0);
    }
}

/// A deposit goes through wherever nothing speaks against it: where `d` is worth
/// a share, or exceeds the dead thousand while there are no shares, and the
/// liquidity has room for it.
pub proof fn law_deposits_are_refused_for_their_reasons_only(
    st: VaultState,
    call: Call,
    logo: Seq<u8>,
    n: nat,
    d: u128,
)
    requires
        st.wf(),
        st.underlying is Some,
        call.height <= u64::MAX,
        terms::drips_passed(st, call.height, n),
        terms::first_transfer(call.incoming, st.underlying->0, Some(d)),
        st.shares == 0 ==> d > 1_000,
        st.shares > 0 ==> d * st.shares >= st.liquidity - terms::pot_after(st, n),
        st.liquidity + d <= u128::MAX,
    ensures
        message::effect(st, PermafrostMessage::Deposit, call, logo) is Ok,
{
    terms::law_release_goes_by_the_stored_parameters(st, call.height, n);
    release::law_release_keeps_the_vault_sound(st, call.height);
    let a = st.released(call.height).active();
    assert(0 * st.shares == 0);
    if st.shares == 0 {
        law_deposit_mints_at_the_rate(st, call, logo, n, Some(d), (d - 1_000) as nat);
    } else {
        let m = fixed::floor_div(d as nat * st.shares, a);
        terms::law_quotients_are_rounded(d as nat * st.shares, a, m);
        rate::law_mint_is_rounded_down(d as nat, a, st.shares);
        assert(0 * a == 0);
        law_deposit_mints_at_the_rate(st, call, logo, n, Some(d), m);
    }
}

/// An exit of `b` shares is refused where none come in, where zero come in and
/// where more come in than circulate; and for nothing else. After `n` drips the
/// shares are worth `w = b * (L - B) / S`, rounded down, and the tithe is `t`, its
/// part in ten thousand of `w`, rounded up. The shares are burned, `w - t` leaves
/// the liquidity and goes out beside every other token unless it is nothing, and
/// `t` goes into the pot. The answer is these two amounts: what left the
/// liquidity and what went into the pot.
pub proof fn law_exit_pays_its_worth_minus_the_tithe(
    st: VaultState,
    call: Call,
    logo: Seq<u8>,
    n: nat,
    b: Option<u128>,
    w: nat,
    t: nat,
)
    requires
        st.wf(),
        st.underlying is Some,
        call.height <= u64::MAX,
        terms::drips_passed(st, call.height, n),
        terms::first_transfer(call.incoming, call.myself, b),
        b is Some && st.shares > 0 ==> terms::rounded_down(
            w,
            b->0 as nat * (st.liquidity - terms::pot_after(st, n)) as nat,
            st.shares,
        ),
        terms::rounded_up(t, w * st.penalty_bps, 10_000),
    ensures
        ({
            let out = message::effect(st, PermafrostMessage::Withdraw, call, logo);
            let others = parcel::without(call.incoming, call.myself);
            if b is None {
                refused(out, VaultError::NoShares)
            } else if b == Some(0u128) {
                refused(out, VaultError::ZeroShares)
            } else if b->0 + 1_000 > st.shares {
                refused(out, VaultError::ExceedsCirculatingSupply)
            } else {
                &&& out is Ok
                &&& t <= w <= u128::MAX
                &&& settled(st, out->Ok_0.0, n)
                &&& out->Ok_0.0.shares == st.shares - b->0
                &&& out->Ok_0.0.liquidity == st.liquidity - (w - t)
                &&& out->Ok_0.0.pot == terms::pot_after(st, n) + t
                &&& t == w ==> out->Ok_0.1.alkanes == others
                &&& t < w ==> out->Ok_0.1.alkanes == others.push(
                    AlkaneTransfer { id: st.underlying->0, value: (w - t) as u128 },
                )
                &&& answers_two(
                    out->Ok_0.1.data,
                    st.liquidity - out->Ok_0.0.liquidity,
                    out->Ok_0.0.pot - terms::pot_after(st, n),
                )
            }
        }),
{
    let h = call.height;
    terms::law_first_transfer_counts(call.incoming, call.myself, b);
    terms::law_release_goes_by_the_stored_parameters(st, h, n);
    release::law_release_keeps_the_vault_sound(st, h);
    let r = st.released(h);
    if b is Some && b->0 > 0 && b->0 + 1_000 <= st.shares {
        let v = b->0 as nat;
        terms::law_exit_amounts(v, r.active(), r.shares, r.penalty_bps, w, t);
        rate::law_worth_is_rounded_down(v, r.active(), r.shares);
        rate::law_tithe_is_rounded_up(w, r.penalty_bps);
        lemma_words((w - t) as u128, t as u128, 0);
    }
}

/// A donation of `d` into the pot is refused where no underlying comes in or none
/// of it, and where the liquidity would leave 128 bits; and for nothing else.
/// After `n` drips the liquidity and the pot grow by `d` and the shares stay;
/// every other token comes back, and the answer is `d`.
pub proof fn law_pot_donation_fills_the_pot(
    st: VaultState,
    call: Call,
    logo: Seq<u8>,
    n: nat,
    d: Option<u128>,
)
    requires
        st.wf(),
        st.underlying is Some,
        call.height <= u64::MAX,
        terms::drips_passed(st, call.height, n),
        terms::first_transfer(call.incoming, st.underlying->0, d),
    ensures
        ({
            let out = message::effect(st, PermafrostMessage::DonatePot, call, logo);
            if d is None {
                refused(out, VaultError::NoUnderlying)
            } else if d == Some(0u128) {
                refused(out, VaultError::ZeroUnderlying)
            } else if st.liquidity + d->0 > u128::MAX {
                refused(out, VaultError::LiquidityOverflow)
            } else {
                &&& out is Ok
                &&& settled(st, out->Ok_0.0, n)
                &&& out->Ok_0.0.shares == st.shares
                &&& out->Ok_0.0.liquidity == st.liquidity + d->0
                &&& out->Ok_0.0.pot == terms::pot_after(st, n) + d->0
                &&& out->Ok_0.1.alkanes == parcel::without(call.incoming, st.underlying->0)
                &&& answers(out->Ok_0.1.data, d->0 as int)
            }
        }),
{
    terms::law_first_transfer_counts(call.incoming, st.underlying->0, d);
    terms::law_release_goes_by_the_stored_parameters(st, call.height, n);
    release::law_release_keeps_the_vault_sound(st, call.height);
    if d is Some {
        lemma_words(d->0, 0, 0);
    }
}

/// A boost of `d` is refused where no underlying comes in or none of it, where no
/// more than the dead thousand shares stand, and where the liquidity would leave
/// 128 bits; and for nothing else. After `n` drips the liquidity grows by `d`, and
/// neither the pot nor the shares do; every other token comes back, and the answer
/// is `d`.
pub proof fn law_boost_fills_the_liquidity(
    st: VaultState,
    call: Call,
    logo: Seq<u8>,
    n: nat,
    d: Option<u128>,
)
    requires
        st.wf(),
        st.underlying is Some,
        call.height <= u64::MAX,
        terms::drips_passed(st, call.height, n),
        terms::first_transfer(call.incoming, st.underlying->0, d),
    ensures
        ({
            let out = message::effect(st, PermafrostMessage::DonateBoost, call, logo);
            if d is None {
                refused(out, VaultError::NoUnderlying)
            } else if d == Some(0u128) {
                refused(out, VaultError::ZeroUnderlying)
            } else if st.shares <= 1_000 {
                refused(out, VaultError::NoOneStanding)
            } else if st.liquidity + d->0 > u128::MAX {
                refused(out, VaultError::LiquidityOverflow)
            } else {
                &&& out is Ok
                &&& settled(st, out->Ok_0.0, n)
                &&& out->Ok_0.0.shares == st.shares
                &&& out->Ok_0.0.liquidity == st.liquidity + d->0
                &&& out->Ok_0.0.pot == terms::pot_after(st, n)
                &&& out->Ok_0.1.alkanes == parcel::without(call.incoming, st.underlying->0)
                &&& answers(out->Ok_0.1.data, d->0 as int)
            }
        }),
{
    terms::law_first_transfer_counts(call.incoming, st.underlying->0, d);
    terms::law_release_goes_by_the_stored_parameters(st, call.height, n);
    if d is Some {
        lemma_words(d->0, 0, 0);
    }
}

/// A quote for a deposit of `d` answers what it would mint after `n` drips, and is
/// refused only where that is nothing. It asks for no token and is not held back
/// by sums. Before the setup it quotes the first deposit.
pub proof fn law_deposit_quote_mints_at_the_rate(
    st: VaultState,
    call: Call,
    logo: Seq<u8>,
    n: nat,
    d: u128,
    m: nat,
)
    requires
        st.wf(),
        call.height <= u64::MAX,
        st.shares > 0 ==> terms::drips_passed(st, call.height, n),
        st.shares > 0 ==> terms::rounded_down(
            m,
            d as nat * st.shares,
            (st.liquidity - terms::pot_after(st, n)) as nat,
        ),
    ensures
        ({
            let out = message::effect(
                st,
                PermafrostMessage::QuoteDeposit { amount: d },
                call,
                logo,
            );
            if st.shares == 0 && d <= 1_000 {
                refused(out, VaultError::FirstDepositTooSmall)
            } else if st.shares > 0 && m == 0 {
                refused(out, VaultError::DepositTooSmall)
            } else {
                &&& out is Ok
                &&& out->Ok_0.0 == st
                &&& out->Ok_0.1.alkanes == call.incoming
                &&& answers(
                    out->Ok_0.1.data,
                    if st.shares == 0 {
                        d - 1_000
                    } else {
                        m as int
                    },
                )
            }
        }),
{
    let r = st.released(call.height);
    release::law_release_keeps_the_vault_sound(st, call.height);
    terms::law_minted_amounts(d as nat, r.active(), r.shares, m);
    if st.shares > 0 {
        terms::law_release_goes_by_the_stored_parameters(st, call.height, n);
        terms::law_minted_amounts(d as nat, r.active(), r.shares, m);
        rate::law_mint_is_rounded_down(d as nat, r.active(), r.shares);
        terms::law_quotients_are_rounded(d as nat * r.shares, r.active(), m);
        assert(0 * r.active() == 0);
        lemma_words(m as u128, 0, 0);
    } else if d > 1_000 {
        lemma_words((d - 1_000) as u128, 0, 0);
    }
}

/// A quote for an exit of `b` shares answers what it would pay out and what it
/// would put into the pot after `n` drips, and is refused only where `b` is zero
/// or more than circulates.
pub proof fn law_exit_quote_pays_its_worth_minus_the_tithe(
    st: VaultState,
    call: Call,
    logo: Seq<u8>,
    n: nat,
    b: u128,
    w: nat,
    t: nat,
)
    requires
        st.wf(),
        call.height <= u64::MAX,
        st.shares > 0 ==> terms::drips_passed(st, call.height, n),
        st.shares > 0 ==> terms::rounded_down(
            w,
            b as nat * (st.liquidity - terms::pot_after(st, n)) as nat,
            st.shares,
        ),
        terms::rounded_up(t, w * st.penalty_bps, 10_000),
    ensures
        ({
            let out = message::effect(
                st,
                PermafrostMessage::QuoteWithdraw { shares: b },
                call,
                logo,
            );
            if b == 0 || b + 1_000 > st.shares {
                refused(out, VaultError::InvalidShareAmount)
            } else {
                &&& out is Ok
                &&& out->Ok_0.0 == st
                &&& out->Ok_0.1.alkanes == call.incoming
                &&& answers_two(out->Ok_0.1.data, w - t, t as int)
            }
        }),
{
    let r = st.released(call.height);
    release::law_release_keeps_the_vault_sound(st, call.height);
    if b > 0 && b + 1_000 <= st.shares {
        terms::law_release_goes_by_the_stored_parameters(st, call.height, n);
        terms::law_exit_amounts(b as nat, r.active(), r.shares, r.penalty_bps, w, t);
        rate::law_worth_is_rounded_down(b as nat, r.active(), r.shares);
        rate::law_tithe_is_rounded_up(w, r.penalty_bps);
        lemma_words((w - t) as u128, t as u128, 0);
    }
}

/// Whether a view went through: the vault and the incoming tokens are as they
/// were.
pub open spec fn only_asked(
    st: VaultState,
    call: Call,
    out: Result<(VaultState, Reply), VaultError>,
) -> bool {
    out is Ok && out->Ok_0.0 == st && out->Ok_0.1.alkanes == call.incoming
}

/// Every view answers its own cell as it is stored, in 16 bytes per integer, and
/// is never refused; the underlying alone can only be asked for after the setup.
/// An interval or a horizon that is not set yet counts for one.
pub proof fn law_views_answer_their_own_cells(st: VaultState, call: Call, logo: Seq<u8>)
    requires
        st.wf(),
    ensures
        ({
            let name = message::effect(st, PermafrostMessage::GetName, call, logo);
            only_asked(st, call, name) && name->Ok_0.1.data == st.name
        }),
        ({
            let symbol = message::effect(st, PermafrostMessage::GetSymbol, call, logo);
            only_asked(st, call, symbol) && symbol->Ok_0.1.data == st.symbol
        }),
        ({
            let shares = message::effect(st, PermafrostMessage::GetTotalShares, call, logo);
            only_asked(st, call, shares) && answers(shares->Ok_0.1.data, st.shares as int)
        }),
        ({
            let balance = message::effect(st, PermafrostMessage::GetVaultBalance, call, logo);
            only_asked(st, call, balance) && answers(balance->Ok_0.1.data, st.liquidity as int)
        }),
        ({
            let bps = message::effect(st, PermafrostMessage::GetPenaltyBps, call, logo);
            only_asked(st, call, bps) && answers(bps->Ok_0.1.data, st.penalty_bps as int)
        }),
        st.underlying matches Some(u) ==> {
            let id = message::effect(st, PermafrostMessage::GetUnderlying, call, logo);
            only_asked(st, call, id) && answers_two(id->Ok_0.1.data, u.block as int, u.tx as int)
        },
        ({
            let pot = message::effect(st, PermafrostMessage::GetPot, call, logo);
            only_asked(st, call, pot) && answers(pot->Ok_0.1.data, st.pot as int)
        }),
        ({
            let state = message::effect(st, PermafrostMessage::GetState, call, logo);
            &&& only_asked(st, call, state)
            &&& state->Ok_0.1.data.len() == 48
            &&& word(state->Ok_0.1.data, 0) == st.liquidity
            &&& word(state->Ok_0.1.data, 1) == st.pot
            &&& word(state->Ok_0.1.data, 2) == st.shares
        }),
        ({
            let anchor = message::effect(st, PermafrostMessage::GetPotAnchor, call, logo);
            only_asked(st, call, anchor) && answers(anchor->Ok_0.1.data, st.anchor as int)
        }),
        ({
            let interval = message::effect(st, PermafrostMessage::GetDripInterval, call, logo);
            &&& only_asked(st, call, interval)
            &&& st.drip_interval >= 1 ==> answers(
                interval->Ok_0.1.data,
                st.drip_interval as int,
            )
            &&& st.drip_interval == 0 ==> answers(interval->Ok_0.1.data, 1)
        }),
        ({
            let periods = message::effect(st, PermafrostMessage::GetReleasePeriods, call, logo);
            &&& only_asked(st, call, periods)
            &&& st.release_periods >= 1 ==> answers(
                periods->Ok_0.1.data,
                st.release_periods as int,
            )
            &&& st.release_periods == 0 ==> answers(periods->Ok_0.1.data, 1)
        }),
        ({
            let image = message::effect(st, PermafrostMessage::GetData, call, logo);
            only_asked(st, call, image) && image->Ok_0.1.data == logo
        }),
{
    lemma_words(st.liquidity as u128, st.pot as u128, st.shares as u128);
    lemma_words(st.shares as u128, 0, 0);
    lemma_words(st.penalty_bps as u128, 0, 0);
    lemma_words(st.pot as u128, 0, 0);
    lemma_words(st.anchor as u128, 0, 0);
    lemma_words(st.drip_interval as u128, 0, 0);
    lemma_words(st.release_periods as u128, 0, 0);
    lemma_words(1, 0, 0);
    if st.underlying is Some {
        lemma_words((st.underlying->0).block, (st.underlying->0).tx, 0);
    }
}

/// A message does what the operation of its name does, with its parameters in
/// their places.
pub proof fn law_messages_reach_their_operations(
    st: VaultState,
    call: Call,
    logo: Seq<u8>,
    setup: Setup,
    x: u128,
)
    ensures
        message::effect(
            st,
            PermafrostMessage::Initialize {
                underlying: setup.underlying,
                penalty_bps: setup.penalty_bps,
                name: setup.name,
                symbol: setup.symbol,
                drip_interval: setup.drip_interval,
                release_periods: setup.release_periods,
            },
            call,
            logo,
        ) == model::initialize(st, call, setup),
        message::effect(st, PermafrostMessage::Deposit, call, logo) == model::deposit(st, call),
        message::effect(st, PermafrostMessage::Withdraw, call, logo) == model::withdraw(st, call),
        message::effect(st, PermafrostMessage::DonatePot, call, logo) == model::donate_pot(
            st,
            call,
        ),
        message::effect(st, PermafrostMessage::DonateBoost, call, logo) == model::donate_boost(
            st,
            call,
        ),
        message::effect(st, PermafrostMessage::QuoteDeposit { amount: x }, call, logo)
            == message::unchanged(st, model::quote_deposit(st, call, x)),
        message::effect(st, PermafrostMessage::QuoteWithdraw { shares: x }, call, logo)
            == message::unchanged(st, model::quote_withdraw(st, call, x)),
        message::effect(st, PermafrostMessage::GetUnderlying, call, logo) == message::unchanged(
            st,
            model::get_underlying(st, call),
        ),
{
}

/// A view hands the very parcel back with its data, and leaves the vault alone
/// whether it answers or refuses.
pub proof fn law_views_forward(
    st: VaultState,
    call: Call,
    data: Seq<u8>,
    reply: Reply,
    e: VaultError,
)
    ensures
        model::forward(call, data).alkanes == call.incoming,
        model::forward(call, data).data == data,
        message::unchanged(st, Ok(reply)) == Ok::<(VaultState, Reply), VaultError>((st, reply)),
        message::unchanged(st, Err(e)) == Err::<(VaultState, Reply), VaultError>(e),
{
}

/// Every opcode names its call, whatever inputs come with it: the setup reads
/// seven of them in order, a quote reads one, the others none. Any other opcode,
/// and one with inputs missing, names no call.
pub proof fn law_opcodes_name_their_calls(opcode: u128, inputs: Seq<u128>)
    ensures
        inputs.len() >= 7 ==> message::decoded(0, inputs) == Some(
            PermafrostMessage::Initialize {
                underlying: AlkaneId { block: inputs[0], tx: inputs[1] },
                penalty_bps: inputs[2],
                name: inputs[3],
                symbol: inputs[4],
                drip_interval: inputs[5],
                release_periods: inputs[6],
            },
        ),
        inputs.len() < 7 ==> message::decoded(0, inputs) is None,
        message::decoded(1, inputs) == Some(PermafrostMessage::Deposit),
        message::decoded(2, inputs) == Some(PermafrostMessage::Withdraw),
        message::decoded(3, inputs) == Some(PermafrostMessage::DonatePot),
        message::decoded(4, inputs) == Some(PermafrostMessage::DonateBoost),
        message::decoded(99, inputs) == Some(PermafrostMessage::GetName),
        message::decoded(100, inputs) == Some(PermafrostMessage::GetSymbol),
        message::decoded(101, inputs) == Some(PermafrostMessage::GetTotalShares),
        message::decoded(102, inputs) == Some(PermafrostMessage::GetVaultBalance),
        message::decoded(103, inputs) == Some(PermafrostMessage::GetPenaltyBps),
        message::decoded(104, inputs) == Some(PermafrostMessage::GetUnderlying),
        inputs.len() >= 1 ==> message::decoded(105, inputs) == Some(
            PermafrostMessage::QuoteDeposit { amount: inputs[0] },
        ),
        inputs.len() >= 1 ==> message::decoded(106, inputs) == Some(
            PermafrostMessage::QuoteWithdraw { shares: inputs[0] },
        ),
        inputs.len() == 0 ==> message::decoded(105, inputs) is None,
        inputs.len() == 0 ==> message::decoded(106, inputs) is None,
        message::decoded(107, inputs) == Some(PermafrostMessage::GetPot),
        message::decoded(108, inputs) == Some(PermafrostMessage::GetState),
        message::decoded(109, inputs) == Some(PermafrostMessage::GetPotAnchor),
        message::decoded(110, inputs) == Some(PermafrostMessage::GetDripInterval),
        message::decoded(111, inputs) == Some(PermafrostMessage::GetReleasePeriods),
        message::decoded(1000, inputs) == Some(PermafrostMessage::GetData),
        4 < opcode < 99 || 111 < opcode < 1000 || opcode > 1000 ==> message::decoded(
            opcode,
            inputs,
        ) is None,
{
}

} // verus!
