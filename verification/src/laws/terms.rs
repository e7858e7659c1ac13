//! What the terms of the model mean, said of their values in plain arithmetic.

use crate::bytes;
use crate::error::VaultError;
use crate::fixed;
use crate::fixed::FP;
use crate::model;
use crate::model::{Reply, VaultState, BPS, DEAD_SHARES};
use crate::parcel;
use crate::parcel::{AlkaneId, AlkaneTransfer, CallResponse, Context};
use crate::vault;
use crate::vault::{Cells, Permafrost};
use vstd::prelude::*;

verus! {

/// Whether `q` is `n / d`, rounded down.
pub open spec fn rounded_down(q: nat, n: nat, d: nat) -> bool {
    q * d <= n && n < q * d + d
}

/// Whether `q` is `n / d`, rounded up.
pub open spec fn rounded_up(q: nat, n: nat, d: nat) -> bool {
    n <= q * d && q * d < n + d
}

/// There is one quotient rounded down and one rounded up.
pub proof fn lemma_rounded_once(q: nat, r: nat, n: nat, d: nat)
    ensures
        rounded_down(q, n, d) && rounded_down(r, n, d) ==> q == r,
        rounded_up(q, n, d) && rounded_up(r, n, d) ==> q == r,
{
    if rounded_down(q, n, d) && rounded_down(r, n, d) {
        assert(q == r) by (nonlinear_arith)
            requires
                q * d <= n < q * d + d,
                r * d <= n < r * d + d,
        ;
    }
    if rounded_up(q, n, d) && rounded_up(r, n, d) {
        assert(q == r) by (nonlinear_arith)
            requires
                n <= q * d < n + d,
                n <= r * d < n + d,
        ;
    }
}

/// The tithe is counted in parts of ten thousand, a thousand shares are dead,
/// and 2^64 stands for one.
pub proof fn law_constants()
    ensures
        BPS == 10_000,
        DEAD_SHARES == 1_000,
        FP == 18_446_744_073_709_551_616,
{
}

/// The rounded quotients are what they are called: whatever is the quotient
/// rounded down or up is the one that the terms name.
pub proof fn law_quotients_are_rounded(n: nat, d: nat, q: nat)
    requires
        d > 0,
    ensures
        rounded_down(fixed::floor_div(n, d), n, d),
        rounded_up(fixed::ceil_div(n, d), n, d),
        rounded_down(q, n, d) ==> fixed::floor_div(n, d) == q,
        rounded_up(q, n, d) ==> fixed::ceil_div(n, d) == q,
{
    crate::laws::rate::lemma_floor_div(n, d);
    fixed::lemma_ceil_div(n, d);
    lemma_rounded_once(q, fixed::floor_div(n, d), n, d);
    lemma_rounded_once(q, fixed::ceil_div(n, d), n, d);
}

/// A quotient is refused for a zero divisor, then for leaving 128 bits, and for
/// nothing else.
pub proof fn law_quotients_are_refused_for_two_reasons(d: nat, q: nat)
    ensures
        d == 0 ==> fixed::checked_quotient(d, q) == Err::<u128, VaultError>(
            VaultError::DivisionByZero,
        ),
        d > 0 && q > u128::MAX ==> fixed::checked_quotient(d, q) == Err::<u128, VaultError>(
            VaultError::MuldivOverflow,
        ),
        d > 0 && q <= u128::MAX ==> (fixed::checked_quotient(d, q) matches Ok(v) && v == q),
{
}

/// The fixed-point product is the product over 2^64, rounded up.
pub proof fn law_fixed_point_products(a: nat, b: nat, q: nat)
    ensures
        rounded_up(fixed::fp_product(a, b), a * b, 18_446_744_073_709_551_616),
        rounded_up(q, a * b, 18_446_744_073_709_551_616) ==> fixed::fp_product(a, b) == q,
{
    law_quotients_are_rounded(a * b, FP as nat, q);
}

/// The power goes through the exponent bit by bit, the lowest first. Each round
/// squares the base, rounded up, and where the bit is set it first multiplies
/// the base in, rounded up. Without bits left the power is what has been
/// accumulated.
pub proof fn law_power_goes_bit_by_bit(acc: nat, base: nat, half: nat, square: nat, more: nat)
    requires
        rounded_up(square, base * base, 18_446_744_073_709_551_616),
        rounded_up(more, acc * base, 18_446_744_073_709_551_616),
    ensures
        fixed::square_multiply(acc, base, 0) == acc,
        half > 0 ==> fixed::square_multiply(acc, base, 2 * half) == fixed::square_multiply(
            acc,
            square,
            half,
        ),
        fixed::square_multiply(acc, base, 2 * half + 1) == fixed::square_multiply(
            more,
            square,
            half,
        ),
{
    law_fixed_point_products(base, base, square);
    law_fixed_point_products(acc, base, more);
    assert((2 * half) % 2 == 0 && (2 * half) / 2 == half);
    assert((2 * half + 1) % 2 == 1 && (2 * half + 1) / 2 == half);
}

/// The decay power starts at one, and its base is `(p - 1) / p`, rounded up.
pub proof fn law_decay_power_starts_at_one(e: nat, p: nat, base: nat)
    requires
        p > 0,
        rounded_up(base, ((p - 1) * 18_446_744_073_709_551_616) as nat, p),
    ensures
        fixed::decay_base(p) == base,
        fixed::decay_power(e, p) == fixed::square_multiply(18_446_744_073_709_551_616, base, e),
{
    law_quotients_are_rounded(((p - 1) * 18_446_744_073_709_551_616) as nat, p, base);
}

/// The pot after `e` drips over `periods` drips is the pot times the decay
/// power, rounded up. No drips and an empty pot change nothing, and a horizon of
/// no drips is one of one drip.
pub proof fn law_pot_follows_the_power(b: nat, e: nat, periods: nat, r: nat)
    ensures
        fixed::decayed_pot(b, 0, periods) == b,
        fixed::decayed_pot(0, e, periods) == 0,
        fixed::decayed_pot(b, e, 0) == fixed::decayed_pot(b, e, 1),
        b > 0 && e > 0 && periods > 0 && rounded_up(
            r,
            b * fixed::decay_power(e, periods),
            18_446_744_073_709_551_616,
        ) ==> fixed::decayed_pot(b, e, periods) == r,
{
    law_quotients_are_rounded(b * fixed::decay_power(e, periods), FP as nat, r);
}

/// Shares are worth their part, rounded down; the tithe is its part in ten
/// thousand of the worth, rounded up; the payout is the rest.
pub proof fn law_exit_amounts(b: nat, active: nat, s: nat, bps: nat, w: nat, t: nat)
    requires
        s > 0,
        rounded_down(w, b * active, s),
        rounded_up(t, w * bps, 10_000),
    ensures
        model::worth(b, active, s) == w,
        model::tithe(w, bps) == t,
        model::payout(w, bps) == w - t,
{
    law_quotients_are_rounded(b * active, s, w);
    law_quotients_are_rounded(w * bps, 10_000, t);
}

/// What a deposit mints, for whatever amounts: one share per unit but for the
/// dead thousand where there are no shares, and its part at the rate, rounded
/// down, where there are.
pub proof fn law_minted_amounts(d: nat, active: nat, s: nat, m: nat)
    ensures
        s == 0 && d <= 1_000 ==> model::minted(d, active, s) == Err::<nat, VaultError>(
            VaultError::FirstDepositTooSmall,
        ),
        s == 0 && d > 1_000 ==> (model::minted(d, active, s) matches Ok(v) && v == d - 1_000),
        s > 0 && active == 0 ==> model::minted(d, active, s) == Err::<nat, VaultError>(
            VaultError::DivisionByZero,
        ),
        s > 0 && active > 0 && d * s < active ==> model::minted(d, active, s) == Err::<
            nat,
            VaultError,
        >(VaultError::DepositTooSmall),
        s > 0 && active > 0 && m > u128::MAX && rounded_down(m, d * s, active) ==> model::minted(
            d,
            active,
            s,
        ) == Err::<nat, VaultError>(VaultError::MuldivOverflow),
        s > 0 && active > 0 && 0 < m <= u128::MAX && rounded_down(m, d * s, active) ==> (
        model::minted(d, active, s) matches Ok(v) && v == m),
{
    if active > 0 {
        law_quotients_are_rounded(d * s, active, m);
        law_quotients_are_rounded(d * s, active, 0);
        assert(0 * active == 0);
    }
}

/// An integer has its `i`-th byte where 256^i counts.
pub proof fn law_bytes_are_in_place(n: nat, len: nat, i: nat)
    requires
        i < len,
    ensures
        bytes::le_bytes(n, len).len() == len,
        bytes::le_bytes(n, len)[i as int] == (n as int / vstd::arithmetic::power::pow(256, i)) % 256,
    decreases len,
{
    vstd::arithmetic::power::lemma_pow0(256);
    let rest = bytes::le_bytes(n / 256, (len - 1) as nat);
    if i == 0 {
        if len > 1 {
            law_bytes_are_in_place(n / 256, (len - 1) as nat, 0);
        }
        assert(vstd::arithmetic::power::pow(256, 0) == 1);
    } else {
        let k = (i - 1) as nat;
        law_bytes_are_in_place(n / 256, (len - 1) as nat, k);
        vstd::arithmetic::power::lemma_pow_positive(256, k);
        let p = vstd::arithmetic::power::pow(256, k);
        reveal(vstd::arithmetic::power::pow);
        assert(vstd::arithmetic::power::pow(256, i) == 256 * p);
        vstd::arithmetic::div_mod::lemma_div_denominator(n as int, 256, p);
        assert(bytes::le_bytes(n, len)[i as int] == rest[k as int]);
    }
}

/// A 128-bit integer takes 16 bytes, the lowest first.
pub proof fn law_words_are_sixteen_bytes(n: nat, i: nat)
    requires
        i < 16,
    ensures
        bytes::u128_bytes(n).len() == 16,
        bytes::u128_bytes(n)[i as int] == (n as int / vstd::arithmetic::power::pow(256, i)) % 256,
{
    law_bytes_are_in_place(n, 16, i);
}

/// Bytes stand for the integer that the first of them and, 256 times as much,
/// the others make up.
pub proof fn law_bytes_count_from_the_first(b: u8, s: Seq<u8>)
    ensures
        bytes::le_value(Seq::<u8>::empty()) == 0,
        bytes::le_value(seq![b] + s) == b + 256 * bytes::le_value(s),
{
    assert((seq![b] + s).drop_first() =~= s);
}

/// Of the bytes of a packed text the zeros are dropped, one by one, and what is
/// left keeps its order.
pub proof fn law_zeros_are_dropped(s: Seq<u8>, b: u8)
    ensures
        bytes::nonzero_bytes(Seq::<u8>::empty()) == Seq::<u8>::empty(),
        bytes::nonzero_bytes(s.push(0)) == bytes::nonzero_bytes(s),
        b != 0 ==> bytes::nonzero_bytes(s.push(b)) == bytes::nonzero_bytes(s).push(b),
{
    reveal(Seq::filter);
    assert(s.push(0).drop_last() =~= s);
    assert(s.push(b).drop_last() =~= s);
}

/// A packed text is the bytes of the integer without the zeros where they are
/// UTF-8, and nothing where they are not.
pub proof fn law_packed_text_is_the_kept_bytes(v: nat, all: Seq<u8>)
    requires
        all.len() == 16,
        forall|i: nat|
            i < 16 ==> #[trigger] all[i as int] == (v as int / vstd::arithmetic::power::pow(256, i))
                % 256,
    ensures
        vstd::utf8::valid_utf8(bytes::nonzero_bytes(all)) ==> bytes::packed_text(v)
            == bytes::nonzero_bytes(all),
        !vstd::utf8::valid_utf8(bytes::nonzero_bytes(all)) ==> bytes::packed_text(v)
            == Seq::<u8>::empty(),
{
    law_words_are_sixteen_bytes(v, 0);
    assert forall|j: int| 0 <= j < 16 implies bytes::u128_bytes(v)[j] == all[j] by {
        law_words_are_sixteen_bytes(v, j as nat);
        assert(all[(j as nat) as int] == (v as int / vstd::arithmetic::power::pow(256, j as nat))
            % 256);
    }
    assert(bytes::u128_bytes(v) =~= all);
}

/// Whether the first transfer of token `id` is at `i`.
pub open spec fn first_at(parcel: Seq<AlkaneTransfer>, id: AlkaneId, i: int) -> bool {
    &&& 0 <= i < parcel.len()
    &&& parcel[i].id == id
    &&& forall|j: int| 0 <= j < i ==> (#[trigger] parcel[j]).id != id
}

/// Whether `value` is that of the first transfer of token `id`, and none where
/// there is no such transfer.
pub open spec fn first_transfer(
    parcel: Seq<AlkaneTransfer>,
    id: AlkaneId,
    value: Option<u128>,
) -> bool {
    match value {
        None => forall|i: int| 0 <= i < parcel.len() ==> (#[trigger] parcel[i]).id != id,
        Some(v) => exists|i: int| #[trigger] first_at(parcel, id, i) && parcel[i].value == v,
    }
}

/// The value that counts is that of the first transfer of the token.
pub proof fn law_first_transfer_counts(
    parcel: Seq<AlkaneTransfer>,
    id: AlkaneId,
    value: Option<u128>,
)
    requires
        first_transfer(parcel, id, value),
    ensures
        parcel::first_value(parcel, id) == value,
    decreases parcel.len(),
{
    if parcel.len() > 0 && parcel[0].id != id {
        let rest = parcel.drop_first();
        assert forall|j: int| 0 <= j < rest.len() implies #[trigger] rest[j] == parcel[j + 1] by {}
        match value {
            None => {},
            Some(v) => {
                let i = choose|i: int| #[trigger] first_at(parcel, id, i) && parcel[i].value == v;
                assert(first_at(rest, id, i - 1));
            },
        }
        law_first_transfer_counts(rest, id, value);
    } else if parcel.len() > 0 {
        match value {
            None => {},
            Some(v) => {
                let i = choose|i: int| #[trigger] first_at(parcel, id, i) && parcel[i].value == v;
                if i > 0 {
                    assert(parcel[0].id != id);
                }
            },
        }
    }
}

/// What a call refunds is every transfer but those of one token, in order.
pub proof fn law_refunds_leave_one_token_out(
    parcel: Seq<AlkaneTransfer>,
    t: AlkaneTransfer,
    id: AlkaneId,
)
    ensures
        parcel::without(Seq::<AlkaneTransfer>::empty(), id) == Seq::<AlkaneTransfer>::empty(),
        t.id == id ==> parcel::without(parcel.push(t), id) == parcel::without(parcel, id),
        t.id != id ==> parcel::without(parcel.push(t), id) == parcel::without(parcel, id).push(t),
{
    reveal(Seq::filter);
    assert(parcel.push(t).drop_last() =~= parcel);
}

/// Whether `n` whole drip intervals, as stored, have passed from the anchor up
/// to height `h`.
pub open spec fn drips_passed(st: VaultState, h: nat, n: nat) -> bool {
    if h <= st.anchor {
        n == 0
    } else {
        rounded_down(n, (h - st.anchor) as nat, st.drip_interval)
    }
}

/// The pot of `st` after `n` drips over the stored horizon; it is whole while no
/// more than the thousand dead shares stand.
pub open spec fn pot_after(st: VaultState, n: nat) -> nat {
    if st.shares > 1_000 {
        fixed::decayed_pot(st.pot, n, st.release_periods)
    } else {
        st.pot
    }
}

/// The release goes by the stored parameters: as many drips are taken as whole
/// stored intervals have passed, over the stored horizon, and the anchor moves by
/// exactly these intervals. Everything else stays.
pub proof fn law_release_goes_by_the_stored_parameters(st: VaultState, h: nat, n: nat)
    requires
        st.drip_interval >= 1,
        st.release_periods >= 1,
        drips_passed(st, h, n),
    ensures
        st.interval() == st.drip_interval,
        st.periods() == st.release_periods,
        st.drips_due(h) == n,
        st.stands() <==> st.shares > 1_000,
        st.pot <= st.liquidity ==> st.active() == st.liquidity - st.pot,
        st.released(h) == (VaultState {
            pot: pot_after(st, n),
            anchor: st.anchor + n * st.drip_interval,
            ..st
        }),
{
    if h > st.anchor {
        law_quotients_are_rounded((h - st.anchor) as nat, st.drip_interval, n);
    }
}

/// Where no interval is stored every block is a drip: the anchor moves up to the
/// height, and as many drips are taken as it moves by. Where no horizon is stored
/// it is one drip.
pub proof fn law_release_without_parameters(st: VaultState, h: nat)
    requires
        st.drip_interval == 0,
    ensures
        h <= st.anchor ==> st.released(h) == st,
        h > st.anchor ==> st.released(h) == (VaultState {
            pot: pot_after(st, (h - st.anchor) as nat),
            anchor: h,
            ..st
        }),
{
    if h > st.anchor {
        let n = (h - st.anchor) as nat;
        law_quotients_are_rounded(n, 1, n);
        law_pot_follows_the_power(st.pot, n, 0, 0);
    } else {
        assert(0 * st.interval() == 0);
    }
}

/// Before the setup nothing is stored, and a drip counts for one block and a
/// horizon for one drip.
pub proof fn law_parameters_before_the_setup(st: VaultState)
    ensures
        st.drip_interval == 0 ==> st.interval() == 1,
        st.drip_interval >= 1 ==> st.interval() == st.drip_interval,
        st.release_periods == 0 ==> st.periods() == 1,
        st.release_periods >= 1 ==> st.periods() == st.release_periods,
        VaultState::blank().underlying is None,
        VaultState::blank().liquidity == 0 && VaultState::blank().pot == 0,
        VaultState::blank().shares == 0 && VaultState::blank().anchor == 0,
        VaultState::blank().penalty_bps == 0,
        VaultState::blank().drip_interval == 0 && VaultState::blank().release_periods == 0,
        VaultState::blank().name.len() == 0 && VaultState::blank().symbol.len() == 0,
{
}

/// What it takes to be a vault, and no more: the numbers fit, the pot is part of
/// the liquidity, every share stands for at least a unit, the shares hold the
/// dead thousand or there are none and nothing stands for them, and the
/// parameters are those of a setup, before which there is nothing.
pub proof fn law_what_makes_a_vault(st: VaultState)
    requires
        st.liquidity <= u128::MAX,
        st.anchor <= u64::MAX,
        st.drip_interval <= u64::MAX,
        st.release_periods <= u128::MAX,
    ensures
        st.wf() <==> {
            &&& st.pot + st.shares <= st.liquidity
            &&& st.shares >= 1_000 || (st.shares == 0 && st.liquidity == st.pot)
            &&& st.penalty_bps <= 10_000
            &&& st.underlying is None ==> st.liquidity == 0
            &&& st.underlying is Some ==> st.drip_interval >= 1 && st.release_periods >= 1
            &&& st.underlying matches Some(id) ==> id.block != 0 || id.tx != 0
        },
{
}

/// The state shows the stored cells, each under its own name.
pub proof fn law_state_shows_the_cells(cells: Cells)
    ensures
        cells@.underlying == cells.underlying,
        cells@.penalty_bps == cells.penalty_bps,
        cells@.name == cells.name@,
        cells@.symbol == cells.symbol@,
        cells@.drip_interval == cells.drip_interval,
        cells@.release_periods == cells.release_periods,
        cells@.liquidity == cells.liquidity,
        cells@.pot == cells.pot,
        cells@.shares == cells.total_shares,
        cells@.anchor == cells.pot_anchor,
{
}

/// A call shows what the host told, and a reply what is handed back.
pub proof fn law_calls_show_what_goes_in_and_out(context: Context, response: CallResponse)
    ensures
        context@.myself == context.myself,
        context@.incoming == context.incoming_alkanes@,
        context@.height == context.height,
        response@.alkanes == response.alkanes@,
        response@.data == response.data@,
{
}

/// What it is to have handled a call: on success the vault is the next one and
/// the response holds the tokens and the bytes of the reply, on refusal the error
/// comes back and the vault is the very same. A view answers likewise.
pub proof fn law_handlers_hand_over_everything(
    before: Permafrost,
    after: Permafrost,
    result: Result<CallResponse, VaultError>,
    next: VaultState,
    reply: Reply,
    error: VaultError,
)
    ensures
        vault::handled(before, after, result, Ok((next, reply))) <==> {
            &&& after@ == next
            &&& result is Ok
            &&& result->Ok_0.alkanes@ == reply.alkanes
            &&& result->Ok_0.data@ == reply.data
        },
        vault::handled(before, after, result, Err(error)) <==> after == before && result == Err::<
            CallResponse,
            VaultError,
        >(error),
        vault::answered(result, Ok(reply)) <==> {
            &&& result is Ok
            &&& result->Ok_0.alkanes@ == reply.alkanes
            &&& result->Ok_0.data@ == reply.data
        },
        vault::answered(result, Err(error)) <==> result == Err::<CallResponse, VaultError>(error),
{
}

} // verus!
