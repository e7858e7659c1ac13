//! What holds of the bytes that go in and out, and of quotes.

use crate::bytes;
use crate::error::VaultError;
use crate::fixed;
use crate::model;
use crate::model::{Call, VaultState};
use crate::parcel;
use vstd::prelude::*;

verus! {

/// How many values `len` bytes take.
pub open spec fn byte_range(len: nat) -> nat
    decreases len,
{
    if len == 0 {
        1
    } else {
        256 * byte_range((len - 1) as nat)
    }
}

/// Bytes read back what was written, where they have room for it.
pub proof fn law_bytes_read_back(n: nat, len: nat)
    requires
        n < byte_range(len),
    ensures
        bytes::le_bytes(n, len).len() == len,
        bytes::le_value(bytes::le_bytes(n, len)) == n,
    decreases len,
{
    if len > 0 {
        let rest = bytes::le_bytes(n / 256, (len - 1) as nat);
        law_bytes_read_back(n / 256, (len - 1) as nat);
        assert(bytes::le_bytes(n, len).drop_first() =~= rest);
    }
}

/// The 16 bytes of a 128-bit integer read back the integer.
pub proof fn law_u128_bytes_read_back(n: u128)
    ensures
        bytes::u128_bytes(n as nat).len() == 16,
        bytes::le_value(bytes::u128_bytes(n as nat)) == n,
{
    assert(byte_range(16) == u128::MAX + 1) by {
        reveal_with_fuel(byte_range, 17);
    }
    law_bytes_read_back(n as nat, 16);
}

/// Short bytes, written as an integer and read into more bytes, come back with
/// zeros behind them.
proof fn lemma_padded(s: Seq<u8>, len: nat)
    requires
        s.len() <= len,
    ensures
        bytes::le_bytes(bytes::le_value(s), len) == s + Seq::new(
            (len - s.len()) as nat,
            |i: int| 0u8,
        ),
    decreases len,
{
    let pad = Seq::new((len - s.len()) as nat, |i: int| 0u8);
    if len > 0 {
        if s.len() == 0 {
            lemma_padded(s, (len - 1) as nat);
            let shorter = Seq::new((len - 1) as nat, |i: int| 0u8);
            assert(s + shorter =~= shorter);
            assert(seq![0u8] + shorter =~= s + pad);
        } else {
            let rest = s.drop_first();
            lemma_padded(rest, (len - 1) as nat);
            assert(bytes::le_value(s) % 256 == s[0]);
            assert(bytes::le_value(s) / 256 == bytes::le_value(rest));
            assert(seq![s[0]] + (rest + pad) =~= s + pad);
        }
    } else {
        assert(s + pad =~= Seq::<u8>::empty());
    }
}

/// One more byte is kept where it is not zero.
proof fn lemma_nonzero_push(s: Seq<u8>, b: u8)
    ensures
        bytes::nonzero_bytes(s.push(b)) == (if b != 0 {
            bytes::nonzero_bytes(s).push(b)
        } else {
            bytes::nonzero_bytes(s)
        }),
{
    reveal(Seq::filter);
    assert(s.push(b).drop_last() =~= s);
}

/// Bytes without zeros are all kept.
proof fn lemma_nonzero_all(s: Seq<u8>)
    requires
        forall|i: int| 0 <= i < s.len() ==> s[i] != 0,
    ensures
        bytes::nonzero_bytes(s) == s,
    decreases s.len(),
{
    if s.len() == 0 {
        reveal(Seq::filter);
    } else {
        lemma_nonzero_all(s.drop_last());
        lemma_nonzero_push(s.drop_last(), s.last());
        assert(s.drop_last().push(s.last()) =~= s);
    }
}

/// Bytes without zeros, with zeros behind them, lose only these.
proof fn lemma_nonzero_padded(s: Seq<u8>, k: nat)
    requires
        forall|i: int| 0 <= i < s.len() ==> s[i] != 0,
    ensures
        bytes::nonzero_bytes(s + Seq::new(k, |i: int| 0u8)) == s,
    decreases k,
{
    let all = s + Seq::new(k, |i: int| 0u8);
    if k == 0 {
        assert(all =~= s);
        lemma_nonzero_all(s);
    } else {
        let shorter = s + Seq::new((k - 1) as nat, |i: int| 0u8);
        lemma_nonzero_padded(s, (k - 1) as nat);
        lemma_nonzero_push(shorter, 0);
        assert(shorter.push(0) =~= all);
    }
}

/// A text of at most 16 bytes, none of them zero, packed into an integer as
/// little-endian bytes, is the text that the integer stands for.
pub proof fn law_packed_text_reads_back(s: Seq<u8>)
    requires
        s.len() <= 16,
        forall|i: int| 0 <= i < s.len() ==> s[i] != 0,
        vstd::utf8::valid_utf8(s),
    ensures
        bytes::packed_text(bytes::le_value(s)) == s,
{
    lemma_padded(s, 16);
    lemma_nonzero_padded(s, (16 - s.len()) as nat);
}

/// A quote for a deposit is what the deposit then answers: where the deposit
/// goes through, the quote at the same height answered the same shares; where
/// the quote is refused, so is the deposit, for the same reason; and where it is
/// given, only sums beyond 128 bits refuse the deposit.
pub proof fn law_deposit_quotes_are_honoured(st: VaultState, ask: Call, call: Call, amount: u128)
    requires
        ask.height == call.height,
        model::incoming_underlying(st, call) == Ok::<nat, VaultError>(amount as nat),
    ensures
        model::deposit(st, call) matches Ok(out) ==> {
            &&& model::quote_deposit(st, ask, amount) is Ok
            &&& model::quote_deposit(st, ask, amount)->Ok_0.data == out.1.data
        },
        model::quote_deposit(st, ask, amount) matches Err(e) ==> model::deposit(st, call) == Err::<
            (VaultState, model::Reply),
            VaultError,
        >(e),
        model::quote_deposit(st, ask, amount) is Ok ==> (model::deposit(st, call) matches Err(e)
            ==> e == VaultError::ShareSupplyOverflow || e == VaultError::LiquidityOverflow),
{
}

/// A quote for an exit is what the exit then answers: the one is given exactly
/// where the other goes through, with the same payout and the same tithe.
pub proof fn law_exit_quotes_are_honoured(st: VaultState, ask: Call, call: Call, shares: u128)
    requires
        ask.height == call.height,
        parcel::first_value(call.incoming, call.myself) == Some(shares),
    ensures
        model::withdraw(st, call) is Ok <==> model::quote_withdraw(st, ask, shares) is Ok,
        model::withdraw(st, call) matches Ok(out) ==> model::quote_withdraw(
            st,
            ask,
            shares,
        )->Ok_0.data == out.1.data,
{
}

/// What `get_state`, `get_pot_anchor`, `get_drip_interval` and
/// `get_release_periods` answer is enough to project the pot: the pot that the
/// next operation finds is the stored one after `(h - h0) / I` drips.
pub proof fn law_clients_can_project_the_pot(st: VaultState, h: nat)
    requires
        st.stands(),
        st.anchor <= h,
    ensures
        st.released(h).pot == fixed::decayed_pot(
            st.pot,
            ((h - st.anchor) as nat) / st.interval(),
            st.periods(),
        ),
{
    if h == st.anchor {
        vstd::arithmetic::div_mod::lemma_div_basics(st.interval() as int);
    }
}

} // verus!
