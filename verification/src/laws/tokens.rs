//! What holds of the tokens that come in and go out.

use crate::laws::history::Step;
use crate::laws::rate;
use crate::laws::release;
use crate::message;
use crate::message::PermafrostMessage;
use crate::model::{VaultState, DEAD_SHARES};
use crate::parcel;
use crate::parcel::{AlkaneId, AlkaneTransfer};
use vstd::prelude::*;

verus! {

/// How much of token `id` a parcel holds.
pub open spec fn total(parcel: Seq<AlkaneTransfer>, id: AlkaneId) -> nat
    decreases parcel.len(),
{
    if parcel.len() == 0 {
        0
    } else {
        total(parcel.drop_last(), id) + if parcel.last().id == id {
            parcel.last().value as nat
        } else {
            0
        }
    }
}

/// A parcel without a token holds none of it, and all of every other.
pub proof fn lemma_without(parcel: Seq<AlkaneTransfer>, gone: AlkaneId, id: AlkaneId)
    ensures
        total(parcel::without(parcel, gone), id) == (if id == gone {
            0
        } else {
            total(parcel, id)
        }),
    decreases parcel.len(),
{
    reveal(Seq::filter);
    if parcel.len() > 0 {
        lemma_without(parcel.drop_last(), gone, id);
        let rest = parcel::without(parcel.drop_last(), gone);
        if parcel.last().id != gone {
            assert(parcel::without(parcel, gone) == rest.push(parcel.last()));
            assert(rest.push(parcel.last()).drop_last() =~= rest);
        }
    }
}

/// One more transfer adds its value to its token.
pub proof fn lemma_total_push(parcel: Seq<AlkaneTransfer>, t: AlkaneTransfer, id: AlkaneId)
    ensures
        total(parcel.push(t), id) == total(parcel, id) + if t.id == id {
            t.value as nat
        } else {
            0
        },
{
    assert(parcel.push(t).drop_last() =~= parcel);
}

/// The first transfer counts like any other.
proof fn lemma_total_first(parcel: Seq<AlkaneTransfer>, id: AlkaneId)
    requires
        parcel.len() > 0,
    ensures
        total(parcel, id) == total(parcel.drop_first(), id) + if parcel[0].id == id {
            parcel[0].value as nat
        } else {
            0
        },
    decreases parcel.len(),
{
    let rest = parcel.drop_first();
    if parcel.len() == 1 {
        assert(parcel.drop_last() =~= Seq::<AlkaneTransfer>::empty());
        assert(rest =~= Seq::<AlkaneTransfer>::empty());
        assert(parcel.last() == parcel[0]);
    } else {
        lemma_total_first(parcel.drop_last(), id);
        assert(parcel.drop_last().drop_first() =~= rest.drop_last());
        assert(rest.last() == parcel.last());
    }
}

/// Whether no token comes in two transfers.
pub open spec fn one_transfer_each(parcel: Seq<AlkaneTransfer>) -> bool {
    forall|i: int, j: int|
        0 <= i < j < parcel.len() ==> (#[trigger] parcel[i]).id != (#[trigger] parcel[j]).id
}

/// A token that no transfer holds adds up to nothing.
proof fn lemma_total_absent(parcel: Seq<AlkaneTransfer>, id: AlkaneId)
    requires
        forall|i: int| 0 <= i < parcel.len() ==> (#[trigger] parcel[i]).id != id,
    ensures
        total(parcel, id) == 0,
    decreases parcel.len(),
{
    if parcel.len() > 0 {
        let init = parcel.drop_last();
        assert forall|i: int| 0 <= i < init.len() implies (#[trigger] init[i]).id != id by {
            assert(init[i] == parcel[i]);
        }
        lemma_total_absent(init, id);
    }
}

/// Whether the first transfer of token `id` is all of it.
pub open spec fn first_is_all(parcel: Seq<AlkaneTransfer>, id: AlkaneId) -> bool {
    total(parcel, id) == match parcel::first_value(parcel, id) {
        Some(v) => v as nat,
        None => 0,
    }
}

/// Where no token comes in two transfers, the first transfer of a token is all
/// of it.
pub proof fn law_single_transfers_are_all(parcel: Seq<AlkaneTransfer>, id: AlkaneId)
    requires
        one_transfer_each(parcel),
    ensures
        first_is_all(parcel, id),
    decreases parcel.len(),
{
    if parcel.len() > 0 {
        let rest = parcel.drop_first();
        lemma_total_first(parcel, id);
        assert forall|i: int, j: int| 0 <= i < j < rest.len() implies (#[trigger] rest[i]).id != (
        #[trigger] rest[j]).id by {
            assert(rest[i] == parcel[i + 1] && rest[j] == parcel[j + 1]);
        }
        if parcel[0].id == id {
            assert forall|i: int| 0 <= i < rest.len() implies (#[trigger] rest[i]).id != id by {
                assert(rest[i] == parcel[i + 1]);
            }
            lemma_total_absent(rest, id);
        } else {
            law_single_transfers_are_all(rest, id);
        }
    }
}

/// Nothing but the underlying and the shares is ever consumed: of every other
/// token, a call hands back all that came in.
pub proof fn law_unrelated_tokens_come_back(st: VaultState, step: Step, id: AlkaneId)
    requires
        st.wf(),
        id != step.call.myself,
        st.underlying != Some(id),
        message::effect(st, step.message, step.call, step.logo) is Ok,
    ensures
        total(
            message::effect(st, step.message, step.call, step.logo)->Ok_0.1.alkanes,
            id,
        ) == total(step.call.incoming, id),
{
    let call = step.call;
    let reply = message::effect(st, step.message, call, step.logo)->Ok_0.1;
    match step.message {
        PermafrostMessage::Deposit => {
            let rest = parcel::without(call.incoming, st.underlying->0);
            lemma_without(call.incoming, st.underlying->0, id);
            lemma_total_push(rest, reply.alkanes.last(), id);
        },
        PermafrostMessage::Withdraw => {
            let rest = parcel::without(call.incoming, call.myself);
            lemma_without(call.incoming, call.myself, id);
            if reply.alkanes != rest {
                lemma_total_push(rest, reply.alkanes.last(), id);
            }
        },
        PermafrostMessage::DonatePot => {
            lemma_without(call.incoming, st.underlying->0, id);
        },
        PermafrostMessage::DonateBoost => {
            lemma_without(call.incoming, st.underlying->0, id);
        },
        _ => {},
    }
}

/// The shares that are not dead.
pub open spec fn circulating(st: VaultState) -> int {
    if st.shares == 0 {
        0
    } else {
        st.shares - DEAD_SHARES
    }
}

/// The books balance. Whatever the call, the liquidity grows by exactly the
/// underlying that stays and shrinks by exactly what is paid out, and the
/// circulating shares grow by exactly the shares that go out and shrink by
/// exactly those that stay: dead shares never circulate. Of the token that the
/// call consumes, the first transfer must be all: what comes in a second one is
/// kept and not counted.
pub proof fn law_the_books_balance(st: VaultState, step: Step)
    requires
        st.wf(),
        step.call.height <= u64::MAX,
        st.underlying != Some(step.call.myself),
        step.message is Deposit || step.message is DonatePot || step.message is DonateBoost
            ==> first_is_all(step.call.incoming, st.underlying->0),
        step.message is Withdraw ==> first_is_all(step.call.incoming, step.call.myself),
        message::effect(st, step.message, step.call, step.logo) is Ok,
    ensures
        ({
            let call = step.call;
            let (next, reply) = message::effect(st, step.message, call, step.logo)->Ok_0;
            &&& st.underlying matches Some(u) ==> next.liquidity + total(reply.alkanes, u)
                == st.liquidity + total(call.incoming, u)
            &&& st.underlying is None ==> next.liquidity == st.liquidity
            &&& circulating(next) + total(call.incoming, call.myself) == circulating(st) + total(
                reply.alkanes,
                call.myself,
            )
        }),
{
    let call = step.call;
    let u = st.underlying->0;
    let (next, reply) = message::effect(st, step.message, call, step.logo)->Ok_0;
    release::law_release_keeps_the_vault_sound(st, call.height);
    match step.message {
        PermafrostMessage::Deposit => {
            let rest = parcel::without(call.incoming, u);
            rate::law_deposit_is_neutral(st, call);
            lemma_without(call.incoming, u, call.myself);
            lemma_without(call.incoming, u, u);
            lemma_total_push(rest, reply.alkanes.last(), call.myself);
            lemma_total_push(rest, reply.alkanes.last(), u);
        },
        PermafrostMessage::Withdraw => {
            let rest = parcel::without(call.incoming, call.myself);
            rate::law_exit_conserves(st, call);
            lemma_without(call.incoming, call.myself, call.myself);
            lemma_without(call.incoming, call.myself, u);
            if st.liquidity > next.liquidity {
                lemma_total_push(rest, reply.alkanes.last(), call.myself);
                lemma_total_push(rest, reply.alkanes.last(), u);
            }
        },
        PermafrostMessage::DonatePot => {
            lemma_without(call.incoming, u, call.myself);
            lemma_without(call.incoming, u, u);
        },
        PermafrostMessage::DonateBoost => {
            lemma_without(call.incoming, u, call.myself);
            lemma_without(call.incoming, u, u);
        },
        _ => {},
    }
}

} // verus!
