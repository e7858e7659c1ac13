//! Token ids, transfers, and what goes into a call and comes out of it.

use crate::model;
use vstd::prelude::*;

verus! {

/// The id of an alkane.
#[derive(Clone, Copy, Debug, PartialEq, Eq, Structural)]
pub struct AlkaneId {
    pub block: u128,
    pub tx: u128,
}

/// An amount of one token.
#[derive(Clone, Copy, Debug, PartialEq, Eq, Structural)]
pub struct AlkaneTransfer {
    pub id: AlkaneId,
    pub value: u128,
}

/// What the host tells of a call.
#[derive(Debug)]
pub struct Context {
    /// The vault's own id, which is the id of its share token.
    pub myself: AlkaneId,
    /// The tokens that came in with the call.
    pub incoming_alkanes: Vec<AlkaneTransfer>,
    /// The block height of the call.
    pub height: u64,
}

impl View for Context {
    type V = model::Call;

    open spec fn view(&self) -> model::Call {
        model::Call {
            myself: self.myself,
            incoming: self.incoming_alkanes@,
            height: self.height as nat,
        }
    }
}

/// What a call hands back.
#[derive(Debug)]
pub struct CallResponse {
    /// The tokens that go out.
    pub alkanes: Vec<AlkaneTransfer>,
    /// The bytes of the answer.
    pub data: Vec<u8>,
}

impl View for CallResponse {
    type V = model::Reply;

    open spec fn view(&self) -> model::Reply {
        model::Reply { alkanes: self.alkanes@, data: self.data@ }
    }
}

/// The value of the first transfer of token `id`.
pub open spec fn first_value(parcel: Seq<AlkaneTransfer>, id: AlkaneId) -> Option<u128>
    decreases parcel.len(),
{
    if parcel.len() == 0 {
        None
    } else if parcel[0].id == id {
        Some(parcel[0].value)
    } else {
        first_value(parcel.drop_first(), id)
    }
}

/// The transfers of every token but `id`, in their order.
pub open spec fn without(parcel: Seq<AlkaneTransfer>, id: AlkaneId) -> Seq<AlkaneTransfer> {
    parcel.filter(|t: AlkaneTransfer| t.id != id)
}

/// The value of the first transfer of token `id`.
pub fn find_value(parcel: &Vec<AlkaneTransfer>, id: AlkaneId) -> (r: Option<u128>)
    ensures
        r == first_value(parcel@, id),
{
    let mut i: usize = 0;
    assert(parcel@.skip(0) =~= parcel@);
    while i < parcel.len()
        invariant
            i <= parcel@.len(),
            first_value(parcel@.skip(i as int), id) == first_value(parcel@, id),
        decreases parcel@.len() - i,
    {
        if parcel[i].id == id {
            return Some(parcel[i].value);
        }
        assert(parcel@.skip(i as int).drop_first() =~= parcel@.skip(i + 1));
        i = i + 1;
    }
    None
}

/// The transfers of every token but `id`, in their order.
pub fn refund_others(parcel: &Vec<AlkaneTransfer>, id: AlkaneId) -> (r: Vec<AlkaneTransfer>)
    ensures
        r@ == without(parcel@, id),
{
    let ghost other = |t: AlkaneTransfer| t.id != id;
    let mut r: Vec<AlkaneTransfer> = Vec::new();
    let mut i: usize = 0;
    proof {
        reveal(Seq::filter);
        assert(parcel@.take(0) =~= Seq::<AlkaneTransfer>::empty());
    }
    while i < parcel.len()
        invariant
            i <= parcel@.len(),
            r@ == parcel@.take(i as int).filter(other),
            other == (|t: AlkaneTransfer| t.id != id),
        decreases parcel@.len() - i,
    {
        proof {
            reveal(Seq::filter);
            assert(parcel@.take(i + 1).drop_last() =~= parcel@.take(i as int));
        }
        if parcel[i].id != id {
            r.push(parcel[i]);
        }
        i = i + 1;
    }
    assert(parcel@.take(parcel@.len() as int) =~= parcel@);
    r
}

impl CallResponse {
    /// An answer of `data` that hands every incoming token back.
    pub fn forward(incoming: &Vec<AlkaneTransfer>, data: Vec<u8>) -> (r: CallResponse)
        ensures
            r@ == (model::Reply { alkanes: incoming@, data: data@ }),
    {
        let mut alkanes: Vec<AlkaneTransfer> = Vec::new();
        let mut i: usize = 0;
        while i < incoming.len()
            invariant
                i <= incoming@.len(),
                alkanes@ == incoming@.take(i as int),
            decreases incoming@.len() - i,
        {
            alkanes.push(incoming[i]);
            assert(incoming@.take(i + 1) =~= incoming@.take(i as int).push(incoming@[i as int]));
            i = i + 1;
        }
        assert(incoming@.take(incoming@.len() as int) =~= incoming@);
        CallResponse { alkanes, data }
    }
}

} // verus!
