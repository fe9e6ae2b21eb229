//! Properties of the ledger that relate several operations or hold of every
//! state, proved over the model that the operations' contracts use.
use vstd::prelude::*;

use crate::engine::lemma_batch_error_stays;
use crate::ledger::{create_outcome, Contract, LedgerView};
use crate::model::{
    all_registered, balance_in, batch_outcome, burn_outcome, credit_all, mint_outcome,
    transfer_step, AllowanceMap, BalanceMap, OperatorMap,
};
use crate::types::{IdView, LedgerError};

verus! {

/// No balance is ever negative: what any owner holds of any id is a natural
/// number, in every state of the ledger.
pub proof fn balance_never_negative(c: Contract, owner: Seq<u8>, id: IdView)
    requires
        c.wf(),
    ensures
        balance_in(c@.balances, owner, id) >= 0,
        balance_in(c@.balances, owner, id) <= u128::MAX,
{
}

/// A successful transfer of `amount` of `id` from `from` to another account
/// `to` lowers the sender's balance by `amount`, raises the receiver's by
/// `amount`, keeps their sum, and leaves every other balance as it was.
pub proof fn transfer_conserves(
    b: BalanceMap,
    a: AllowanceMap,
    o: OperatorMap,
    caller: Seq<u8>,
    from: Seq<u8>,
    to: Seq<u8>,
    id: IdView,
    amount: u128,
)
    requires
        from != to,
        transfer_step(b, a, o, caller, from, to, id, amount) is Ok,
    ensures
        ({
            let b2 = transfer_step(b, a, o, caller, from, to, id, amount)->Ok_0.0;
            &&& balance_in(b2, from, id) == balance_in(b, from, id) - amount
            &&& balance_in(b2, to, id) == balance_in(b, to, id) + amount
            &&& balance_in(b2, from, id) + balance_in(b2, to, id) == balance_in(b, from, id)
                + balance_in(b, to, id)
            &&& forall|x: Seq<u8>, j: IdView|
                (x != from && x != to) || j != id ==> #[trigger] balance_in(b2, x, j)
                    == balance_in(b, x, j)
        }),
{
}

/// A batch transfer in which some leg would fail, on the state that the legs
/// before it leave, fails as a whole; a failed batch changes no balance (see
/// the contract of `batch_transfer`).
pub proof fn batch_fails_with_any_leg(
    b: BalanceMap,
    a: AllowanceMap,
    o: OperatorMap,
    caller: Seq<u8>,
    from: Seq<u8>,
    to: Seq<u8>,
    legs: Seq<(IdView, u128)>,
    k: int,
)
    requires
        0 <= k < legs.len(),
        batch_outcome(b, a, o, caller, from, to, legs.take(k)) is Ok,
        ({
            let (bk, ak) = batch_outcome(b, a, o, caller, from, to, legs.take(k))->Ok_0;
            transfer_step(bk, ak, o, caller, from, to, legs[k].0, legs[k].1) is Err
        }),
    ensures
        batch_outcome(b, a, o, caller, from, to, legs) is Err,
{
    assert(legs.take(k + 1).drop_last() =~= legs.take(k));
    lemma_batch_error_stays(b, a, o, caller, from, to, legs, k + 1);
}

/// A mint succeeds exactly when every id in it was issued before (`id <
/// next`) and the credits fit; a mint of an id that was not issued fails with
/// `NotAllowed`.
pub proof fn mint_gate(b: BalanceMap, next: u32, to: Seq<u8>, legs: Seq<(IdView, u128)>)
    ensures
        mint_outcome(b, next, to, legs) is Ok <==> (all_registered(legs, next) && credit_all(
            b,
            to,
            legs,
        ) is Ok),
        !all_registered(legs, next) ==> mint_outcome(b, next, to, legs) == Err::<
            BalanceMap,
            LedgerError,
        >(LedgerError::NotAllowed),
        forall|k: int|
            0 <= k < legs.len() && (#[trigger] legs[k].0 matches IdView::U32(v) ==> v >= next)
                ==> mint_outcome(b, next, to, legs) == Err::<BalanceMap, LedgerError>(
                LedgerError::NotAllowed,
            ),
{
}

/// A burn made by anyone but the owner fails with `NotAllowed`; a burn that
/// succeeds was made by the owner.
pub proof fn burn_gate(b: BalanceMap, caller: Seq<u8>, from: Seq<u8>, legs: Seq<(IdView, u128)>)
    ensures
        caller != from ==> burn_outcome(b, caller, from, legs) == Err::<BalanceMap, LedgerError>(
            LedgerError::NotAllowed,
        ),
        burn_outcome(b, caller, from, legs) is Ok ==> caller == from,
{
}

/// Two creations in a row issue the counter's value and then the next one:
/// the ids are distinct and increasing, and each creation advances the
/// counter by exactly one.
pub proof fn registrar_monotone(
    v: LedgerView,
    to1: Seq<u8>,
    amount1: u128,
    uri1: Seq<char>,
    to2: Seq<u8>,
    amount2: u128,
    uri2: Seq<char>,
)
    requires
        create_outcome(v, to1, amount1, uri1) is Ok,
        create_outcome(create_outcome(v, to1, amount1, uri1)->Ok_0.1, to2, amount2, uri2) is Ok,
    ensures
        ({
            let (id1, v1) = create_outcome(v, to1, amount1, uri1)->Ok_0;
            let (id2, v2) = create_outcome(v1, to2, amount2, uri2)->Ok_0;
            &&& id1 == IdView::U32(v.next_id)
            &&& id2 == IdView::U32(v1.next_id)
            &&& v1.next_id == v.next_id + 1
            &&& v2.next_id == v1.next_id + 1
            &&& id1 != id2
            &&& (id1 matches IdView::U32(n1) && id2 matches IdView::U32(n2) && n1 < n2)
        }),
{
}

/// After the URI of `id` is set to `uri`, reading it gives `uri`, also after
/// the URI of any other id is set or removed; after it is removed, reading
/// it gives nothing.
pub proof fn metadata_read_back(
    uris: Map<IdView, Seq<char>>,
    id: IdView,
    uri: Seq<char>,
    other: IdView,
    other_uri: Seq<char>,
)
    requires
        other != id,
    ensures
        uris.insert(id, uri).contains_key(id),
        uris.insert(id, uri)[id] == uri,
        uris.insert(id, uri).insert(other, other_uri)[id] == uri,
        uris.insert(id, uri).remove(other).contains_key(id),
        uris.insert(id, uri).remove(other)[id] == uri,
        !uris.remove(id).contains_key(id),
{
}

} // verus!
