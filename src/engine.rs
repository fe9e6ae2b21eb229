//! The balance and allowance primitives: single credits, debits and
//! transfers on the tables, each applied in full or not at all, and the
//! facts about sequences of them that the ledger's operations rely on.
use vstd::prelude::*;

use crate::model::{
    balance_in, batch_outcome, credit, credit_all, debit, debit_all, held_ids_registered,
    is_registered, transfer_step, AllowanceMap, BalanceMap, OperatorMap,
};
use crate::table::{Key, Table};
use crate::types::{AccountId, Id, IdView, LedgerError};

verus! {

/// What `owner` holds of `id` in the table.
pub(crate) fn balance_lookup(
    balances: &Table<(AccountId, Id), u128>,
    owner: &AccountId,
    id: &Id,
) -> (r: u128)
    requires
        balances.wf(),
    ensures
        r as nat == balance_in(balances@, owner@, id@),
{
    match balances.get(&(owner.duplicate(), id.duplicate())) {
        Some(v) => v,
        None => 0,
    }
}

/// Applies one transfer to the tables, or changes nothing and reports why not.
pub(crate) fn apply_transfer(
    balances: &mut Table<(AccountId, Id), u128>,
    allowances: &mut Table<(AccountId, AccountId, Id), u128>,
    operators: &Table<(AccountId, AccountId), bool>,
    caller: &AccountId,
    from: &AccountId,
    to: &AccountId,
    id: &Id,
    amount: u128,
) -> (r: Result<(), LedgerError>)
    requires
        old(balances).wf(),
        old(allowances).wf(),
        operators.wf(),
    ensures
        final(balances).wf(),
        final(allowances).wf(),
        match transfer_step(
            old(balances)@,
            old(allowances)@,
            operators@,
            caller@,
            from@,
            to@,
            id@,
            amount,
        ) {
            Ok((b, a)) => r is Ok && final(balances)@ == b && final(allowances)@ == a,
            Err(e) => r == Err::<(), LedgerError>(e) && final(balances)@ == old(balances)@
                && final(allowances)@ == old(allowances)@,
        },
{
    if amount == 0 {
        return Ok(());
    }
    let mut scoped: Option<u128> = None;
    if !caller.same(from) {
        let blanket = match operators.get(&(from.duplicate(), caller.duplicate())) {
            Some(v) => v,
            None => false,
        };
        if !blanket {
            let current = match allowances.get(
                &(from.duplicate(), caller.duplicate(), id.duplicate()),
            ) {
                Some(v) => v,
                None => 0,
            };
            if current < amount {
                return Err(LedgerError::InsufficientAllowance);
            }
            scoped = Some(current - amount);
        }
    }
    let from_balance = balance_lookup(balances, from, id);
    if from_balance < amount {
        return Err(LedgerError::InsufficientBalance);
    }
    let to_balance = if from.same(to) {
        from_balance - amount
    } else {
        balance_lookup(balances, to, id)
    };
    if to_balance > u128::MAX - amount {
        return Err(LedgerError::BalanceOverflow);
    }
    match scoped {
        Some(v) => allowances.set((from.duplicate(), caller.duplicate(), id.duplicate()), v),
        None => {},
    }
    balances.set((from.duplicate(), id.duplicate()), from_balance - amount);
    balances.set((to.duplicate(), id.duplicate()), to_balance + amount);
    Ok(())
}

/// A successful transfer keeps every held id an issued one.
pub(crate) proof fn lemma_step_keeps_registered(
    b: BalanceMap,
    a: AllowanceMap,
    o: OperatorMap,
    caller: Seq<u8>,
    from: Seq<u8>,
    to: Seq<u8>,
    id: IdView,
    amount: u128,
    next: u32,
)
    requires
        held_ids_registered(b, next),
        transfer_step(b, a, o, caller, from, to, id, amount) is Ok,
    ensures
        held_ids_registered(transfer_step(b, a, o, caller, from, to, id, amount)->Ok_0.0, next),
{
    if amount > 0 {
        assert(b.contains_key((from, id)) && b[(from, id)] > 0);
    }
}

/// Adds to a balance in the table, or changes nothing and reports why not.
pub(crate) fn apply_credit(
    balances: &mut Table<(AccountId, Id), u128>,
    to: &AccountId,
    id: &Id,
    amount: u128,
) -> (r: Result<(), LedgerError>)
    requires
        old(balances).wf(),
    ensures
        final(balances).wf(),
        match credit(old(balances)@, to@, id@, amount) {
            Ok(b) => r is Ok && final(balances)@ == b,
            Err(e) => r == Err::<(), LedgerError>(e) && final(balances)@ == old(balances)@,
        },
{
    if amount == 0 {
        return Ok(());
    }
    let current = balance_lookup(balances, to, id);
    if current > u128::MAX - amount {
        return Err(LedgerError::BalanceOverflow);
    }
    balances.set((to.duplicate(), id.duplicate()), current + amount);
    Ok(())
}

/// Takes from a balance in the table, or changes nothing and reports why not.
pub(crate) fn apply_debit(
    balances: &mut Table<(AccountId, Id), u128>,
    from: &AccountId,
    id: &Id,
    amount: u128,
) -> (r: Result<(), LedgerError>)
    requires
        old(balances).wf(),
    ensures
        final(balances).wf(),
        match debit(old(balances)@, from@, id@, amount) {
            Ok(b) => r is Ok && final(balances)@ == b,
            Err(e) => r == Err::<(), LedgerError>(e) && final(balances)@ == old(balances)@,
        },
{
    if amount == 0 {
        return Ok(());
    }
    let current = balance_lookup(balances, from, id);
    if current < amount {
        return Err(LedgerError::InsufficientBalance);
    }
    balances.set((from.duplicate(), id.duplicate()), current - amount);
    Ok(())
}

/// An error in a prefix of the legs is the error of the whole batch.
pub(crate) proof fn lemma_batch_error_stays(
    b: BalanceMap,
    a: AllowanceMap,
    o: OperatorMap,
    caller: Seq<u8>,
    from: Seq<u8>,
    to: Seq<u8>,
    legs: Seq<(IdView, u128)>,
    k: int,
)
    requires
        0 <= k <= legs.len(),
        batch_outcome(b, a, o, caller, from, to, legs.take(k)) is Err,
    ensures
        batch_outcome(b, a, o, caller, from, to, legs) == batch_outcome(
            b,
            a,
            o,
            caller,
            from,
            to,
            legs.take(k),
        ),
    decreases legs.len() - k,
{
    if k < legs.len() {
        assert(legs.take(k + 1).drop_last() =~= legs.take(k));
        lemma_batch_error_stays(b, a, o, caller, from, to, legs, k + 1);
    } else {
        assert(legs.take(k) =~= legs);
    }
}

pub(crate) proof fn lemma_credit_error_stays(
    b: BalanceMap,
    to: Seq<u8>,
    legs: Seq<(IdView, u128)>,
    k: int,
)
    requires
        0 <= k <= legs.len(),
        credit_all(b, to, legs.take(k)) is Err,
    ensures
        credit_all(b, to, legs) == credit_all(b, to, legs.take(k)),
    decreases legs.len() - k,
{
    if k < legs.len() {
        assert(legs.take(k + 1).drop_last() =~= legs.take(k));
        lemma_credit_error_stays(b, to, legs, k + 1);
    } else {
        assert(legs.take(k) =~= legs);
    }
}

pub(crate) proof fn lemma_debit_error_stays(
    b: BalanceMap,
    from: Seq<u8>,
    legs: Seq<(IdView, u128)>,
    k: int,
)
    requires
        0 <= k <= legs.len(),
        debit_all(b, from, legs.take(k)) is Err,
    ensures
        debit_all(b, from, legs) == debit_all(b, from, legs.take(k)),
    decreases legs.len() - k,
{
    if k < legs.len() {
        assert(legs.take(k + 1).drop_last() =~= legs.take(k));
        lemma_debit_error_stays(b, from, legs, k + 1);
    } else {
        assert(legs.take(k) =~= legs);
    }
}

pub(crate) fn id_is_registered(id: &Id, next: u32) -> (r: bool)
    ensures
        r == is_registered(id@, next),
{
    match id {
        Id::U32(v) => *v < next,
        _ => false,
    }
}

} // verus!
