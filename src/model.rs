//! The mathematical model of the ledger: balances, allowances and the
//! outcome of each operation, as maps and functions on them.
use vstd::prelude::*;

use crate::types::{IdView, LedgerError};

verus! {

/// Balances by owner and token id; an absent entry is a zero balance.
pub type BalanceMap = Map<(Seq<u8>, IdView), u128>;

/// Scoped allowances by owner, operator and token id.
pub type AllowanceMap = Map<(Seq<u8>, Seq<u8>, IdView), u128>;

/// Blanket approvals by owner and operator.
pub type OperatorMap = Map<(Seq<u8>, Seq<u8>), bool>;

/// What `owner` holds of `id`.
pub open spec fn balance_in(b: BalanceMap, owner: Seq<u8>, id: IdView) -> nat {
    if b.contains_key((owner, id)) {
        b[(owner, id)] as nat
    } else {
        0
    }
}

/// What `operator` may still move of `owner`'s tokens of `id`, by scoped allowance.
pub open spec fn allowance_in(
    a: AllowanceMap,
    owner: Seq<u8>,
    operator: Seq<u8>,
    id: IdView,
) -> nat {
    if a.contains_key((owner, operator, id)) {
        a[(owner, operator, id)] as nat
    } else {
        0
    }
}

/// Whether `operator` may move any amount of any of `owner`'s tokens.
pub open spec fn approved_all(o: OperatorMap, owner: Seq<u8>, operator: Seq<u8>) -> bool {
    o.contains_key((owner, operator)) && o[(owner, operator)]
}

/// Whether `id` was issued by the registrar while the counter stood at `next`.
pub open spec fn is_registered(id: IdView, next: u32) -> bool {
    match id {
        IdView::U32(v) => v < next,
        _ => false,
    }
}

/// Every id with a nonzero balance has been issued.
pub open spec fn held_ids_registered(b: BalanceMap, next: u32) -> bool {
    forall|k: (Seq<u8>, IdView)| #[trigger]
        b.contains_key(k) && b[k] > 0 ==> is_registered(k.1, next)
}

/// Adds `amount` to what `owner` holds of `id`.
pub open spec fn credit(b: BalanceMap, owner: Seq<u8>, id: IdView, amount: u128) -> Result<
    BalanceMap,
    LedgerError,
> {
    if amount == 0 {
        Ok(b)
    } else if balance_in(b, owner, id) + amount > u128::MAX {
        Err(LedgerError::BalanceOverflow)
    } else {
        Ok(b.insert((owner, id), (balance_in(b, owner, id) + amount) as u128))
    }
}

/// Takes `amount` from what `owner` holds of `id`.
pub open spec fn debit(b: BalanceMap, owner: Seq<u8>, id: IdView, amount: u128) -> Result<
    BalanceMap,
    LedgerError,
> {
    if amount == 0 {
        Ok(b)
    } else if balance_in(b, owner, id) < amount {
        Err(LedgerError::InsufficientBalance)
    } else {
        Ok(b.insert((owner, id), (balance_in(b, owner, id) - amount) as u128))
    }
}

/// Uses up `amount` of what `operator` may move of `owner`'s `id`; a blanket
/// approval is not used up.
pub open spec fn consume(
    a: AllowanceMap,
    o: OperatorMap,
    owner: Seq<u8>,
    operator: Seq<u8>,
    id: IdView,
    amount: u128,
) -> Result<AllowanceMap, LedgerError> {
    if amount == 0 || approved_all(o, owner, operator) {
        Ok(a)
    } else if allowance_in(a, owner, operator, id) < amount {
        Err(LedgerError::InsufficientAllowance)
    } else {
        Ok(a.insert((owner, operator, id), (allowance_in(a, owner, operator, id) - amount) as u128))
    }
}

/// One transfer of `amount` of `id` from `from` to `to`, made by `caller`:
/// the allowance check when the caller is not the owner, then the debit,
/// then the credit.
pub open spec fn transfer_step(
    b: BalanceMap,
    a: AllowanceMap,
    o: OperatorMap,
    caller: Seq<u8>,
    from: Seq<u8>,
    to: Seq<u8>,
    id: IdView,
    amount: u128,
) -> Result<(BalanceMap, AllowanceMap), LedgerError> {
    let allowed = if caller == from {
        Ok(a)
    } else {
        consume(a, o, from, caller, id, amount)
    };
    match allowed {
        Err(e) => Err(e),
        Ok(a2) => match debit(b, from, id, amount) {
            Err(e) => Err(e),
            Ok(b1) => match credit(b1, to, id, amount) {
                Err(e) => Err(e),
                Ok(b2) => Ok((b2, a2)),
            },
        },
    }
}

/// The legs of a batch transfer applied in order; the first leg that fails
/// decides the error.
pub open spec fn batch_outcome(
    b: BalanceMap,
    a: AllowanceMap,
    o: OperatorMap,
    caller: Seq<u8>,
    from: Seq<u8>,
    to: Seq<u8>,
    legs: Seq<(IdView, u128)>,
) -> Result<(BalanceMap, AllowanceMap), LedgerError>
    decreases legs.len(),
{
    if legs.len() == 0 {
        Ok((b, a))
    } else {
        match batch_outcome(b, a, o, caller, from, to, legs.drop_last()) {
            Err(e) => Err(e),
            Ok((b1, a1)) => transfer_step(b1, a1, o, caller, from, to, legs.last().0, legs.last().1),
        }
    }
}

/// The credits of a mint applied in order.
pub open spec fn credit_all(b: BalanceMap, to: Seq<u8>, legs: Seq<(IdView, u128)>) -> Result<
    BalanceMap,
    LedgerError,
>
    decreases legs.len(),
{
    if legs.len() == 0 {
        Ok(b)
    } else {
        match credit_all(b, to, legs.drop_last()) {
            Err(e) => Err(e),
            Ok(b1) => credit(b1, to, legs.last().0, legs.last().1),
        }
    }
}

/// The debits of a burn applied in order.
pub open spec fn debit_all(b: BalanceMap, from: Seq<u8>, legs: Seq<(IdView, u128)>) -> Result<
    BalanceMap,
    LedgerError,
>
    decreases legs.len(),
{
    if legs.len() == 0 {
        Ok(b)
    } else {
        match debit_all(b, from, legs.drop_last()) {
            Err(e) => Err(e),
            Ok(b1) => debit(b1, from, legs.last().0, legs.last().1),
        }
    }
}

/// Every id in `legs` has been issued.
pub open spec fn all_registered(legs: Seq<(IdView, u128)>, next: u32) -> bool {
    forall|k: int| 0 <= k < legs.len() ==> is_registered(#[trigger] legs[k].0, next)
}

/// A mint succeeds only for issued ids.
pub open spec fn mint_outcome(
    b: BalanceMap,
    next: u32,
    to: Seq<u8>,
    legs: Seq<(IdView, u128)>,
) -> Result<
    BalanceMap,
    LedgerError,
> {
    if !all_registered(legs, next) {
        Err(LedgerError::NotAllowed)
    } else {
        credit_all(b, to, legs)
    }
}

/// A burn succeeds only when the owner makes it.
pub open spec fn burn_outcome(
    b: BalanceMap,
    caller: Seq<u8>,
    from: Seq<u8>,
    legs: Seq<(IdView, u128)>,
) -> Result<
    BalanceMap,
    LedgerError,
> {
    if caller != from {
        Err(LedgerError::NotAllowed)
    } else {
        debit_all(b, from, legs)
    }
}

} // verus!
