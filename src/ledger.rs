//! The ledger: balances, approvals, token URIs and the id counter, with the
//! operations that change them. Each operation either applies in full and
//! returns the events it announces, or returns an error and changes nothing.
use vstd::prelude::*;

use crate::engine::{
    apply_credit, apply_debit, apply_transfer, balance_lookup, id_is_registered,
    lemma_batch_error_stays, lemma_credit_error_stays, lemma_debit_error_stays,
    lemma_step_keeps_registered,
};
use crate::model::{
    all_registered, allowance_in, approved_all, balance_in, batch_outcome, burn_outcome, credit,
    credit_all,
    debit_all, held_ids_registered, is_registered, mint_outcome, transfer_step, AllowanceMap,
    BalanceMap, OperatorMap,
};
use crate::table::{Key, Table};
use crate::types::{
    account_opt, events_view, legs_view, AccountId, Amount, Approval, Event, EventView, Id,
    IdView, LedgerError, SetTokenUri, Transfer, TransferBatch,
};

verus! {

/// The ledger's state: balances by owner and id, blanket approvals and
/// scoped allowances, token URIs, and the counter that issues token ids.
/// The caller of each operation is passed in; the events that an operation
/// announces are returned to be forwarded by whoever runs the ledger.
pub struct Contract {
    balances: Table<(AccountId, Id), u128>,
    operator_approvals: Table<(AccountId, AccountId), bool>,
    allowances: Table<(AccountId, AccountId, Id), u128>,
    token_uris: Table<Id, String>,
    next_id: u32,
}

/// The ledger's state as maps.
pub struct LedgerView {
    pub balances: BalanceMap,
    pub allowances: AllowanceMap,
    pub operators: OperatorMap,
    pub uris: Map<IdView, Seq<char>>,
    pub next_id: u32,
}

/// The outcome of issuing the next id: the URI is stored, `amount` of the
/// new id is credited to `to`, and the counter advances by one.
pub open spec fn create_outcome(v: LedgerView, to: Seq<u8>, amount: u128, uri: Seq<char>) -> Result<
    (IdView, LedgerView),
    LedgerError,
> {
    if v.next_id == u32::MAX {
        Err(LedgerError::IdsExhausted)
    } else {
        let id = IdView::U32(v.next_id);
        match credit(v.balances, to, id, amount) {
            Err(e) => Err(e),
            Ok(b) => Ok(
                (
                    id,
                    LedgerView {
                        balances: b,
                        allowances: v.allowances,
                        operators: v.operators,
                        uris: v.uris.insert(id, uri),
                        next_id: (v.next_id + 1) as u32,
                    },
                ),
            ),
        }
    }
}

/// The events of a single transfer: the transfer and its amount.
pub open spec fn transfer_events_view(
    from: Option<Seq<u8>>,
    to: Option<Seq<u8>>,
    id: IdView,
    amount: u128,
) -> Seq<EventView> {
    seq![EventView::Transfer { from, to, id, amount }, EventView::Amount { amount }]
}

/// The events of a mint or burn: those of a single transfer for one leg,
/// one batch event otherwise.
pub open spec fn supply_events_view(
    from: Option<Seq<u8>>,
    to: Option<Seq<u8>>,
    legs: Seq<(IdView, u128)>,
) -> Seq<EventView> {
    if legs.len() == 1 {
        transfer_events_view(from, to, legs[0].0, legs[0].1)
    } else {
        seq![EventView::TransferBatch { from, to, ids_amounts: legs }]
    }
}

fn transfer_events(
    from: Option<AccountId>,
    to: Option<AccountId>,
    id: Id,
    amount: u128,
) -> (r: Vec<Event>)
    ensures
        events_view(r@) == transfer_events_view(account_opt(from), account_opt(to), id@, amount),
{
    let r = vec![
        Event::Transfer(Transfer { from, to, id, amount }),
        Event::Amount(Amount { amount }),
    ];
    assert(events_view(r@) =~= transfer_events_view(account_opt(from), account_opt(to), id@, amount));
    r
}

fn transfer_batch_events(
    from: Option<AccountId>,
    to: Option<AccountId>,
    ids_amounts: Vec<(Id, u128)>,
) -> (r: Vec<Event>)
    ensures
        events_view(r@) == seq![
            EventView::TransferBatch {
                from: account_opt(from),
                to: account_opt(to),
                ids_amounts: legs_view(ids_amounts@),
            },
        ],
{
    let ghost legs = ids_amounts@;
    let r = vec![Event::TransferBatch(TransferBatch { from, to, ids_amounts })];
    assert(events_view(r@) =~= seq![
        EventView::TransferBatch {
            from: account_opt(from),
            to: account_opt(to),
            ids_amounts: legs_view(legs),
        },
    ]);
    r
}

fn supply_events(
    from: Option<AccountId>,
    to: Option<AccountId>,
    ids_amounts: Vec<(Id, u128)>,
) -> (r: Vec<Event>)
    ensures
        events_view(r@) == supply_events_view(account_opt(from), account_opt(to), legs_view(ids_amounts@)),
{
    if ids_amounts.len() == 1 {
        transfer_events(from, to, ids_amounts[0].0.duplicate(), ids_amounts[0].1)
    } else {
        transfer_batch_events(from, to, ids_amounts)
    }
}

fn copy_account(a: &AccountId) -> (r: Option<AccountId>)
    ensures
        account_opt(r) == Some(a@),
{
    Some(a.duplicate())
}

impl View for Contract {
    type V = LedgerView;

    closed spec fn view(&self) -> LedgerView {
        LedgerView {
            balances: self.balances@,
            allowances: self.allowances@,
            operators: self.operator_approvals@,
            uris: self.token_uris@,
            next_id: self.next_id,
        }
    }
}

impl Contract {
    /// The tables have unique keys, and every id held in a nonzero amount
    /// was issued by the registrar.
    pub closed spec fn wf(&self) -> bool {
        &&& self.balances.wf()
        &&& self.operator_approvals.wf()
        &&& self.allowances.wf()
        &&& self.token_uris.wf()
        &&& held_ids_registered(self.balances@, self.next_id)
    }

    /// An empty ledger whose counter starts at zero.
    pub fn new() -> (r: Self)
        ensures
            r.wf(),
            r@.balances == BalanceMap::empty(),
            r@.allowances == AllowanceMap::empty(),
            r@.operators == OperatorMap::empty(),
            r@.uris == Map::<IdView, Seq<char>>::empty(),
            r@.next_id == 0,
    {
        Contract {
            balances: Table::new(),
            operator_approvals: Table::new(),
            allowances: Table::new(),
            token_uris: Table::new(),
            next_id: 0,
        }
    }

    /// What `owner` holds of `id`.
    pub fn balance_of(&self, owner: &AccountId, id: &Id) -> (r: u128)
        requires
            self.wf(),
        ensures
            r as nat == balance_in(self@.balances, owner@, id@),
    {
        balance_lookup(&self.balances, owner, id)
    }

    /// Whether `operator` may move any of `owner`'s tokens.
    pub fn is_approved_for_all(&self, owner: &AccountId, operator: &AccountId) -> (r: bool)
        requires
            self.wf(),
        ensures
            r == approved_all(self@.operators, owner@, operator@),
    {
        match self.operator_approvals.get(&(owner.duplicate(), operator.duplicate())) {
            Some(v) => v,
            None => false,
        }
    }

    /// What `operator` may move of `owner`'s tokens of `id`: the largest
    /// amount under a blanket approval, else the scoped allowance.
    pub fn allowance(&self, owner: &AccountId, operator: &AccountId, id: &Id) -> (r: u128)
        requires
            self.wf(),
        ensures
            approved_all(self@.operators, owner@, operator@) ==> r == u128::MAX,
            !approved_all(self@.operators, owner@, operator@) ==> r as nat == allowance_in(
                self@.allowances,
                owner@,
                operator@,
                id@,
            ),
    {
        if self.is_approved_for_all(owner, operator) {
            u128::MAX
        } else {
            match self.allowances.get(&(owner.duplicate(), operator.duplicate(), id.duplicate())) {
                Some(v) => v,
                None => 0,
            }
        }
    }

    /// The id that the next `create_nft` issues.
    pub fn next_id(&self) -> (r: u32)
        ensures
            r == self@.next_id,
    {
        self.next_id
    }

    /// Sets what `operator` may move of `owner`'s tokens: of one id when `id`
    /// is given (the amount `value`, replacing the old one), of all ids
    /// otherwise (granted when `value` is nonzero, revoked when it is zero).
    pub fn approve(
        &mut self,
        owner: AccountId,
        operator: AccountId,
        id: Option<Id>,
        value: u128,
    ) -> (r: Vec<Event>)
        requires
            old(self).wf(),
        ensures
            final(self).wf(),
            match id {
                Some(i) => final(self)@.allowances == old(self)@.allowances.insert(
                    (owner@, operator@, i@),
                    value,
                ) && final(self)@.operators == old(self)@.operators,
                None => final(self)@.operators == old(self)@.operators.insert(
                    (owner@, operator@),
                    value > 0,
                ) && final(self)@.allowances == old(self)@.allowances,
            },
            final(self)@.balances == old(self)@.balances,
            final(self)@.uris == old(self)@.uris,
            final(self)@.next_id == old(self)@.next_id,
            events_view(r@) == seq![
                EventView::Approval {
                    owner: owner@,
                    operator: operator@,
                    id: match id {
                        Some(i) => Some(i@),
                        None => None,
                    },
                    value,
                },
            ],
    {
        let event_id = match &id {
            Some(i) => Some(i.duplicate()),
            None => None,
        };
        match id {
            Some(i) => self.allowances.set((owner.duplicate(), operator.duplicate(), i), value),
            None => self.operator_approvals.set((owner.duplicate(), operator.duplicate()), value > 0),
        }
        let r = vec![Event::Approval(Approval { owner, operator, id: event_id, value })];
        assert(events_view(r@) =~= seq![
            EventView::Approval {
                owner: owner@,
                operator: operator@,
                id: match id {
                    Some(i) => Some(i@),
                    None => None,
                },
                value,
            },
        ]);
        r
    }

    /// Moves `amount` of `id` from `from` to `to`. When `caller` is not
    /// `from`, the move uses up `caller`'s allowance unless it holds a
    /// blanket approval. A zero amount always succeeds and changes nothing.
    pub fn transfer(
        &mut self,
        caller: &AccountId,
        from: AccountId,
        to: AccountId,
        id: Id,
        amount: u128,
    ) -> (r: Result<Vec<Event>, LedgerError>)
        requires
            old(self).wf(),
        ensures
            final(self).wf(),
            final(self)@.operators == old(self)@.operators,
            final(self)@.uris == old(self)@.uris,
            final(self)@.next_id == old(self)@.next_id,
            match transfer_step(
                old(self)@.balances,
                old(self)@.allowances,
                old(self)@.operators,
                caller@,
                from@,
                to@,
                id@,
                amount,
            ) {
                Ok((b, a)) => r is Ok && final(self)@.balances == b && final(self)@.allowances == a
                    && events_view(r->Ok_0@) == transfer_events_view(Some(from@), Some(to@), id@, amount),
                Err(e) => r == Err::<Vec<Event>, LedgerError>(e) && final(self)@ == old(self)@,
            },
    {
        proof {
            if transfer_step(
                self@.balances,
                self@.allowances,
                self@.operators,
                caller@,
                from@,
                to@,
                id@,
                amount,
            ) is Ok {
                lemma_step_keeps_registered(
                    self@.balances,
                    self@.allowances,
                    self@.operators,
                    caller@,
                    from@,
                    to@,
                    id@,
                    amount,
                    self.next_id,
                );
            }
        }
        match apply_transfer(
            &mut self.balances,
            &mut self.allowances,
            &self.operator_approvals,
            caller,
            &from,
            &to,
            &id,
            amount,
        ) {
            Ok(()) => Ok(transfer_events(Some(from), Some(to), id, amount)),
            Err(e) => Err(e),
        }
    }

    /// Moves every `(id, amount)` of `ids_amounts` from `from` to `to`, each
    /// leg under the rule of `transfer`, in order. Either all legs apply or,
    /// at the first leg that fails, none does.
    pub fn batch_transfer(
        &mut self,
        caller: &AccountId,
        from: AccountId,
        to: AccountId,
        ids_amounts: Vec<(Id, u128)>,
    ) -> (r: Result<Vec<Event>, LedgerError>)
        requires
            old(self).wf(),
        ensures
            final(self).wf(),
            final(self)@.operators == old(self)@.operators,
            final(self)@.uris == old(self)@.uris,
            final(self)@.next_id == old(self)@.next_id,
            match batch_outcome(
                old(self)@.balances,
                old(self)@.allowances,
                old(self)@.operators,
                caller@,
                from@,
                to@,
                legs_view(ids_amounts@),
            ) {
                Ok((b, a)) => r is Ok && final(self)@.balances == b && final(self)@.allowances == a
                    && events_view(r->Ok_0@) == seq![
                    EventView::TransferBatch {
                        from: Some(from@),
                        to: Some(to@),
                        ids_amounts: legs_view(ids_amounts@),
                    },
                ],
                Err(e) => r == Err::<Vec<Event>, LedgerError>(e) && final(self)@ == old(self)@,
            },
    {
        let ghost legs = legs_view(ids_amounts@);
        let ghost b0 = self@.balances;
        let ghost a0 = self@.allowances;
        let ghost o = self@.operators;
        let mut balances = self.balances.duplicate();
        let mut allowances = self.allowances.duplicate();
        let mut i: usize = 0;
        assert(legs.take(0) =~= Seq::<(IdView, u128)>::empty());
        while i < ids_amounts.len()
            invariant
                i <= ids_amounts@.len(),
                legs == legs_view(ids_amounts@),
                self.wf(),
                self@.balances == b0,
                self@.allowances == a0,
                self@.operators == o,
                balances.wf(),
                allowances.wf(),
                held_ids_registered(balances@, self.next_id),
                batch_outcome(b0, a0, o, caller@, from@, to@, legs.take(i as int)) == Ok::<
                    (BalanceMap, AllowanceMap),
                    LedgerError,
                >((balances@, allowances@)),
            decreases ids_amounts@.len() - i,
        {
            let ghost bi = balances@;
            let ghost ai = allowances@;
            assert(legs.take(i as int + 1).drop_last() =~= legs.take(i as int));
            assert(legs[i as int] == (ids_amounts@[i as int].0@, ids_amounts@[i as int].1));
            proof {
                if transfer_step(
                    bi,
                    ai,
                    o,
                    caller@,
                    from@,
                    to@,
                    legs[i as int].0,
                    legs[i as int].1,
                ) is Ok {
                    lemma_step_keeps_registered(
                        bi,
                        ai,
                        o,
                        caller@,
                        from@,
                        to@,
                        legs[i as int].0,
                        legs[i as int].1,
                        self.next_id,
                    );
                }
            }
            match apply_transfer(
                &mut balances,
                &mut allowances,
                &self.operator_approvals,
                caller,
                &from,
                &to,
                &ids_amounts[i].0,
                ids_amounts[i].1,
            ) {
                Ok(()) => {},
                Err(e) => {
                    proof {
                        lemma_batch_error_stays(b0, a0, o, caller@, from@, to@, legs, i as int + 1);
                        assert(legs.take(legs.len() as int) =~= legs);
                    }
                    return Err(e);
                },
            }
            i = i + 1;
        }
        assert(legs.take(i as int) =~= legs);
        self.balances = balances;
        self.allowances = allowances;
        Ok(transfer_batch_events(copy_account(&from), copy_account(&to), ids_amounts))
    }

    /// Credits every `(id, amount)` of `ids_amounts` to `to`, in order. Only
    /// ids that `create_nft` has issued may be minted: any other id refuses
    /// the whole call with `NotAllowed`.
    pub fn mint(
        &mut self,
        to: AccountId,
        ids_amounts: Vec<(Id, u128)>,
    ) -> (r: Result<Vec<Event>, LedgerError>)
        requires
            old(self).wf(),
        ensures
            final(self).wf(),
            final(self)@.operators == old(self)@.operators,
            final(self)@.allowances == old(self)@.allowances,
            final(self)@.uris == old(self)@.uris,
            final(self)@.next_id == old(self)@.next_id,
            match mint_outcome(old(self)@.balances, old(self)@.next_id, to@, legs_view(ids_amounts@)) {
                Ok(b) => r is Ok && final(self)@.balances == b && events_view(r->Ok_0@)
                    == supply_events_view(None, Some(to@), legs_view(ids_amounts@)),
                Err(e) => r == Err::<Vec<Event>, LedgerError>(e) && final(self)@ == old(self)@,
            },
    {
        let ghost legs = legs_view(ids_amounts@);
        let ghost b0 = self@.balances;
        let mut k: usize = 0;
        while k < ids_amounts.len()
            invariant
                k <= ids_amounts@.len(),
                legs == legs_view(ids_amounts@),
                forall|j: int| 0 <= j < k ==> is_registered(#[trigger] legs[j].0, self.next_id),
                self.wf(),
                self@ == old(self)@,
            decreases ids_amounts@.len() - k,
        {
            if !id_is_registered(&ids_amounts[k].0, self.next_id) {
                assert(legs[k as int].0 == ids_amounts@[k as int].0@);
                return Err(LedgerError::NotAllowed);
            }
            k = k + 1;
        }
        assert(all_registered(legs, self.next_id));
        let mut balances = self.balances.duplicate();
        let mut i: usize = 0;
        assert(legs.take(0) =~= Seq::<(IdView, u128)>::empty());
        while i < ids_amounts.len()
            invariant
                i <= ids_amounts@.len(),
                legs == legs_view(ids_amounts@),
                all_registered(legs, self.next_id),
                self.wf(),
                self@.balances == b0,
                balances.wf(),
                held_ids_registered(balances@, self.next_id),
                credit_all(b0, to@, legs.take(i as int)) == Ok::<BalanceMap, LedgerError>(balances@),
            decreases ids_amounts@.len() - i,
        {
            assert(legs.take(i as int + 1).drop_last() =~= legs.take(i as int));
            assert(legs[i as int] == (ids_amounts@[i as int].0@, ids_amounts@[i as int].1));
            assert(is_registered(legs[i as int].0, self.next_id));
            match apply_credit(&mut balances, &to, &ids_amounts[i].0, ids_amounts[i].1) {
                Ok(()) => {},
                Err(e) => {
                    proof {
                        lemma_credit_error_stays(b0, to@, legs, i as int + 1);
                    }
                    return Err(e);
                },
            }
            i = i + 1;
        }
        assert(legs.take(i as int) =~= legs);
        self.balances = balances;
        Ok(supply_events(None, copy_account(&to), ids_amounts))
    }

    /// Debits every `(id, amount)` of `ids_amounts` from `from`, in order.
    /// Only the owner may burn: when `caller` is not `from` the call is
    /// refused with `NotAllowed`, whatever allowance the caller holds.
    pub fn burn(
        &mut self,
        caller: &AccountId,
        from: AccountId,
        ids_amounts: Vec<(Id, u128)>,
    ) -> (r: Result<Vec<Event>, LedgerError>)
        requires
            old(self).wf(),
        ensures
            final(self).wf(),
            final(self)@.operators == old(self)@.operators,
            final(self)@.allowances == old(self)@.allowances,
            final(self)@.uris == old(self)@.uris,
            final(self)@.next_id == old(self)@.next_id,
            match burn_outcome(old(self)@.balances, caller@, from@, legs_view(ids_amounts@)) {
                Ok(b) => r is Ok && final(self)@.balances == b && events_view(r->Ok_0@)
                    == supply_events_view(Some(from@), None, legs_view(ids_amounts@)),
                Err(e) => r == Err::<Vec<Event>, LedgerError>(e) && final(self)@ == old(self)@,
            },
    {
        if !caller.same(&from) {
            return Err(LedgerError::NotAllowed);
        }
        let ghost legs = legs_view(ids_amounts@);
        let ghost b0 = self@.balances;
        let mut balances = self.balances.duplicate();
        let mut i: usize = 0;
        assert(legs.take(0) =~= Seq::<(IdView, u128)>::empty());
        while i < ids_amounts.len()
            invariant
                i <= ids_amounts@.len(),
                legs == legs_view(ids_amounts@),
                self.wf(),
                self@.balances == b0,
                balances.wf(),
                held_ids_registered(balances@, self.next_id),
                debit_all(b0, from@, legs.take(i as int)) == Ok::<BalanceMap, LedgerError>(balances@),
                self@ == old(self)@,
                caller@ == from@,
            decreases ids_amounts@.len() - i,
        {
            assert(legs.take(i as int + 1).drop_last() =~= legs.take(i as int));
            assert(legs[i as int] == (ids_amounts@[i as int].0@, ids_amounts@[i as int].1));
            let ghost bi = balances@;
            match apply_debit(&mut balances, &from, &ids_amounts[i].0, ids_amounts[i].1) {
                Ok(()) => {},
                Err(e) => {
                    proof {
                        lemma_debit_error_stays(b0, from@, legs, i as int + 1);
                        assert(legs.take(legs.len() as int) =~= legs);
                    }
                    return Err(e);
                },
            }
            assert(held_ids_registered(balances@, self.next_id)) by {
                if ids_amounts@[i as int].1 > 0 {
                    assert(bi.contains_key((from@, legs[i as int].0)));
                }
            }
            i = i + 1;
        }
        assert(legs.take(i as int) =~= legs);
        self.balances = balances;
        Ok(supply_events(copy_account(&from), None, ids_amounts))
    }

    /// Stores `token_uri` as the URI of `id`, replacing any earlier one.
    pub fn set_token_uri(&mut self, id: Id, token_uri: String) -> (r: Vec<Event>)
        requires
            old(self).wf(),
        ensures
            final(self).wf(),
            final(self)@.uris == old(self)@.uris.insert(id@, token_uri@),
            final(self)@.balances == old(self)@.balances,
            final(self)@.allowances == old(self)@.allowances,
            final(self)@.operators == old(self)@.operators,
            final(self)@.next_id == old(self)@.next_id,
            events_view(r@) == seq![EventView::SetTokenUri { id: id@, token_uri: token_uri@ }],
    {
        self.token_uris.set(id.duplicate(), token_uri.clone());
        let r = vec![Event::SetTokenUri(SetTokenUri { id, token_uri })];
        assert(events_view(r@) =~= seq![EventView::SetTokenUri { id: id@, token_uri: token_uri@ }]);
        r
    }

    /// The URI of `id`, if one is stored.
    pub fn get_token_uri(&self, id: Id) -> (r: Option<String>)
        requires
            self.wf(),
        ensures
            r is Some == self@.uris.contains_key(id@),
            r is Some ==> r->0@ == self@.uris[id@],
    {
        self.token_uris.get(&id)
    }

    /// Forgets the URI of `id`; this never fails.
    pub fn remove_token_uri(&mut self, id: &Id) -> (r: Result<(), LedgerError>)
        requires
            old(self).wf(),
        ensures
            final(self).wf(),
            r is Ok,
            final(self)@.uris == old(self)@.uris.remove(id@),
            final(self)@.balances == old(self)@.balances,
            final(self)@.allowances == old(self)@.allowances,
            final(self)@.operators == old(self)@.operators,
            final(self)@.next_id == old(self)@.next_id,
    {
        self.token_uris.remove(id);
        Ok(())
    }

    /// Issues the next token id: stores `token_uri` for it, credits `amount`
    /// of it to `to`, and advances the counter by one. Returns the new id.
    /// Fails only when the counter is at its largest value.
    pub fn create_nft(&mut self, to: AccountId, amount: u128, token_uri: String) -> (r: Result<
        (Id, Vec<Event>),
        LedgerError,
    >)
        requires
            old(self).wf(),
        ensures
            final(self).wf(),
            old(self)@.next_id < u32::MAX ==> create_outcome(old(self)@, to@, amount, token_uri@) is Ok,
            match create_outcome(old(self)@, to@, amount, token_uri@) {
                Ok((id, v)) => r is Ok && r->Ok_0.0@ == id && final(self)@ == v && events_view(
                    r->Ok_0.1@,
                ) == seq![EventView::SetTokenUri { id, token_uri: token_uri@ }]
                    + transfer_events_view(None, Some(to@), id, amount),
                Err(e) => r == Err::<(Id, Vec<Event>), LedgerError>(e) && final(self)@ == old(self)@,
            },
    {
        if self.next_id == u32::MAX {
            return Err(LedgerError::IdsExhausted);
        }
        let n = self.next_id;
        let mut events = self.set_token_uri(Id::U32(n), token_uri);
        proof {
            if self.balances@.contains_key((to@, IdView::U32(n))) {
                assert(!is_registered(IdView::U32(n), n));
            }
        }
        let ghost b0 = self@.balances;
        let _ = apply_credit(&mut self.balances, &to, &Id::U32(n), amount);
        self.next_id = n + 1;
        assert(held_ids_registered(self.balances@, self.next_id)) by {
            assert forall|k: (Seq<u8>, IdView)| #[trigger]
                self.balances@.contains_key(k) && self.balances@[k] > 0 implies is_registered(
                k.1,
                self.next_id,
            ) by {
                if k != (to@, IdView::U32(n)) {
                    assert(b0.contains_key(k) && b0[k] > 0);
                }
            }
        }
        let ghost first = events@;
        let mut more = transfer_events(None, copy_account(&to), Id::U32(n), amount);
        let ghost second = more@;
        events.append(&mut more);
        assert(events_view(events@) =~= events_view(first) + events_view(second));
        Ok((Id::U32(n), events))
    }
}

} // verus!
