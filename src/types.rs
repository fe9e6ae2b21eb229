//! Accounts, token ids, errors and the event records that operations report.
use vstd::prelude::*;

use crate::table::Key;

verus! {

/// An account, as its 32 raw bytes.
#[derive(Clone, Copy, Debug, PartialEq, Eq)]
pub struct AccountId(pub [u8; 32]);

impl View for AccountId {
    type V = Seq<u8>;

    open spec fn view(&self) -> Seq<u8> {
        self.0@
    }
}

impl Key for AccountId {
    fn same(&self, other: &Self) -> (r: bool) {
        let mut i: usize = 0;
        while i < 32
            invariant
                i <= 32,
                self.0@.len() == 32,
                other.0@.len() == 32,
                forall|j: int| 0 <= j < i ==> self.0@[j] == other.0@[j],
            decreases 32 - i,
        {
            if self.0[i] != other.0[i] {
                return false;
            }
            i = i + 1;
        }
        assert(self.0@ =~= other.0@);
        true
    }

    fn duplicate(&self) -> (r: Self) {
        AccountId(self.0)
    }
}

/// The value of a token id: its variant and the number or bytes it holds.
pub enum IdView {
    U8(u8),
    U16(u16),
    U32(u32),
    U64(u64),
    U128(u128),
    Bytes(Seq<u8>),
}

/// A token id. Two ids are equal only when both variant and value match.
#[derive(Clone, Debug, PartialEq, Eq)]
pub enum Id {
    U8(u8),
    U16(u16),
    U32(u32),
    U64(u64),
    U128(u128),
    Bytes(Vec<u8>),
}

impl View for Id {
    type V = IdView;

    open spec fn view(&self) -> IdView {
        match self {
            Id::U8(v) => IdView::U8(*v),
            Id::U16(v) => IdView::U16(*v),
            Id::U32(v) => IdView::U32(*v),
            Id::U64(v) => IdView::U64(*v),
            Id::U128(v) => IdView::U128(*v),
            Id::Bytes(b) => IdView::Bytes(b@),
        }
    }
}

fn same_bytes(a: &Vec<u8>, b: &Vec<u8>) -> (r: bool)
    ensures
        r == (a@ == b@),
{
    if a.len() != b.len() {
        return false;
    }
    let mut i: usize = 0;
    while i < a.len()
        invariant
            i <= a@.len(),
            a@.len() == b@.len(),
            forall|j: int| 0 <= j < i ==> a@[j] == b@[j],
        decreases a@.len() - i,
    {
        if a[i] != b[i] {
            return false;
        }
        i = i + 1;
    }
    assert(a@ =~= b@);
    true
}

fn copy_bytes(a: &Vec<u8>) -> (r: Vec<u8>)
    ensures
        r@ == a@,
{
    let mut r: Vec<u8> = Vec::new();
    let mut i: usize = 0;
    while i < a.len()
        invariant
            i <= a@.len(),
            r@ == a@.take(i as int),
        decreases a@.len() - i,
    {
        r.push(a[i]);
        assert(a@.take(i as int + 1) =~= a@.take(i as int).push(a@[i as int]));
        i = i + 1;
    }
    assert(a@.take(i as int) =~= a@);
    r
}

impl Key for Id {
    fn same(&self, other: &Self) -> (r: bool) {
        match (self, other) {
            (Id::U8(a), Id::U8(b)) => *a == *b,
            (Id::U16(a), Id::U16(b)) => *a == *b,
            (Id::U32(a), Id::U32(b)) => *a == *b,
            (Id::U64(a), Id::U64(b)) => *a == *b,
            (Id::U128(a), Id::U128(b)) => *a == *b,
            (Id::Bytes(a), Id::Bytes(b)) => same_bytes(a, b),
            _ => false,
        }
    }

    fn duplicate(&self) -> (r: Self) {
        match self {
            Id::U8(v) => Id::U8(*v),
            Id::U16(v) => Id::U16(*v),
            Id::U32(v) => Id::U32(*v),
            Id::U64(v) => Id::U64(*v),
            Id::U128(v) => Id::U128(*v),
            Id::Bytes(b) => Id::Bytes(copy_bytes(b)),
        }
    }
}

/// Why an operation was refused. A refused operation changes nothing.
#[derive(Clone, Copy, Debug, PartialEq, Eq, Structural)]
pub enum LedgerError {
    /// Burning on behalf of another account, or minting an id that was never created.
    NotAllowed,
    /// A debit exceeds the balance held.
    InsufficientBalance,
    /// An operator moves more than it was allowed.
    InsufficientAllowance,
    /// A credit would take a balance past the largest representable amount.
    BalanceOverflow,
    /// Every token id that the counter can issue has been issued.
    IdsExhausted,
}

/// Tokens of one id moved; `from` is absent for a mint, `to` for a burn.
#[derive(Clone, Debug, PartialEq, Eq)]
pub struct Transfer {
    pub from: Option<AccountId>,
    pub to: Option<AccountId>,
    pub id: Id,
    pub amount: u128,
}

/// The amount of a transfer, reported alongside each `Transfer`.
#[derive(Clone, Debug, PartialEq, Eq)]
pub struct Amount {
    pub amount: u128,
}

/// Tokens of several ids moved in one operation.
#[derive(Clone, Debug, PartialEq, Eq)]
pub struct TransferBatch {
    pub from: Option<AccountId>,
    pub to: Option<AccountId>,
    pub ids_amounts: Vec<(Id, u128)>,
}

/// An allowance was set; `id` is absent for an approval of all ids.
#[derive(Clone, Debug, PartialEq, Eq)]
pub struct Approval {
    pub owner: AccountId,
    pub operator: AccountId,
    pub id: Option<Id>,
    pub value: u128,
}

/// The URI of a token id was set.
#[derive(Clone, Debug, PartialEq, Eq)]
pub struct SetTokenUri {
    pub id: Id,
    pub token_uri: String,
}

/// A fact that an operation announces to outside observers.
#[derive(Clone, Debug, PartialEq, Eq)]
pub enum Event {
    Transfer(Transfer),
    Amount(Amount),
    TransferBatch(TransferBatch),
    Approval(Approval),
    SetTokenUri(SetTokenUri),
}

/// The view of an account that may be absent.
pub open spec fn account_opt(a: Option<AccountId>) -> Option<Seq<u8>> {
    match a {
        Some(x) => Some(x@),
        None => None,
    }
}

/// The view of a list of id and amount pairs.
pub open spec fn legs_view(v: Seq<(Id, u128)>) -> Seq<(IdView, u128)> {
    v.map_values(|p: (Id, u128)| (p.0@, p.1))
}

/// What an event says, over views.
pub enum EventView {
    Transfer { from: Option<Seq<u8>>, to: Option<Seq<u8>>, id: IdView, amount: u128 },
    Amount { amount: u128 },
    TransferBatch { from: Option<Seq<u8>>, to: Option<Seq<u8>>, ids_amounts: Seq<(IdView, u128)> },
    Approval { owner: Seq<u8>, operator: Seq<u8>, id: Option<IdView>, value: u128 },
    SetTokenUri { id: IdView, token_uri: Seq<char> },
}

impl View for Event {
    type V = EventView;

    open spec fn view(&self) -> EventView {
        match self {
            Event::Transfer(t) => EventView::Transfer {
                from: account_opt(t.from),
                to: account_opt(t.to),
                id: t.id@,
                amount: t.amount,
            },
            Event::Amount(a) => EventView::Amount { amount: a.amount },
            Event::TransferBatch(t) => EventView::TransferBatch {
                from: account_opt(t.from),
                to: account_opt(t.to),
                ids_amounts: legs_view(t.ids_amounts@),
            },
            Event::Approval(a) => EventView::Approval {
                owner: a.owner@,
                operator: a.operator@,
                id: match a.id {
                    Some(i) => Some(i@),
                    None => None,
                },
                value: a.value,
            },
            Event::SetTokenUri(s) => EventView::SetTokenUri { id: s.id@, token_uri: s.token_uri@ },
        }
    }
}

/// The views of a list of events.
pub open spec fn events_view(v: Seq<Event>) -> Seq<EventView> {
    v.map_values(|e: Event| e@)
}

} // verus!
