use marketplace_psp37::ledger::Contract;
use marketplace_psp37::types::{
    AccountId, Amount, Approval, Event, Id, LedgerError, SetTokenUri, Transfer, TransferBatch,
};

fn account(b: u8) -> AccountId {
    AccountId([b; 32])
}

fn alice() -> AccountId {
    account(1)
}

fn bob() -> AccountId {
    account(2)
}

fn carol() -> AccountId {
    account(3)
}

fn dan() -> AccountId {
    account(4)
}

/// Alice holds 100 of id 0 and Bob 50 of id 1.
fn two_tokens() -> Contract {
    let mut c = Contract::new();
    c.create_nft(alice(), 100, "ipfs://a".to_string()).unwrap();
    c.create_nft(bob(), 50, "ipfs://b".to_string()).unwrap();
    c
}

#[test]
fn create_issues_first_id() {
    let mut c = Contract::new();
    let (id, events) = c.create_nft(alice(), 100, "ipfs://a".to_string()).unwrap();
    assert_eq!(id, Id::U32(0));
    assert_eq!(c.balance_of(&alice(), &Id::U32(0)), 100);
    assert_eq!(c.next_id(), 1);
    assert_eq!(c.get_token_uri(Id::U32(0)), Some("ipfs://a".to_string()));
    assert_eq!(
        events,
        vec![
            Event::SetTokenUri(SetTokenUri { id: Id::U32(0), token_uri: "ipfs://a".to_string() }),
            Event::Transfer(Transfer { from: None, to: Some(alice()), id: Id::U32(0), amount: 100 }),
            Event::Amount(Amount { amount: 100 }),
        ]
    );
}

#[test]
fn create_issues_second_id() {
    let mut c = Contract::new();
    c.create_nft(alice(), 100, "ipfs://a".to_string()).unwrap();
    let (id, _) = c.create_nft(bob(), 50, "ipfs://b".to_string()).unwrap();
    assert_eq!(id, Id::U32(1));
    assert_eq!(c.next_id(), 2);
    assert_eq!(c.balance_of(&bob(), &Id::U32(1)), 50);
}

#[test]
fn create_ids_increase_by_one() {
    let mut c = Contract::new();
    for n in 0..5u32 {
        assert_eq!(c.next_id(), n);
        let (id, _) = c.create_nft(carol(), 1, format!("ipfs://{}", n)).unwrap();
        assert_eq!(id, Id::U32(n));
        assert_eq!(c.next_id(), n + 1);
    }
}

#[test]
fn mint_registered_id() {
    let mut c = two_tokens();
    let events = c.mint(bob(), vec![(Id::U32(1), 10)]).unwrap();
    assert_eq!(c.balance_of(&bob(), &Id::U32(1)), 60);
    assert_eq!(
        events,
        vec![
            Event::Transfer(Transfer { from: None, to: Some(bob()), id: Id::U32(1), amount: 10 }),
            Event::Amount(Amount { amount: 10 }),
        ]
    );
}

#[test]
fn mint_unregistered_id_refused() {
    let mut c = two_tokens();
    assert_eq!(c.mint(carol(), vec![(Id::U32(5), 10)]), Err(LedgerError::NotAllowed));
    assert_eq!(c.balance_of(&carol(), &Id::U32(5)), 0);
    assert_eq!(c.next_id(), 2);
}

#[test]
fn mint_refuses_whole_call_for_one_unregistered_id() {
    let mut c = two_tokens();
    let r = c.mint(carol(), vec![(Id::U32(0), 10), (Id::U32(2), 10)]);
    assert_eq!(r, Err(LedgerError::NotAllowed));
    assert_eq!(c.balance_of(&carol(), &Id::U32(0)), 0);
}

#[test]
fn mint_refuses_other_variants() {
    let mut c = two_tokens();
    assert_eq!(c.mint(carol(), vec![(Id::U8(0), 1)]), Err(LedgerError::NotAllowed));
    assert_eq!(c.mint(carol(), vec![(Id::U64(0), 1)]), Err(LedgerError::NotAllowed));
    assert_eq!(c.mint(carol(), vec![(Id::Bytes(vec![0]), 1)]), Err(LedgerError::NotAllowed));
}

#[test]
fn mint_several_legs_reports_one_batch() {
    let mut c = two_tokens();
    let legs = vec![(Id::U32(0), 5), (Id::U32(1), 7), (Id::U32(0), 1)];
    let events = c.mint(carol(), legs.clone()).unwrap();
    assert_eq!(c.balance_of(&carol(), &Id::U32(0)), 6);
    assert_eq!(c.balance_of(&carol(), &Id::U32(1)), 7);
    assert_eq!(
        events,
        vec![Event::TransferBatch(TransferBatch { from: None, to: Some(carol()), ids_amounts: legs })]
    );
}

#[test]
fn mint_past_largest_balance_overflows() {
    let mut c = two_tokens();
    c.mint(dan(), vec![(Id::U32(0), u128::MAX)]).unwrap();
    assert_eq!(c.mint(dan(), vec![(Id::U32(0), 1)]), Err(LedgerError::BalanceOverflow));
    assert_eq!(c.balance_of(&dan(), &Id::U32(0)), u128::MAX);
}

#[test]
fn burn_by_owner_and_by_other() {
    let mut c = two_tokens();
    c.mint(bob(), vec![(Id::U32(1), 10)]).unwrap();
    let events = c.burn(&bob(), bob(), vec![(Id::U32(1), 10)]).unwrap();
    assert_eq!(c.balance_of(&bob(), &Id::U32(1)), 50);
    assert_eq!(
        events,
        vec![
            Event::Transfer(Transfer { from: Some(bob()), to: None, id: Id::U32(1), amount: 10 }),
            Event::Amount(Amount { amount: 10 }),
        ]
    );
    assert_eq!(c.burn(&carol(), bob(), vec![(Id::U32(1), 10)]), Err(LedgerError::NotAllowed));
    assert_eq!(c.balance_of(&bob(), &Id::U32(1)), 50);
}

#[test]
fn burn_refused_to_approved_operator() {
    let mut c = two_tokens();
    c.approve(bob(), carol(), None, 1);
    assert!(c.is_approved_for_all(&bob(), &carol()));
    assert_eq!(c.burn(&carol(), bob(), vec![(Id::U32(1), 1)]), Err(LedgerError::NotAllowed));
    assert_eq!(c.balance_of(&bob(), &Id::U32(1)), 50);
}

#[test]
fn burn_more_than_held_changes_nothing() {
    let mut c = two_tokens();
    let r = c.burn(&bob(), bob(), vec![(Id::U32(1), 30), (Id::U32(1), 30)]);
    assert_eq!(r, Err(LedgerError::InsufficientBalance));
    assert_eq!(c.balance_of(&bob(), &Id::U32(1)), 50);
}

#[test]
fn transfer_by_owner() {
    let mut c = two_tokens();
    let events = c.transfer(&alice(), alice(), dan(), Id::U32(0), 30).unwrap();
    assert_eq!(c.balance_of(&alice(), &Id::U32(0)), 70);
    assert_eq!(c.balance_of(&dan(), &Id::U32(0)), 30);
    assert_eq!(
        events,
        vec![
            Event::Transfer(Transfer {
                from: Some(alice()),
                to: Some(dan()),
                id: Id::U32(0),
                amount: 30,
            }),
            Event::Amount(Amount { amount: 30 }),
        ]
    );
}

#[test]
fn transfer_keeps_sum_of_both_sides() {
    let mut c = two_tokens();
    c.transfer(&alice(), alice(), dan(), Id::U32(0), 30).unwrap();
    c.transfer(&dan(), dan(), alice(), Id::U32(0), 12).unwrap();
    let a = c.balance_of(&alice(), &Id::U32(0));
    let d = c.balance_of(&dan(), &Id::U32(0));
    assert_eq!((a, d), (82, 18));
    assert_eq!(a + d, 100);
    assert_eq!(c.balance_of(&bob(), &Id::U32(1)), 50);
}

#[test]
fn transfer_more_than_held_refused() {
    let mut c = two_tokens();
    let r = c.transfer(&alice(), alice(), dan(), Id::U32(0), 101);
    assert_eq!(r, Err(LedgerError::InsufficientBalance));
    assert_eq!(c.balance_of(&alice(), &Id::U32(0)), 100);
    assert_eq!(c.balance_of(&dan(), &Id::U32(0)), 0);
}

#[test]
fn transfer_to_self_keeps_balance() {
    let mut c = two_tokens();
    c.transfer(&alice(), alice(), alice(), Id::U32(0), 40).unwrap();
    assert_eq!(c.balance_of(&alice(), &Id::U32(0)), 100);
}

#[test]
fn transfer_of_zero_is_a_no_op() {
    let mut c = two_tokens();
    c.transfer(&carol(), alice(), dan(), Id::U8(9), 0).unwrap();
    assert_eq!(c.balance_of(&alice(), &Id::U32(0)), 100);
    assert_eq!(c.balance_of(&dan(), &Id::U8(9)), 0);
}

#[test]
fn transfer_without_allowance_refused() {
    let mut c = two_tokens();
    let r = c.transfer(&carol(), alice(), dan(), Id::U32(0), 1);
    assert_eq!(r, Err(LedgerError::InsufficientAllowance));
    assert_eq!(c.balance_of(&alice(), &Id::U32(0)), 100);
}

#[test]
fn scoped_allowance_is_used_up() {
    let mut c = two_tokens();
    let events = c.approve(alice(), carol(), Some(Id::U32(0)), 25);
    assert_eq!(
        events,
        vec![Event::Approval(Approval {
            owner: alice(),
            operator: carol(),
            id: Some(Id::U32(0)),
            value: 25,
        })]
    );
    c.transfer(&carol(), alice(), dan(), Id::U32(0), 20).unwrap();
    assert_eq!(c.allowance(&alice(), &carol(), &Id::U32(0)), 5);
    assert_eq!(c.balance_of(&dan(), &Id::U32(0)), 20);
    let r = c.transfer(&carol(), alice(), dan(), Id::U32(0), 6);
    assert_eq!(r, Err(LedgerError::InsufficientAllowance));
    assert_eq!(c.allowance(&alice(), &carol(), &Id::U32(0)), 5);
    assert_eq!(c.balance_of(&alice(), &Id::U32(0)), 80);
}

#[test]
fn allowance_check_comes_before_balance_check() {
    let mut c = two_tokens();
    c.approve(alice(), carol(), Some(Id::U32(0)), 500);
    let r = c.transfer(&carol(), alice(), dan(), Id::U32(0), 200);
    assert_eq!(r, Err(LedgerError::InsufficientBalance));
    assert_eq!(c.allowance(&alice(), &carol(), &Id::U32(0)), 500);
    let r = c.transfer(&bob(), alice(), dan(), Id::U32(0), 200);
    assert_eq!(r, Err(LedgerError::InsufficientAllowance));
}

#[test]
fn approve_replaces_earlier_value() {
    let mut c = two_tokens();
    c.approve(alice(), carol(), Some(Id::U32(0)), 25);
    c.approve(alice(), carol(), Some(Id::U32(0)), 3);
    assert_eq!(c.allowance(&alice(), &carol(), &Id::U32(0)), 3);
    assert_eq!(c.allowance(&alice(), &carol(), &Id::U32(1)), 0);
}

#[test]
fn blanket_approval_is_not_used_up() {
    let mut c = two_tokens();
    let events = c.approve(alice(), carol(), None, 1);
    assert_eq!(
        events,
        vec![Event::Approval(Approval { owner: alice(), operator: carol(), id: None, value: 1 })]
    );
    c.transfer(&carol(), alice(), dan(), Id::U32(0), 60).unwrap();
    c.transfer(&carol(), alice(), dan(), Id::U32(0), 40).unwrap();
    assert_eq!(c.balance_of(&dan(), &Id::U32(0)), 100);
    assert_eq!(c.allowance(&alice(), &carol(), &Id::U32(0)), u128::MAX);
    c.approve(alice(), carol(), None, 0);
    assert!(!c.is_approved_for_all(&alice(), &carol()));
    let r = c.transfer(&carol(), dan(), alice(), Id::U32(0), 1);
    assert_eq!(r, Err(LedgerError::InsufficientAllowance));
}

#[test]
fn batch_transfer_moves_every_leg() {
    let mut c = two_tokens();
    c.mint(alice(), vec![(Id::U32(1), 20)]).unwrap();
    let legs = vec![(Id::U32(0), 10), (Id::U32(1), 20)];
    let events = c.batch_transfer(&alice(), alice(), dan(), legs.clone()).unwrap();
    assert_eq!(c.balance_of(&alice(), &Id::U32(0)), 90);
    assert_eq!(c.balance_of(&alice(), &Id::U32(1)), 0);
    assert_eq!(c.balance_of(&dan(), &Id::U32(0)), 10);
    assert_eq!(c.balance_of(&dan(), &Id::U32(1)), 20);
    assert_eq!(
        events,
        vec![Event::TransferBatch(TransferBatch {
            from: Some(alice()),
            to: Some(dan()),
            ids_amounts: legs,
        })]
    );
}

#[test]
fn batch_transfer_is_all_or_nothing() {
    let mut c = two_tokens();
    let legs = vec![(Id::U32(0), 10), (Id::U32(1), 1)];
    let r = c.batch_transfer(&alice(), alice(), dan(), legs);
    assert_eq!(r, Err(LedgerError::InsufficientBalance));
    assert_eq!(c.balance_of(&alice(), &Id::U32(0)), 100);
    assert_eq!(c.balance_of(&dan(), &Id::U32(0)), 0);
}

#[test]
fn batch_transfer_keeps_allowance_on_failure() {
    let mut c = two_tokens();
    c.approve(alice(), carol(), Some(Id::U32(0)), 15);
    let legs = vec![(Id::U32(0), 10), (Id::U32(0), 10)];
    let r = c.batch_transfer(&carol(), alice(), dan(), legs);
    assert_eq!(r, Err(LedgerError::InsufficientAllowance));
    assert_eq!(c.allowance(&alice(), &carol(), &Id::U32(0)), 15);
    assert_eq!(c.balance_of(&alice(), &Id::U32(0)), 100);
    let r = c.batch_transfer(&carol(), alice(), dan(), vec![(Id::U32(0), 10), (Id::U32(0), 5)]);
    assert!(r.is_ok());
    assert_eq!(c.allowance(&alice(), &carol(), &Id::U32(0)), 0);
    assert_eq!(c.balance_of(&dan(), &Id::U32(0)), 15);
}

#[test]
fn token_uri_set_get_remove() {
    let mut c = two_tokens();
    let events = c.set_token_uri(Id::U32(0), "ipfs://new".to_string());
    assert_eq!(
        events,
        vec![Event::SetTokenUri(SetTokenUri {
            id: Id::U32(0),
            token_uri: "ipfs://new".to_string(),
        })]
    );
    assert_eq!(c.get_token_uri(Id::U32(0)), Some("ipfs://new".to_string()));
    assert_eq!(c.get_token_uri(Id::U32(1)), Some("ipfs://b".to_string()));
    assert_eq!(c.remove_token_uri(&Id::U32(0)), Ok(()));
    assert_eq!(c.get_token_uri(Id::U32(0)), None);
    assert_eq!(c.get_token_uri(Id::U32(1)), Some("ipfs://b".to_string()));
    assert_eq!(c.remove_token_uri(&Id::U32(7)), Ok(()));
}

#[test]
fn ids_differ_by_variant_and_bytes() {
    let mut c = Contract::new();
    c.set_token_uri(Id::Bytes(vec![1, 2, 3]), "x".to_string());
    c.set_token_uri(Id::U8(1), "y".to_string());
    assert_eq!(c.get_token_uri(Id::Bytes(vec![1, 2, 3])), Some("x".to_string()));
    assert_eq!(c.get_token_uri(Id::Bytes(vec![1, 2])), None);
    assert_eq!(c.get_token_uri(Id::U16(1)), None);
    assert_eq!(c.get_token_uri(Id::U8(1)), Some("y".to_string()));
    c.approve(alice(), bob(), Some(Id::Bytes(vec![9; 40])), 4);
    assert_eq!(c.allowance(&alice(), &bob(), &Id::Bytes(vec![9; 40])), 4);
    assert_eq!(c.allowance(&alice(), &bob(), &Id::Bytes(vec![9; 39])), 0);
}

#[test]
fn new_ledger_is_empty() {
    let c = Contract::new();
    assert_eq!(c.next_id(), 0);
    assert_eq!(c.balance_of(&alice(), &Id::U32(0)), 0);
    assert_eq!(c.get_token_uri(Id::U32(0)), None);
    assert!(!c.is_approved_for_all(&alice(), &bob()));
}
