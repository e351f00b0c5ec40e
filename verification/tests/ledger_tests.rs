use elecrypto::AccountId;
use elecrypto::Approval;
use elecrypto::Elecrypto;
use elecrypto::Event;
use elecrypto::Transfer;

fn acct(id: u128) -> AccountId {
    AccountId::new(id)
}

#[test]
fn new_works() {
    let contract = Elecrypto::new(acct(1), 7000000);
    assert_eq!(contract.total_supply(), 7000000);
}

#[test]
fn balance_works() {
    let contract = Elecrypto::new(acct(1), 23000);
    assert_eq!(contract.total_supply(), 23000);
    assert_eq!(contract.balance_of(acct(1)), 23000);
    assert_eq!(contract.balance_of(acct(0)), 0);
}

#[test]
fn transfer_works() {
    let mut contract = Elecrypto::new(acct(1), 100);
    assert_eq!(contract.balance_of(acct(1)), 100);
    assert!(contract.transfer(acct(1), acct(0), 10));
    assert_eq!(contract.balance_of(acct(0)), 10);
    assert!(!contract.transfer(acct(1), acct(0), 100));
}

#[test]
fn transfer_from_works() {
    let mut contract = Elecrypto::new(acct(1), 100);
    assert_eq!(contract.balance_of(acct(1)), 100);
    contract.approve(acct(1), acct(1), 20);
    contract.transfer_from(acct(1), acct(1), acct(0), 10);
    assert_eq!(contract.balance_of(acct(0)), 10);
}

#[test]
fn allowances_works() {
    let mut contract = Elecrypto::new(acct(1), 100);
    assert_eq!(contract.balance_of(acct(1)), 100);
    contract.approve(acct(1), acct(1), 200);
    assert_eq!(contract.allowancetoken(acct(1), acct(1)), 200);

    assert!(contract.transfer_from(acct(1), acct(1), acct(0), 50));
    assert_eq!(contract.balance_of(acct(0)), 50);
    assert_eq!(contract.allowancetoken(acct(1), acct(1)), 150);

    assert!(!contract.transfer_from(acct(1), acct(1), acct(0), 100));
    assert_eq!(contract.balance_of(acct(0)), 50);
    assert_eq!(contract.allowancetoken(acct(1), acct(1)), 150);
}

#[test]
fn conservation_across_calls() {
    let x = acct(1);
    let y = acct(2);
    let z = acct(3);
    let mut l = Elecrypto::new(x, 1000);
    assert!(l.transfer(x, y, 300));
    assert!(l.transfer(y, z, 120));
    l.approve(y, x, 50);
    assert!(l.transfer_from(x, y, z, 40));
    assert!(!l.transfer(z, y, 100000));
    let sum = l.balance_of(x) + l.balance_of(y) + l.balance_of(z);
    assert_eq!(sum, l.total_supply());
    assert_eq!(l.balance_of(x), 700);
    assert_eq!(l.balance_of(y), 140);
    assert_eq!(l.balance_of(z), 160);
}

#[test]
fn no_negative_spend() {
    let x = acct(1);
    let y = acct(2);
    let mut l = Elecrypto::new(x, 50);
    let events_before = l.events.len();
    assert!(!l.transfer(x, y, 51));
    assert_eq!(l.balance_of(x), 50);
    assert_eq!(l.balance_of(y), 0);
    assert_eq!(l.events.len(), events_before);
}

#[test]
fn allowance_gate() {
    let x = acct(1);
    let sp = acct(2);
    let y = acct(3);
    let mut l = Elecrypto::new(x, 100);
    l.approve(x, sp, 5);
    // The balance would suffice; the allowance does not.
    assert!(!l.transfer_from(sp, x, y, 10));
    assert_eq!(l.balance_of(x), 100);
    assert_eq!(l.balance_of(y), 0);
    assert_eq!(l.allowancetoken(x, sp), 5);
}

#[test]
fn allowance_decrement_coupling() {
    let x = acct(1);
    let sp = acct(2);
    let y = acct(3);
    let mut l = Elecrypto::new(x, 30);
    l.approve(x, sp, 25);
    assert!(l.transfer_from(sp, x, y, 10));
    assert_eq!(l.allowancetoken(x, sp), 15);
    // Allowance would cover 20 but the balance no longer does: no decrement.
    assert!(!l.transfer_from(sp, x, y, 21));
    assert_eq!(l.allowancetoken(x, sp), 15);
    assert_eq!(l.balance_of(x), 20);
    assert_eq!(l.balance_of(y), 10);
}

#[test]
fn approve_overwrites_not_accumulates() {
    let owner = acct(1);
    let sp = acct(2);
    let mut l = Elecrypto::new(owner, 100);
    assert!(l.approve(owner, sp, 20));
    assert!(l.approve(owner, sp, 5));
    assert_eq!(l.allowancetoken(owner, sp), 5);
}

#[test]
fn approve_needs_no_funds() {
    let owner = acct(7);
    let sp = acct(8);
    let mut l = Elecrypto::new(acct(1), 10);
    // `owner` holds nothing, yet approving succeeds for any value.
    assert!(l.approve(owner, sp, 1000));
    assert_eq!(l.allowancetoken(owner, sp), 1000);
}

#[test]
fn allowance_pairs_are_independent() {
    let o1 = acct(1);
    let o2 = acct(2);
    let s1 = acct(3);
    let s2 = acct(4);
    let mut l = Elecrypto::new(o1, 100);
    l.approve(o1, s1, 11);
    l.approve(o1, s2, 22);
    l.approve(o2, s1, 33);
    assert_eq!(l.allowancetoken(o1, s1), 11);
    assert_eq!(l.allowancetoken(o1, s2), 22);
    assert_eq!(l.allowancetoken(o2, s1), 33);
    assert_eq!(l.allowancetoken(o2, s2), 0);
}

#[test]
fn scenario_transfer_and_insufficient() {
    let x = acct(1);
    let y = acct(2);
    let mut l = Elecrypto::new(x, 100);
    assert!(l.transfer(x, y, 10));
    assert_eq!(l.balance_of(y), 10);
    assert_eq!(l.balance_of(x), 90);
    assert!(!l.transfer(x, y, 100));
    assert_eq!(l.balance_of(y), 10);
    assert_eq!(l.balance_of(x), 90);
}

#[test]
fn scenario_delegated_transfer() {
    let x = acct(1);
    let y = acct(2);
    let mut l = Elecrypto::new(x, 100);
    assert!(l.approve(x, x, 20));
    assert!(l.transfer_from(x, x, y, 10));
    assert_eq!(l.balance_of(y), 10);
    assert_eq!(l.allowancetoken(x, x), 10);
    assert!(!l.transfer_from(x, x, y, 100));
    assert_eq!(l.balance_of(y), 10);
    assert_eq!(l.allowancetoken(x, x), 10);
}

#[test]
fn construction_emits_minting_transfer() {
    let x = acct(1);
    let l = Elecrypto::new(x, 500);
    assert_eq!(l.events.len(), 1);
    assert_eq!(
        l.events[0],
        Event::Transfer(Transfer { from: None, to: Some(x), value: 500 })
    );
}

#[test]
fn operations_emit_events_in_order() {
    let x = acct(1);
    let y = acct(2);
    let mut l = Elecrypto::new(x, 100);
    assert!(l.transfer(x, y, 10));
    assert!(l.approve(x, y, 7));
    assert!(!l.transfer(x, y, 1000));
    assert_eq!(l.events.len(), 3);
    assert_eq!(
        l.events[1],
        Event::Transfer(Transfer { from: Some(x), to: Some(y), value: 10 })
    );
    assert_eq!(
        l.events[2],
        Event::Approval(Approval { owner: x, spender: y, value: 7 })
    );
}

#[test]
fn zero_supply_construction() {
    let x = acct(1);
    let l = Elecrypto::new(x, 0);
    assert_eq!(l.total_supply(), 0);
    assert_eq!(l.balance_of(x), 0);
}

#[test]
fn self_transfer_keeps_balance() {
    let x = acct(1);
    let mut l = Elecrypto::new(x, 40);
    assert!(l.transfer(x, x, 25));
    assert_eq!(l.balance_of(x), 40);
    assert_eq!(l.total_supply(), 40);
}

#[test]
fn zero_amount_transfer_succeeds() {
    let x = acct(1);
    let y = acct(2);
    let mut l = Elecrypto::new(x, 10);
    // Even an account that never held tokens can move zero.
    assert!(l.transfer(y, x, 0));
    assert_eq!(l.balance_of(x), 10);
    assert_eq!(l.balance_of(y), 0);
}

#[test]
fn largest_supply_transfers() {
    let x = acct(1);
    let y = acct(2);
    let mut l = Elecrypto::new(x, u128::MAX);
    assert!(l.transfer(x, y, u128::MAX));
    assert_eq!(l.balance_of(x), 0);
    assert_eq!(l.balance_of(y), u128::MAX);
    assert!(l.transfer(y, x, 1));
    assert_eq!(l.balance_of(x), 1);
    assert_eq!(l.balance_of(y), u128::MAX - 1);
}
