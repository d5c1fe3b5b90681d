use erc20::{AccountId, Approval, Erc20, Error, Event, Transfer, TransferFrom};

fn account(tag: u8) -> AccountId {
    AccountId::new([tag; 32])
}

fn sum_of_balances(token: &Erc20, accounts: &[AccountId]) -> u128 {
    let mut sum = 0u128;
    for who in accounts {
        sum += token.balance_of(*who);
    }
    sum
}

#[test]
fn new_gives_the_supply_to_the_deployer() {
    let a = account(1);
    let token = Erc20::new(a, 1000);
    assert_eq!(token.total_supply(), 1000);
    assert_eq!(token.balance_of(a), 1000);
    assert_eq!(token.balance_of(account(2)), 0);
    assert_eq!(token.allowance(a, account(2)), 0);
    assert_eq!(
        token.events(),
        &vec![Event::Transfer(Transfer { from: None, to: Some(a), value: 1000 })]
    );
}

#[test]
fn default_is_new_with_zero() {
    let a = account(1);
    let token = Erc20::default(a);
    assert_eq!(token.total_supply(), 0);
    assert_eq!(token.balance_of(a), 0);
    assert_eq!(
        token.events(),
        &vec![Event::Transfer(Transfer { from: None, to: Some(a), value: 0 })]
    );
}

#[test]
fn new_with_the_largest_supply() {
    let a = account(1);
    let b = account(2);
    let mut token = Erc20::new(a, u128::MAX);
    assert_eq!(token.total_supply(), u128::MAX);
    assert_eq!(token.transfer(a, b, u128::MAX), Ok(()));
    assert_eq!(token.balance_of(a), 0);
    assert_eq!(token.balance_of(b), u128::MAX);
    assert_eq!(token.transfer(b, b, u128::MAX), Ok(()));
    assert_eq!(token.balance_of(b), u128::MAX);
}

#[test]
fn transfer_moves_value_and_logs_it() {
    let a = account(1);
    let b = account(2);
    let mut token = Erc20::new(a, 1000);
    token.take_events();
    assert_eq!(token.transfer(a, b, 250), Ok(()));
    assert_eq!(token.balance_of(a), 750);
    assert_eq!(token.balance_of(b), 250);
    assert_eq!(token.total_supply(), 1000);
    assert_eq!(
        token.events(),
        &vec![Event::Transfer(Transfer { from: Some(a), to: Some(b), value: 250 })]
    );
}

#[test]
fn transfer_beyond_the_balance_fails_and_changes_nothing() {
    let a = account(1);
    let b = account(2);
    let mut token = Erc20::new(a, 1000);
    token.take_events();
    assert_eq!(token.transfer(a, b, 1001), Err(Error::InsufficientBalance));
    assert_eq!(token.balance_of(a), 1000);
    assert_eq!(token.balance_of(b), 0);
    assert!(token.events().is_empty());
    assert_eq!(token.transfer(b, a, 1), Err(Error::InsufficientBalance));
    assert_eq!(token.balance_of(a), 1000);
    assert_eq!(token.balance_of(b), 0);
    assert!(token.events().is_empty());
}

#[test]
fn transfer_of_the_whole_balance_leaves_zero() {
    let a = account(1);
    let b = account(2);
    let mut token = Erc20::new(a, 1000);
    assert_eq!(token.transfer(a, b, 1000), Ok(()));
    assert_eq!(token.balance_of(a), 0);
    assert_eq!(token.balance_of(b), 1000);
}

#[test]
fn transfer_to_oneself_keeps_the_balance_and_logs_the_event() {
    let a = account(1);
    let mut token = Erc20::new(a, 1000);
    token.take_events();
    assert_eq!(token.transfer(a, a, 400), Ok(()));
    assert_eq!(token.balance_of(a), 1000);
    assert_eq!(token.total_supply(), 1000);
    assert_eq!(
        token.events(),
        &vec![Event::Transfer(Transfer { from: Some(a), to: Some(a), value: 400 })]
    );
    assert_eq!(token.transfer(a, a, 1001), Err(Error::InsufficientBalance));
    assert_eq!(token.balance_of(a), 1000);
}

#[test]
fn transfer_of_nothing_succeeds_for_anyone() {
    let a = account(1);
    let b = account(2);
    let c = account(3);
    let mut token = Erc20::new(a, 1000);
    token.take_events();
    assert_eq!(token.transfer(b, c, 0), Ok(()));
    assert_eq!(token.balance_of(b), 0);
    assert_eq!(token.balance_of(c), 0);
    assert_eq!(
        token.events(),
        &vec![Event::Transfer(Transfer { from: Some(b), to: Some(c), value: 0 })]
    );
}

#[test]
fn approve_overwrites_the_allowance() {
    let a = account(1);
    let b = account(2);
    let mut token = Erc20::new(a, 1000);
    token.take_events();
    assert_eq!(token.approve(a, b, 300), Ok(()));
    assert_eq!(token.allowance(a, b), 300);
    assert_eq!(token.approve(a, b, 120), Ok(()));
    assert_eq!(token.allowance(a, b), 120);
    assert_eq!(token.approve(a, b, 0), Ok(()));
    assert_eq!(token.allowance(a, b), 0);
    assert_eq!(
        token.events(),
        &vec![
            Event::Approval(Approval { owner: a, spender: b, value: 300 }),
            Event::Approval(Approval { owner: a, spender: b, value: 120 }),
            Event::Approval(Approval { owner: a, spender: b, value: 0 }),
        ]
    );
}

#[test]
fn approve_may_exceed_the_balance() {
    let a = account(1);
    let b = account(2);
    let mut token = Erc20::new(a, 10);
    assert_eq!(token.approve(a, b, u128::MAX), Ok(()));
    assert_eq!(token.allowance(a, b), u128::MAX);
    assert_eq!(token.balance_of(a), 10);
}

#[test]
fn allowance_is_per_ordered_pair() {
    let a = account(1);
    let b = account(2);
    let mut token = Erc20::new(a, 1000);
    assert_eq!(token.approve(a, b, 300), Ok(()));
    assert_eq!(token.allowance(a, b), 300);
    assert_eq!(token.allowance(b, a), 0);
    assert_eq!(token.allowance(a, a), 0);
    assert_eq!(token.approve(b, a, 7), Ok(()));
    assert_eq!(token.allowance(a, b), 300);
    assert_eq!(token.allowance(b, a), 7);
}

#[test]
fn delegated_transfer_scenario() {
    let a = account(1);
    let b = account(2);
    let c = account(3);
    let mut token = Erc20::new(a, 1000);
    assert_eq!(token.total_supply(), 1000);
    assert_eq!(token.balance_of(a), 1000);
    assert_eq!(token.approve(a, b, 300), Ok(()));
    assert_eq!(token.allowance(a, b), 300);
    assert_eq!(token.transfer_from(b, a, c, 200), Ok(()));
    assert_eq!(token.balance_of(a), 800);
    assert_eq!(token.balance_of(c), 200);
    assert_eq!(token.allowance(a, b), 100);
    assert_eq!(token.transfer_from(b, a, c, 200), Err(Error::InsufficientApproval));
    assert_eq!(token.balance_of(a), 800);
    assert_eq!(token.balance_of(c), 200);
    assert_eq!(token.allowance(a, b), 100);
    assert_eq!(token.total_supply(), 1000);
}

#[test]
fn delegated_transfer_logs_three_events_in_order() {
    let a = account(1);
    let b = account(2);
    let c = account(3);
    let mut token = Erc20::new(a, 1000);
    assert_eq!(token.approve(a, b, 300), Ok(()));
    token.take_events();
    assert_eq!(token.transfer_from(b, a, c, 200), Ok(()));
    assert_eq!(
        token.events(),
        &vec![
            Event::Transfer(Transfer { from: Some(a), to: Some(c), value: 200 }),
            Event::TransferFrom(TransferFrom {
                spender: Some(b),
                from: Some(a),
                to: Some(c),
                value: 200
            }),
            Event::Approval(Approval { owner: a, spender: b, value: 100 }),
        ]
    );
}

#[test]
fn delegated_transfer_beyond_the_balance_keeps_the_allowance() {
    let a = account(1);
    let b = account(2);
    let c = account(3);
    let mut token = Erc20::new(a, 100);
    assert_eq!(token.approve(a, b, 300), Ok(()));
    token.take_events();
    assert_eq!(token.transfer_from(b, a, c, 200), Err(Error::InsufficientBalance));
    assert_eq!(token.allowance(a, b), 300);
    assert_eq!(token.balance_of(a), 100);
    assert_eq!(token.balance_of(c), 0);
    assert!(token.events().is_empty());
}

#[test]
fn insufficient_approval_masks_insufficient_balance() {
    let a = account(1);
    let b = account(2);
    let c = account(3);
    let mut token = Erc20::new(a, 100);
    assert_eq!(token.approve(a, b, 150), Ok(()));
    assert_eq!(token.transfer_from(b, a, c, 200), Err(Error::InsufficientApproval));
    assert_eq!(token.transfer_from(c, a, b, 1), Err(Error::InsufficientApproval));
    assert_eq!(token.allowance(a, b), 150);
    assert_eq!(token.balance_of(a), 100);
}

#[test]
fn delegated_transfer_of_the_whole_allowance_leaves_zero() {
    let a = account(1);
    let b = account(2);
    let mut token = Erc20::new(a, 1000);
    assert_eq!(token.approve(a, b, 300), Ok(()));
    assert_eq!(token.transfer_from(b, a, b, 300), Ok(()));
    assert_eq!(token.allowance(a, b), 0);
    assert_eq!(token.balance_of(a), 700);
    assert_eq!(token.balance_of(b), 300);
    assert_eq!(token.transfer_from(b, a, b, 1), Err(Error::InsufficientApproval));
}

#[test]
fn delegated_transfer_of_nothing_needs_no_approval() {
    let a = account(1);
    let b = account(2);
    let c = account(3);
    let mut token = Erc20::new(a, 1000);
    token.take_events();
    assert_eq!(token.transfer_from(b, a, c, 0), Ok(()));
    assert_eq!(token.allowance(a, b), 0);
    assert_eq!(token.balance_of(a), 1000);
    assert_eq!(token.events().len(), 3);
    assert_eq!(
        token.events()[2],
        Event::Approval(Approval { owner: a, spender: b, value: 0 })
    );
}

#[test]
fn supply_stays_the_sum_of_all_balances() {
    let a = account(1);
    let b = account(2);
    let c = account(3);
    let all = [a, b, c];
    let mut token = Erc20::new(a, 1000);
    assert_eq!(sum_of_balances(&token, &all), token.total_supply());
    assert_eq!(token.transfer(a, b, 400), Ok(()));
    assert_eq!(sum_of_balances(&token, &all), 1000);
    assert_eq!(token.transfer(b, c, 150), Ok(()));
    assert_eq!(sum_of_balances(&token, &all), 1000);
    assert_eq!(token.transfer(c, c, 150), Ok(()));
    assert_eq!(sum_of_balances(&token, &all), 1000);
    assert_eq!(token.transfer(c, a, 151), Err(Error::InsufficientBalance));
    assert_eq!(sum_of_balances(&token, &all), 1000);
    assert_eq!(token.approve(b, c, 500), Ok(()));
    assert_eq!(token.transfer_from(c, b, a, 250), Ok(()));
    assert_eq!(sum_of_balances(&token, &all), 1000);
    assert_eq!(token.total_supply(), 1000);
    assert_eq!(token.balance_of(a), 850);
    assert_eq!(token.balance_of(b), 0);
    assert_eq!(token.balance_of(c), 150);
}

#[test]
fn accounts_are_told_apart_by_every_byte() {
    let a = account(1);
    let mut other = [1u8; 32];
    other[31] = 2;
    let b = AccountId::new(other);
    assert!(a.same(&account(1)));
    assert!(!a.same(&b));
    let mut token = Erc20::new(a, 1000);
    assert_eq!(token.balance_of(b), 0);
    assert_eq!(token.transfer(a, b, 1), Ok(()));
    assert_eq!(token.balance_of(a), 999);
    assert_eq!(token.balance_of(b), 1);
}

#[test]
fn take_events_empties_the_log() {
    let a = account(1);
    let b = account(2);
    let mut token = Erc20::new(a, 5);
    let first = token.take_events();
    assert_eq!(first, vec![Event::Transfer(Transfer { from: None, to: Some(a), value: 5 })]);
    assert!(token.events().is_empty());
    assert_eq!(token.transfer(a, b, 5), Ok(()));
    let second = token.take_events();
    assert_eq!(
        second,
        vec![Event::Transfer(Transfer { from: Some(a), to: Some(b), value: 5 })]
    );
    assert_eq!(token.balance_of(b), 5);
    assert_eq!(token.total_supply(), 5);
}

#[test]
fn small_tables_have_room() {
    let a = account(1);
    let b = account(2);
    let c = account(3);
    let token = Erc20::new(a, 1000);
    assert!(token.approve_fits(a, b));
    assert!(token.transfer_fits(a, b, 10));
    assert!(token.transfer_fits(b, c, 10));
    assert!(token.transfer_from_fits(b, a, c, 10));
}

#[test]
fn try_variants_do_what_the_plain_ones_do() {
    let a = account(1);
    let b = account(2);
    let c = account(3);
    let mut token = Erc20::new(a, 1000);
    assert_eq!(token.try_approve(a, b, 300), Some(Ok(())));
    assert_eq!(token.allowance(a, b), 300);
    assert_eq!(token.try_transfer(a, c, 100), Some(Ok(())));
    assert_eq!(token.try_transfer(b, c, 100), Some(Err(Error::InsufficientBalance)));
    assert_eq!(token.try_transfer_from(b, a, c, 200), Some(Ok(())));
    assert_eq!(token.try_transfer_from(b, a, c, 200), Some(Err(Error::InsufficientApproval)));
    assert_eq!(token.try_transfer_from(b, a, c, 100), Some(Ok(())));
    assert_eq!(token.balance_of(a), 600);
    assert_eq!(token.balance_of(c), 400);
    assert_eq!(token.allowance(a, b), 0);
}
