use erc20::{AccountId, Erc20, Error};

fn account(tag: u8) -> AccountId {
    AccountId::new([tag; 32])
}

fn sorted<T: Ord>(mut list: Vec<T>) -> Vec<T> {
    list.sort();
    list
}

#[test]
fn holdings_and_approvals_list_every_entry_once() {
    let a = account(1);
    let b = account(2);
    let c = account(3);
    let mut token = Erc20::new(a, 1000);
    assert_eq!(token.transfer(a, b, 300), Ok(()));
    assert_eq!(token.transfer(a, c, 200), Ok(()));
    assert_eq!(token.transfer(c, b, 200), Ok(()));
    assert_eq!(token.approve(a, b, 5), Ok(()));
    assert_eq!(token.approve(b, a, 6), Ok(()));
    assert_eq!(token.approve(a, b, 7), Ok(()));
    assert_eq!(sorted(token.holdings()), vec![(a, 500), (b, 500), (c, 0)]);
    assert_eq!(sorted(token.approvals()), vec![(a, b, 7), (b, a, 6)]);
}

#[test]
fn restore_brings_the_books_back() {
    let a = account(1);
    let b = account(2);
    let c = account(3);
    let mut token = Erc20::new(a, 1000);
    assert_eq!(token.transfer(a, b, 300), Ok(()));
    assert_eq!(token.approve(a, c, 50), Ok(()));
    let mut again = Erc20::restore(token.total_supply(), &token.holdings(), &token.approvals())
        .expect("what was taken out can be restored");
    assert_eq!(again.total_supply(), 1000);
    assert_eq!(again.balance_of(a), 700);
    assert_eq!(again.balance_of(b), 300);
    assert_eq!(again.balance_of(c), 0);
    assert_eq!(again.allowance(a, c), 50);
    assert_eq!(again.allowance(c, a), 0);
    assert!(again.events().is_empty());
    assert_eq!(again.transfer_from(c, a, b, 50), Ok(()));
    assert_eq!(again.balance_of(b), 350);
    assert_eq!(again.transfer_from(c, a, b, 1), Err(Error::InsufficientApproval));
}

#[test]
fn restore_refuses_holdings_that_do_not_add_up() {
    let a = account(1);
    let b = account(2);
    assert!(Erc20::restore(10, &vec![(a, 4), (b, 5)], &vec![]).is_none());
    assert!(Erc20::restore(10, &vec![(a, 4), (b, 7)], &vec![]).is_none());
    assert!(Erc20::restore(10, &vec![], &vec![]).is_none());
    assert!(Erc20::restore(10, &vec![(a, 4), (b, 6)], &vec![]).is_some());
    assert!(Erc20::restore(0, &vec![], &vec![]).is_some());
}

#[test]
fn restore_refuses_amounts_beyond_the_largest_supply() {
    let a = account(1);
    let b = account(2);
    assert!(Erc20::restore(0, &vec![(a, u128::MAX), (b, 1)], &vec![]).is_none());
    assert!(Erc20::restore(u128::MAX, &vec![(a, u128::MAX), (b, 1)], &vec![]).is_none());
    assert!(Erc20::restore(u128::MAX, &vec![(a, u128::MAX), (b, 0)], &vec![]).is_some());
}

#[test]
fn restore_refuses_an_account_or_a_pair_named_twice() {
    let a = account(1);
    let b = account(2);
    assert!(Erc20::restore(10, &vec![(a, 4), (a, 6)], &vec![]).is_none());
    assert!(Erc20::restore(10, &vec![(a, 10), (a, 0)], &vec![]).is_none());
    assert!(Erc20::restore(10, &vec![(a, 10)], &vec![(a, b, 1), (a, b, 1)]).is_none());
    let token = Erc20::restore(10, &vec![(a, 10)], &vec![(a, b, 1), (b, a, 2)])
        .expect("the two pairs differ");
    assert_eq!(token.allowance(a, b), 1);
    assert_eq!(token.allowance(b, a), 2);
}
