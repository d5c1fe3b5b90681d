use vstd::prelude::*;
use crate::account::AccountId;

verus! {

/// Value moved from one account to another. `from` is `None` for the
/// issuance that creates the supply.
#[derive(Debug, Clone, Copy, PartialEq, Eq)]
pub struct Transfer {
    pub from: Option<AccountId>,
    pub to: Option<AccountId>,
    pub value: u128,
}

/// A spender moved value out of `from` on the owner's behalf.
#[derive(Debug, Clone, Copy, PartialEq, Eq)]
pub struct TransferFrom {
    pub spender: Option<AccountId>,
    pub from: Option<AccountId>,
    pub to: Option<AccountId>,
    pub value: u128,
}

/// `owner` now allows `spender` to move up to `value`.
#[derive(Debug, Clone, Copy, PartialEq, Eq)]
pub struct Approval {
    pub owner: AccountId,
    pub spender: AccountId,
    pub value: u128,
}

/// One record of the ledger's event log.
#[derive(Debug, Clone, Copy, PartialEq, Eq)]
pub enum Event {
    Transfer(Transfer),
    TransferFrom(TransferFrom),
    Approval(Approval),
}

} // verus!
