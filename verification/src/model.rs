use vstd::prelude::*;
use crate::account::AccountId;
use crate::allowance::has_room;
use crate::error::Error;
use crate::event::{Approval, Event, Transfer, TransferFrom};
use crate::snapshot::{approval_pairs, holding_pairs, map_of};
use crate::sum::{total, value_at};

verus! {

/// What a ledger is, mathematically: the supply and the stored balances.
///
/// An account without an entry holds zero.
#[verifier::ext_equal]
pub struct Books {
    pub total_supply: u128,
    pub balances: Map<Seq<u8>, u128>,
}

impl Books {
    /// The balance of `who`: the stored amount, or zero.
    pub open spec fn balance_of(self, who: Seq<u8>) -> nat {
        value_at(self.balances, who)
    }

    /// Conservation of supply: the balances add up to the total supply.
    pub open spec fn conserved(self) -> bool {
        &&& self.balances.dom().finite()
        &&& total(self.balances) == self.total_supply
    }

    /// Whether `who` has an entry, or the table has room for one more.
    pub open spec fn can_hold(self, who: Seq<u8>) -> bool {
        self.balances.dom().contains(who) || (self.balances.dom().finite()
            && self.balances.dom().len() < u32::MAX)
    }

    /// The books of a fresh ledger: the whole supply with `holder`.
    pub open spec fn issued(holder: Seq<u8>, supply: u128) -> Books {
        Books { total_supply: supply, balances: Map::<Seq<u8>, u128>::empty().insert(holder, supply) }
    }

    /// Whether `amount` can be taken from `who`.
    pub open spec fn debit_result(self, who: Seq<u8>, amount: u128) -> Result<(), Error> {
        if amount > self.balance_of(who) {
            Err(Error::InsufficientBalance)
        } else {
            Ok(())
        }
    }

    /// The books after an attempt to take `amount` from `who`: unchanged
    /// where the balance does not suffice or `who` has no entry.
    pub open spec fn after_debit(self, who: Seq<u8>, amount: u128) -> Books {
        if amount > self.balance_of(who) || !self.balances.dom().contains(who) {
            self
        } else {
            Books {
                balances: self.balances.insert(who, (self.balance_of(who) - amount) as u128),
                ..self
            }
        }
    }

    /// The books after `amount` was added to the balance of `who`.
    pub open spec fn after_credit(self, who: Seq<u8>, amount: u128) -> Books {
        Books {
            balances: self.balances.insert(who, (self.balance_of(who) + amount) as u128),
            ..self
        }
    }

    /// The books after an attempt to move `amount` from `from` to `to`:
    /// a debit, then a credit, or nothing where the debit fails.
    pub open spec fn after_move(self, from: Seq<u8>, to: Seq<u8>, amount: u128) -> Books {
        if amount > self.balance_of(from) {
            self
        } else {
            self.after_debit(from, amount).after_credit(to, amount)
        }
    }
}

/// What a token contract is, mathematically: its books, the allowances and
/// the log of the events emitted so far, oldest first.
///
/// A pair without an entry allows zero.
#[verifier::ext_equal]
pub struct TokenState {
    pub books: Books,
    pub allowances: Map<(Seq<u8>, Seq<u8>), u128>,
    pub events: Seq<Event>,
}

impl TokenState {
    /// The total supply.
    pub open spec fn total_supply(self) -> nat {
        self.books.total_supply as nat
    }

    /// The balance of `who`: the stored amount, or zero.
    pub open spec fn balance_of(self, who: Seq<u8>) -> nat {
        self.books.balance_of(who)
    }

    /// What `owner` allows `spender`: the stored amount, or zero.
    pub open spec fn allowance(self, owner: Seq<u8>, spender: Seq<u8>) -> nat {
        value_at(self.allowances, (owner, spender))
    }

    /// What every reachable state satisfies: supply is conserved, and the
    /// allowances table is finite.
    pub open spec fn valid(self) -> bool {
        &&& self.books.conserved()
        &&& self.allowances.dom().finite()
    }

    /// Whether the pair has an entry, or the table has room for one more.
    pub open spec fn can_allow(self, owner: Seq<u8>, spender: Seq<u8>) -> bool {
        has_room(self.allowances, owner, spender)
    }

    /// Whether an approval by `owner` for `spender` finds the room it needs.
    pub open spec fn approve_fits(self, owner: AccountId, spender: AccountId) -> bool {
        self.can_allow(owner@, spender@)
    }

    /// Whether a transfer finds the room it needs: a transfer that succeeds
    /// credits `to`.
    pub open spec fn transfer_fits(self, from: AccountId, to: AccountId, value: u128) -> bool {
        self.transfer_result(from, value) is Ok ==> self.books.can_hold(to@)
    }

    /// Whether a delegated transfer finds the room it needs: one that
    /// succeeds credits `to` and stores the allowance that is left.
    pub open spec fn transfer_from_fits(
        self,
        caller: AccountId,
        from: AccountId,
        to: AccountId,
        value: u128,
    ) -> bool {
        self.transfer_from_result(caller, from, value) is Ok ==> self.books.can_hold(to@)
            && self.can_allow(from@, caller@)
    }

    /// The state right after construction by `deployer`.
    pub open spec fn issued(deployer: AccountId, supply: u128) -> TokenState {
        TokenState {
            books: Books::issued(deployer@, supply),
            allowances: Map::empty(),
            events: seq![
                Event::Transfer(Transfer { from: None, to: Some(deployer), value: supply }),
            ],
        }
    }

    /// The state restored from a supply, holdings and approvals: nothing
    /// logged yet.
    pub open spec fn restored(
        total_supply: u128,
        holdings: Seq<(AccountId, u128)>,
        approvals: Seq<(AccountId, AccountId, u128)>,
    ) -> TokenState {
        TokenState {
            books: Books { total_supply, balances: map_of(holding_pairs(holdings)) },
            allowances: map_of(approval_pairs(approvals)),
            events: Seq::empty(),
        }
    }

    /// The state after `owner` approved `spender` for `value`.
    pub open spec fn after_approve(
        self,
        owner: AccountId,
        spender: AccountId,
        value: u128,
    ) -> TokenState {
        TokenState {
            allowances: self.allowances.insert((owner@, spender@), value),
            events: self.events.push(Event::Approval(Approval { owner, spender, value })),
            ..self
        }
    }

    /// What a transfer of `value` out of `from` returns.
    pub open spec fn transfer_result(self, from: AccountId, value: u128) -> Result<(), Error> {
        self.books.debit_result(from@, value)
    }

    /// The state after an attempt to transfer `value` from `from` to `to`.
    pub open spec fn after_transfer(
        self,
        from: AccountId,
        to: AccountId,
        value: u128,
    ) -> TokenState {
        if self.transfer_result(from, value) is Err {
            self
        } else {
            TokenState {
                books: self.books.after_move(from@, to@, value),
                events: self.events.push(
                    Event::Transfer(Transfer { from: Some(from), to: Some(to), value }),
                ),
                ..self
            }
        }
    }

    /// What a delegated transfer returns: the allowance is tested first, the
    /// balance second.
    pub open spec fn transfer_from_result(
        self,
        caller: AccountId,
        from: AccountId,
        value: u128,
    ) -> Result<(), Error> {
        if value > self.allowance(from@, caller@) {
            Err(Error::InsufficientApproval)
        } else {
            self.transfer_result(from, value)
        }
    }

    /// The state after `caller` attempted to transfer `value` from `from` to
    /// `to` on the owner's behalf.
    pub open spec fn after_transfer_from(
        self,
        caller: AccountId,
        from: AccountId,
        to: AccountId,
        value: u128,
    ) -> TokenState {
        if self.transfer_from_result(caller, from, value) is Err {
            self
        } else {
            let moved = self.after_transfer(from, to, value);
            let rest = (self.allowance(from@, caller@) - value) as u128;
            TokenState {
                allowances: moved.allowances.insert((from@, caller@), rest),
                events: moved.events.push(
                    Event::TransferFrom(
                        TransferFrom { spender: Some(caller), from: Some(from), to: Some(to), value },
                    ),
                ).push(Event::Approval(Approval { owner: from, spender: caller, value: rest })),
                ..moved
            }
        }
    }
}

} // verus!
