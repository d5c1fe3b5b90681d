use vstd::prelude::*;
use crate::account::AccountId;
use crate::allowance::AllowanceTable;
use crate::error::Error;
use crate::event::{Approval, Event, Transfer, TransferFrom};
use crate::ledger::Ledger;
use crate::model::TokenState;
use crate::snapshot::{
    approval_pairs, holding_pairs, lists, restorable_approvals, restorable_holdings, Approvals,
    Holdings,
};
use crate::sum::total;

verus! {

/// A token contract: the ledger, the allowances, and the events emitted
/// since they were last taken.
///
/// Every operation names the account on whose behalf it runs. An operation
/// either applies all of its changes or fails and applies none.
pub struct Erc20 {
    ledger: Ledger,
    allowances: AllowanceTable,
    events: Vec<Event>,
}

impl View for Erc20 {
    type V = TokenState;

    closed spec fn view(&self) -> TokenState {
        TokenState { books: self.ledger@, allowances: self.allowances@, events: self.events@ }
    }
}

impl Erc20 {
    /// Creates the contract: `caller` holds the whole supply of `init_value`,
    /// nobody allows anybody anything, and the issuance is logged.
    pub fn new(caller: AccountId, init_value: u128) -> (token: Erc20)
        ensures
            token@ == TokenState::issued(caller, init_value),
            token@.valid(),
    {
        let ledger = Ledger::issue(&caller, init_value);
        let mut events: Vec<Event> = Vec::new();
        events.push(Event::Transfer(Transfer { from: None, to: Some(caller), value: init_value }));
        let token = Erc20 { ledger, allowances: AllowanceTable::new(), events };
        assert(token@ =~~= TokenState::issued(caller, init_value));
        token
    }

    /// Creates the contract with a supply of zero.
    pub fn default(caller: AccountId) -> (token: Erc20)
        ensures
            token@ == TokenState::issued(caller, 0),
            token@.valid(),
    {
        Erc20::new(caller, 0)
    }

    /// Brings back a contract from what was stored of it: the supply, the
    /// holdings and the approvals. `None` where the holdings name an account
    /// twice or do not add up to the supply, or the approvals name a pair
    /// twice. The log starts empty.
    pub fn restore(
        total_supply: u128,
        holdings: &Holdings,
        approvals: &Approvals,
    ) -> (token: Option<Erc20>)
        ensures
            token is Some <==> restorable_holdings(total_supply, holdings@)
                && restorable_approvals(approvals@),
            token is Some ==> token->0@ == TokenState::restored(total_supply, holdings@, approvals@)
                && token->0@.valid(),
    {
        let ledger = match Ledger::restore(total_supply, holdings) {
            Some(ledger) => ledger,
            None => {
                return None;
            },
        };
        let allowances = match AllowanceTable::restore(approvals) {
            Some(allowances) => allowances,
            None => {
                return None;
            },
        };
        let token = Erc20 { ledger, allowances, events: Vec::new() };
        assert(token@ =~~= TokenState::restored(total_supply, holdings@, approvals@));
        Some(token)
    }

    /// The stored balances, each account once, in no particular order.
    pub fn holdings(&self) -> (list: Holdings)
        ensures
            lists(holding_pairs(list@), self@.books.balances),
    {
        self.ledger.holdings()
    }

    /// The stored allowances, each pair once, in no particular order.
    pub fn approvals(&self) -> (list: Approvals)
        ensures
            lists(approval_pairs(list@), self@.allowances),
    {
        self.allowances.approvals()
    }

    /// The total supply, which is what all balances add up to.
    pub fn total_supply(&self) -> (supply: u128)
        ensures
            supply == self@.total_supply(),
            self@.valid() ==> supply == total(self@.books.balances),
    {
        self.ledger.total_supply()
    }

    /// The balance of `who`.
    pub fn balance_of(&self, who: AccountId) -> (balance: u128)
        ensures
            balance == self@.balance_of(who@),
    {
        self.ledger.balance_of(&who)
    }

    /// What `owner` allows `spender` to move.
    pub fn allowance(&self, owner: AccountId, spender: AccountId) -> (amount: u128)
        ensures
            amount == self@.allowance(owner@, spender@),
    {
        self.allowances.allowance(&owner, &spender)
    }

    /// The events emitted since they were last taken, oldest first.
    pub fn events(&self) -> (log: &Vec<Event>)
        ensures
            log@ == self@.events,
    {
        &self.events
    }

    /// Hands out the events emitted since they were last taken, oldest
    /// first, and starts the log afresh.
    pub fn take_events(&mut self) -> (log: Vec<Event>)
        ensures
            log@ == old(self)@.events,
            final(self)@ == (TokenState { events: Seq::empty(), ..old(self)@ }),
    {
        let mut log: Vec<Event> = Vec::new();
        std::mem::swap(&mut self.events, &mut log);
        assert(self@ =~~= (TokenState { events: Seq::empty(), ..old(self)@ }));
        log
    }

    /// Whether an approval by `caller` for `spender` finds the room it needs.
    pub fn approve_fits(&self, caller: AccountId, spender: AccountId) -> (fits: bool)
        requires
            self@.valid(),
        ensures
            fits == self@.approve_fits(caller, spender),
    {
        self.allowances.can_allow(&caller, &spender)
    }

    /// Whether a transfer by `caller` finds the room it needs.
    pub fn transfer_fits(&self, caller: AccountId, to: AccountId, value: u128) -> (fits: bool)
        requires
            self@.valid(),
        ensures
            fits == self@.transfer_fits(caller, to, value),
    {
        value > self.ledger.balance_of(&caller) || self.ledger.can_hold(&to)
    }

    /// Whether a delegated transfer by `caller` finds the room it needs.
    pub fn transfer_from_fits(
        &self,
        caller: AccountId,
        from: AccountId,
        to: AccountId,
        value: u128,
    ) -> (fits: bool)
        requires
            self@.valid(),
        ensures
            fits == self@.transfer_from_fits(caller, from, to, value),
    {
        value > self.allowances.allowance(&from, &caller) || value > self.ledger.balance_of(&from)
            || (self.ledger.can_hold(&to) && self.allowances.can_allow(&from, &caller))
    }

    /// `caller` allows `spender` to move up to `value`, whatever was allowed
    /// before and whatever `caller` holds. Always succeeds.
    pub fn approve(
        &mut self,
        caller: AccountId,
        spender: AccountId,
        value: u128,
    ) -> (result: Result<(), Error>)
        requires
            old(self)@.valid(),
            old(self)@.approve_fits(caller, spender),
        ensures
            result == Ok::<(), Error>(()),
            final(self)@ == old(self)@.after_approve(caller, spender, value),
            final(self)@.valid(),
    {
        self.allowances.set_allowance(&caller, &spender, value);
        self.events.push(Event::Approval(Approval { owner: caller, spender, value }));
        assert(self@ =~~= old(self)@.after_approve(caller, spender, value));
        Ok(())
    }

    /// Moves `value` from `caller` to `to`. Fails with
    /// `InsufficientBalance`, and changes nothing, where `caller` holds less.
    pub fn transfer(
        &mut self,
        caller: AccountId,
        to: AccountId,
        value: u128,
    ) -> (result: Result<(), Error>)
        requires
            old(self)@.valid(),
            old(self)@.transfer_fits(caller, to, value),
        ensures
            result == old(self)@.transfer_result(caller, value),
            final(self)@ == old(self)@.after_transfer(caller, to, value),
            final(self)@.valid(),
    {
        self.inter_transfer(caller, to, value)
    }

    /// `caller` moves `value` from `from` to `to` out of what `from` allows
    /// it. Fails with `InsufficientApproval` where the allowance is less than
    /// `value`, else with `InsufficientBalance` where `from` holds less;
    /// a failure changes nothing. On success the allowance shrinks by `value`.
    pub fn transfer_from(
        &mut self,
        caller: AccountId,
        from: AccountId,
        to: AccountId,
        value: u128,
    ) -> (result: Result<(), Error>)
        requires
            old(self)@.valid(),
            old(self)@.transfer_from_fits(caller, from, to, value),
        ensures
            result == old(self)@.transfer_from_result(caller, from, value),
            final(self)@ == old(self)@.after_transfer_from(caller, from, to, value),
            final(self)@.valid(),
    {
        let allowance = self.allowance(from, caller);
        if value > allowance {
            return Err(Error::InsufficientApproval);
        }
        match self.inter_transfer(from, to, value) {
            Err(e) => Err(e),
            Ok(()) => {
                self.events.push(
                    Event::TransferFrom(
                        TransferFrom { spender: Some(caller), from: Some(from), to: Some(to), value },
                    ),
                );
                let new_allowance = allowance - value;
                self.allowances.set_allowance(&from, &caller, new_allowance);
                self.events.push(
                    Event::Approval(Approval { owner: from, spender: caller, value: new_allowance }),
                );
                assert(self@ =~~= old(self)@.after_transfer_from(caller, from, to, value));
                Ok(())
            },
        }
    }

    /// [`Erc20::approve`] where it finds the room it needs; else `None`, and
    /// nothing changes.
    pub fn try_approve(
        &mut self,
        caller: AccountId,
        spender: AccountId,
        value: u128,
    ) -> (outcome: Option<Result<(), Error>>)
        requires
            old(self)@.valid(),
        ensures
            outcome == (if old(self)@.approve_fits(caller, spender) {
                Some(Ok::<(), Error>(()))
            } else {
                None
            }),
            final(self)@ == (if old(self)@.approve_fits(caller, spender) {
                old(self)@.after_approve(caller, spender, value)
            } else {
                old(self)@
            }),
            final(self)@.valid(),
    {
        if self.approve_fits(caller, spender) {
            Some(self.approve(caller, spender, value))
        } else {
            None
        }
    }

    /// [`Erc20::transfer`] where it finds the room it needs; else `None`,
    /// and nothing changes.
    pub fn try_transfer(
        &mut self,
        caller: AccountId,
        to: AccountId,
        value: u128,
    ) -> (outcome: Option<Result<(), Error>>)
        requires
            old(self)@.valid(),
        ensures
            outcome == (if old(self)@.transfer_fits(caller, to, value) {
                Some(old(self)@.transfer_result(caller, value))
            } else {
                None
            }),
            final(self)@ == (if old(self)@.transfer_fits(caller, to, value) {
                old(self)@.after_transfer(caller, to, value)
            } else {
                old(self)@
            }),
            final(self)@.valid(),
    {
        if self.transfer_fits(caller, to, value) {
            Some(self.transfer(caller, to, value))
        } else {
            None
        }
    }

    /// [`Erc20::transfer_from`] where it finds the room it needs; else
    /// `None`, and nothing changes.
    pub fn try_transfer_from(
        &mut self,
        caller: AccountId,
        from: AccountId,
        to: AccountId,
        value: u128,
    ) -> (outcome: Option<Result<(), Error>>)
        requires
            old(self)@.valid(),
        ensures
            outcome == (if old(self)@.transfer_from_fits(caller, from, to, value) {
                Some(old(self)@.transfer_from_result(caller, from, value))
            } else {
                None
            }),
            final(self)@ == (if old(self)@.transfer_from_fits(caller, from, to, value) {
                old(self)@.after_transfer_from(caller, from, to, value)
            } else {
                old(self)@
            }),
            final(self)@.valid(),
    {
        if self.transfer_from_fits(caller, from, to, value) {
            Some(self.transfer_from(caller, from, to, value))
        } else {
            None
        }
    }

    /// The transfer itself: debit, credit, and the event.
    fn inter_transfer(
        &mut self,
        from: AccountId,
        to: AccountId,
        value: u128,
    ) -> (result: Result<(), Error>)
        requires
            old(self)@.valid(),
            old(self)@.transfer_fits(from, to, value),
        ensures
            result == old(self)@.transfer_result(from, value),
            final(self)@ == old(self)@.after_transfer(from, to, value),
            final(self)@.valid(),
    {
        match self.ledger.transfer(&from, &to, value) {
            Err(e) => Err(e),
            Ok(()) => {
                self.events.push(Event::Transfer(Transfer { from: Some(from), to: Some(to), value }));
                assert(self@ =~~= old(self)@.after_transfer(from, to, value));
                Ok(())
            },
        }
    }
}

} // verus!
