use vstd::prelude::*;
use crate::account::AccountId;
use crate::error::Error;
use crate::model::Books;
use crate::store::BalanceStore;
use crate::snapshot::{
    amounts_sum, distinct_keys, holding_pairs, lemma_amounts_sum_prefix, lemma_map_of_distinct,
    lemma_map_of_keys, lists, map_of, restorable_holdings, Holdings,
};
use crate::sum::{lemma_total_empty, lemma_total_insert, lemma_value_le_total, total};

verus! {

/// The total supply and the balance of every account.
pub struct Ledger {
    total_supply: u128,
    balances: BalanceStore,
}

impl View for Ledger {
    type V = Books;

    closed spec fn view(&self) -> Books {
        Books { total_supply: self.total_supply, balances: self.balances@ }
    }
}

/// A debit leaves the set of stored accounts as it is and, where it
/// succeeds, lowers the sum of the balances by the amount.
pub proof fn lemma_debit_lowers_total(books: Books, who: Seq<u8>, amount: u128)
    requires
        books.balances.dom().finite(),
        amount <= books.balance_of(who),
    ensures
        books.after_debit(who, amount).balances.dom() == books.balances.dom(),
        total(books.after_debit(who, amount).balances) + amount == total(books.balances),
{
    if books.balances.dom().contains(who) {
        let rest = (books.balance_of(who) - amount) as u128;
        lemma_total_insert(books.balances, who, rest);
        assert(books.balances.insert(who, rest).dom() =~= books.balances.dom());
    }
}

/// A credit raises the sum of the balances by the amount, as long as the
/// new balance fits.
pub proof fn lemma_credit_raises_total(books: Books, who: Seq<u8>, amount: u128)
    requires
        books.balances.dom().finite(),
        books.balance_of(who) + amount <= u128::MAX,
    ensures
        books.after_credit(who, amount).balances.dom().finite(),
        total(books.after_credit(who, amount).balances) == total(books.balances) + amount,
{
    let more = (books.balance_of(who) + amount) as u128;
    lemma_total_insert(books.balances, who, more);
}

/// Moving value between accounts conserves the supply, and the credit in it
/// never exceeds the supply.
pub proof fn lemma_move_conserves(books: Books, from: Seq<u8>, to: Seq<u8>, amount: u128)
    requires
        books.conserved(),
    ensures
        books.after_move(from, to, amount).conserved(),
        books.after_move(from, to, amount).total_supply == books.total_supply,
        amount <= books.balance_of(from) ==> books.after_debit(from, amount).balance_of(to)
            + amount <= books.total_supply,
{
    if amount <= books.balance_of(from) {
        let debited = books.after_debit(from, amount);
        lemma_debit_lowers_total(books, from, amount);
        lemma_value_le_total(debited.balances, to);
        lemma_credit_raises_total(debited, to, amount);
    }
}

impl Ledger {
    /// A ledger whose whole supply is held by `holder`.
    pub fn issue(holder: &AccountId, supply: u128) -> (ledger: Ledger)
        ensures
            ledger@ == Books::issued(holder@, supply),
            ledger@.conserved(),
    {
        let mut balances = BalanceStore::new();
        let _ = balances.insert(holder, supply);
        proof {
            lemma_total_empty::<Seq<u8>>();
            lemma_total_insert(Map::<Seq<u8>, u128>::empty(), holder@, supply);
        }
        Ledger { total_supply: supply, balances }
    }

    /// The ledger with the given supply and holdings, where the holdings
    /// name no account twice and add up to the supply; else `None`.
    pub fn restore(total_supply: u128, holdings: &Holdings) -> (ledger: Option<Ledger>)
        ensures
            ledger is Some <==> restorable_holdings(total_supply, holdings@),
            ledger is Some ==> ledger->0@ == (Books {
                total_supply,
                balances: map_of(holding_pairs(holdings@)),
            }) && ledger->0@.conserved(),
    {
        let ghost pairs = holding_pairs(holdings@);
        if holdings.len() > u32::MAX as usize {
            return None;
        }
        let mut balances = BalanceStore::new();
        let mut sum: u128 = 0;
        let mut i: usize = 0;
        while i < holdings.len()
            invariant
                i <= holdings.len() <= u32::MAX,
                pairs == holding_pairs(holdings@),
                distinct_keys(pairs.take(i as int)),
                balances@ == map_of(pairs.take(i as int)),
                sum == amounts_sum(pairs.take(i as int)),
            decreases holdings.len() - i,
        {
            let who = holdings[i].0;
            let amount = holdings[i].1;
            let ghost front = pairs.take(i as int);
            let ghost next = pairs.take(i + 1);
            proof {
                assert(next.drop_last() =~= front);
                assert(next.last() == (who@, amount));
                lemma_map_of_distinct(front);
                lemma_map_of_keys(front);
            }
            if balances.get(&who).is_some() {
                proof {
                    let j = choose|j: int| 0 <= j < front.len() && (#[trigger] front[j]).0 == who@;
                    assert(pairs[j].0 == pairs[i as int].0);
                }
                return None;
            }
            match sum.checked_add(amount) {
                None => {
                    proof {
                        lemma_amounts_sum_prefix(pairs, i + 1);
                    }
                    return None;
                },
                Some(more) => {
                    sum = more;
                },
            }
            let _ = balances.insert(&who, amount);
            proof {
                assert forall|a: int, b: int| 0 <= a < b < next.len() implies (#[trigger] next[a]).0
                    != (#[trigger] next[b]).0 by {
                    if b < front.len() {
                        assert(front[a].0 != front[b].0);
                    } else {
                        assert(front[a].0 == next[a].0);
                    }
                }
            }
            i += 1;
        }
        proof {
            assert(pairs.take(i as int) =~= pairs);
            lemma_map_of_distinct(pairs);
        }
        if sum != total_supply {
            return None;
        }
        Some(Ledger { total_supply, balances })
    }

    /// The stored balances, each account once, in no particular order.
    pub fn holdings(&self) -> (list: Holdings)
        ensures
            lists(holding_pairs(list@), self@.balances),
    {
        self.balances.entries()
    }

    /// The total supply.
    pub fn total_supply(&self) -> (supply: u128)
        ensures
            supply == self@.total_supply,
    {
        self.total_supply
    }

    /// The balance of `who`: zero where nothing is stored.
    pub fn balance_of(&self, who: &AccountId) -> (balance: u128)
        ensures
            balance == self@.balance_of(who@),
    {
        match self.balances.get(who) {
            Some(balance) => balance,
            None => 0,
        }
    }

    /// Whether a credit to `who` finds an entry or room for a new one.
    pub fn can_hold(&self, who: &AccountId) -> (room: bool)
        requires
            self@.balances.dom().finite(),
        ensures
            room == self@.can_hold(who@),
    {
        match self.balances.get(who) {
            Some(_) => true,
            None => self.balances.len() < u32::MAX,
        }
    }

    /// Takes `amount` from `who`, or fails and changes nothing where `who`
    /// holds less.
    pub fn debit(&mut self, who: &AccountId, amount: u128) -> (result: Result<(), Error>)
        ensures
            result == old(self)@.debit_result(who@, amount),
            final(self)@ == old(self)@.after_debit(who@, amount),
    {
        match self.balances.get(who) {
            Some(balance) => {
                if amount > balance {
                    return Err(Error::InsufficientBalance);
                }
                let _ = self.balances.insert(who, balance - amount);
                Ok(())
            },
            None => {
                if amount > 0 {
                    return Err(Error::InsufficientBalance);
                }
                Ok(())
            },
        }
    }

    /// Adds `amount` to the balance of `who`, with a new entry where `who`
    /// had none.
    pub fn credit(&mut self, who: &AccountId, amount: u128)
        requires
            old(self)@.balance_of(who@) + amount <= u128::MAX,
            old(self)@.can_hold(who@),
        ensures
            final(self)@ == old(self)@.after_credit(who@, amount),
    {
        let balance = self.balance_of(who);
        let _ = self.balances.insert(who, balance + amount);
    }

    /// Moves `amount` from `from` to `to`: a debit, then a credit. Fails and
    /// changes nothing where `from` holds less than `amount`.
    pub fn transfer(
        &mut self,
        from: &AccountId,
        to: &AccountId,
        amount: u128,
    ) -> (result: Result<(), Error>)
        requires
            old(self)@.conserved(),
            amount <= old(self)@.balance_of(from@) ==> old(self)@.can_hold(to@),
        ensures
            result == old(self)@.debit_result(from@, amount),
            final(self)@ == old(self)@.after_move(from@, to@, amount),
            final(self)@.conserved(),
    {
        proof {
            lemma_move_conserves(old(self)@, from@, to@, amount);
        }
        match self.debit(from, amount) {
            Err(e) => Err(e),
            Ok(()) => {
                self.credit(to, amount);
                Ok(())
            },
        }
    }
}

} // verus!
