use vstd::prelude::*;
use crate::account::AccountId;
use crate::snapshot::{
    approval_pairs, distinct_keys, lemma_map_of_distinct, lemma_map_of_keys, lists, map_of,
    restorable_approvals, Approvals,
};
use crate::store::AllowanceStore;
use crate::sum::value_at;

verus! {

/// What each owner allows each spender. The pair is ordered: what A allows B
/// says nothing of what B allows A.
pub struct AllowanceTable {
    entries: AllowanceStore,
}

impl View for AllowanceTable {
    type V = Map<(Seq<u8>, Seq<u8>), u128>;

    closed spec fn view(&self) -> Map<(Seq<u8>, Seq<u8>), u128> {
        self.entries@
    }
}

/// Whether `table` has an entry for the pair, or room for one more.
pub open spec fn has_room(
    table: Map<(Seq<u8>, Seq<u8>), u128>,
    owner: Seq<u8>,
    spender: Seq<u8>,
) -> bool {
    table.dom().contains((owner, spender)) || (table.dom().finite() && table.dom().len()
        < u32::MAX)
}

impl AllowanceTable {
    /// A table in which nobody allows anybody anything.
    pub fn new() -> (table: AllowanceTable)
        ensures
            table@ == (Map::<(Seq<u8>, Seq<u8>), u128>::empty()),
    {
        AllowanceTable { entries: AllowanceStore::new() }
    }

    /// The table with the given approvals, where they name no pair twice;
    /// else `None`.
    pub fn restore(approvals: &Approvals) -> (table: Option<AllowanceTable>)
        ensures
            table is Some <==> restorable_approvals(approvals@),
            table is Some ==> table->0@ == map_of(approval_pairs(approvals@))
                && table->0@.dom().finite(),
    {
        let ghost pairs = approval_pairs(approvals@);
        if approvals.len() > u32::MAX as usize {
            return None;
        }
        let mut entries = AllowanceStore::new();
        let mut i: usize = 0;
        while i < approvals.len()
            invariant
                i <= approvals.len() <= u32::MAX,
                pairs == approval_pairs(approvals@),
                distinct_keys(pairs.take(i as int)),
                entries@ == map_of(pairs.take(i as int)),
            decreases approvals.len() - i,
        {
            let owner = approvals[i].0;
            let spender = approvals[i].1;
            let amount = approvals[i].2;
            let ghost front = pairs.take(i as int);
            let ghost next = pairs.take(i + 1);
            proof {
                assert(next.drop_last() =~= front);
                assert(next.last() == ((owner@, spender@), amount));
                lemma_map_of_distinct(front);
                lemma_map_of_keys(front);
            }
            if entries.get(&owner, &spender).is_some() {
                proof {
                    let j = choose|j: int|
                        0 <= j < front.len() && (#[trigger] front[j]).0 == (owner@, spender@);
                    assert(pairs[j].0 == pairs[i as int].0);
                }
                return None;
            }
            let _ = entries.insert(&owner, &spender, amount);
            proof {
                assert forall|a: int, b: int| 0 <= a < b < next.len() implies (#[trigger] next[a]).0
                    != (#[trigger] next[b]).0 by {
                    if b < front.len() {
                        assert(front[a].0 != front[b].0);
                    } else {
                        assert(front[a].0 == next[a].0);
                    }
                }
            }
            i += 1;
        }
        proof {
            assert(pairs.take(i as int) =~= pairs);
            lemma_map_of_keys(pairs);
        }
        Some(AllowanceTable { entries })
    }

    /// The stored allowances, each pair once, in no particular order.
    pub fn approvals(&self) -> (list: Approvals)
        ensures
            lists(approval_pairs(list@), self@),
    {
        self.entries.entries()
    }

    /// What `owner` allows `spender`: zero where nothing is stored.
    pub fn allowance(&self, owner: &AccountId, spender: &AccountId) -> (amount: u128)
        ensures
            amount == value_at(self@, (owner@, spender@)),
    {
        match self.entries.get(owner, spender) {
            Some(amount) => amount,
            None => 0,
        }
    }

    /// Whether the pair has an entry, or the table has room for one more.
    pub fn can_allow(&self, owner: &AccountId, spender: &AccountId) -> (room: bool)
        requires
            self@.dom().finite(),
        ensures
            room == has_room(self@, owner@, spender@),
    {
        match self.entries.get(owner, spender) {
            Some(_) => true,
            None => self.entries.len() < u32::MAX,
        }
    }

    /// Sets what `owner` allows `spender` to `amount`, whatever it was.
    pub fn set_allowance(&mut self, owner: &AccountId, spender: &AccountId, amount: u128)
        requires
            has_room(old(self)@, owner@, spender@),
        ensures
            final(self)@ == old(self)@.insert((owner@, spender@), amount),
    {
        let _ = self.entries.insert(owner, spender, amount);
    }
}

} // verus!
