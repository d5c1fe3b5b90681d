use vstd::prelude::*;
use crate::account::AccountId;
use crate::sum::{lemma_total_empty, lemma_total_insert, total};

verus! {

/// The stored balances as a list: one (account, amount) pair per entry.
pub type Holdings = Vec<(AccountId, u128)>;

/// The stored allowances as a list: one (owner, spender, amount) triple per
/// entry.
pub type Approvals = Vec<(AccountId, AccountId, u128)>;

/// A list of holdings, each account taken by its bytes.
pub open spec fn holding_pairs(list: Seq<(AccountId, u128)>) -> Seq<(Seq<u8>, u128)> {
    Seq::new(list.len(), |i: int| (list[i].0@, list[i].1))
}

/// A list of approvals, each account taken by its bytes.
pub open spec fn approval_pairs(list: Seq<(AccountId, AccountId, u128)>) -> Seq<
    ((Seq<u8>, Seq<u8>), u128),
> {
    Seq::new(list.len(), |i: int| ((list[i].0@, list[i].1@), list[i].2))
}

/// No key occurs twice in the list.
pub open spec fn distinct_keys<K>(pairs: Seq<(K, u128)>) -> bool {
    forall|i: int, j: int| 0 <= i < j < pairs.len() ==> (#[trigger] pairs[i]).0 != (
    #[trigger] pairs[j]).0
}

/// The map that holds each pair of the list; of two pairs with one key, the
/// later one.
pub open spec fn map_of<K>(pairs: Seq<(K, u128)>) -> Map<K, u128>
    decreases pairs.len(),
{
    if pairs.len() == 0 {
        Map::empty()
    } else {
        map_of(pairs.drop_last()).insert(pairs.last().0, pairs.last().1)
    }
}

/// The sum of the amounts of the list.
pub open spec fn amounts_sum<K>(pairs: Seq<(K, u128)>) -> nat
    decreases pairs.len(),
{
    if pairs.len() == 0 {
        0
    } else {
        amounts_sum(pairs.drop_last()) + pairs.last().1 as nat
    }
}

/// The list holds the entries of `m`, each exactly once, in some order.
pub open spec fn lists<K>(pairs: Seq<(K, u128)>, m: Map<K, u128>) -> bool {
    &&& distinct_keys(pairs)
    &&& forall|i: int|
        0 <= i < pairs.len() ==> m.dom().contains((#[trigger] pairs[i]).0) && m[pairs[i].0]
            == pairs[i].1
    &&& forall|k: K|
        m.dom().contains(k) ==> exists|i: int| 0 <= i < pairs.len() && (#[trigger] pairs[i]).0 == k
}

/// Whether a ledger can be restored from a supply and a list of holdings:
/// no account twice, no more accounts than the table can index, and amounts
/// that add up to the supply.
pub open spec fn restorable_holdings(total_supply: u128, list: Seq<(AccountId, u128)>) -> bool {
    &&& distinct_keys(holding_pairs(list))
    &&& list.len() <= u32::MAX
    &&& amounts_sum(holding_pairs(list)) == total_supply
}

/// Whether an allowances table can be restored from a list of approvals: no
/// pair twice, and no more pairs than the table can index.
pub open spec fn restorable_approvals(list: Seq<(AccountId, AccountId, u128)>) -> bool {
    &&& distinct_keys(approval_pairs(list))
    &&& list.len() <= u32::MAX
}

/// The keys of `map_of(pairs)` are the keys of the list, and they are
/// finitely many.
pub proof fn lemma_map_of_keys<K>(pairs: Seq<(K, u128)>)
    ensures
        map_of(pairs).dom().finite(),
        forall|k: K|
            map_of(pairs).dom().contains(k) <==> exists|i: int|
                0 <= i < pairs.len() && (#[trigger] pairs[i]).0 == k,
    decreases pairs.len(),
{
    if pairs.len() > 0 {
        let front = pairs.drop_last();
        lemma_map_of_keys(front);
        assert forall|k: K|
            map_of(pairs).dom().contains(k) <==> exists|i: int|
                0 <= i < pairs.len() && (#[trigger] pairs[i]).0 == k by {
            if map_of(pairs).dom().contains(k) {
                if k == pairs.last().0 {
                    assert(pairs[pairs.len() - 1].0 == k);
                } else {
                    let i = choose|i: int| 0 <= i < front.len() && (#[trigger] front[i]).0 == k;
                    assert(pairs[i].0 == k);
                }
            }
            if exists|i: int| 0 <= i < pairs.len() && (#[trigger] pairs[i]).0 == k {
                let i = choose|i: int| 0 <= i < pairs.len() && (#[trigger] pairs[i]).0 == k;
                if i < front.len() {
                    assert(front[i].0 == k);
                }
            }
        }
    }
}

/// Where no key occurs twice, `map_of(pairs)` has one entry per pair, holds
/// each pair's amount under its key, and sums to the sum of the amounts.
pub proof fn lemma_map_of_distinct<K>(pairs: Seq<(K, u128)>)
    requires
        distinct_keys(pairs),
    ensures
        map_of(pairs).dom().finite(),
        map_of(pairs).dom().len() == pairs.len(),
        total(map_of(pairs)) == amounts_sum(pairs),
        forall|i: int|
            0 <= i < pairs.len() ==> map_of(pairs).dom().contains((#[trigger] pairs[i]).0)
                && map_of(pairs)[pairs[i].0] == pairs[i].1,
    decreases pairs.len(),
{
    if pairs.len() == 0 {
        lemma_total_empty::<K>();
    } else {
        let front = pairs.drop_last();
        let last = pairs.last();
        assert forall|i: int, j: int| 0 <= i < j < front.len() implies (#[trigger] front[i]).0 != (
        #[trigger] front[j]).0 by {
            assert(pairs[i].0 != pairs[j].0);
        }
        lemma_map_of_distinct(front);
        lemma_map_of_keys(front);
        assert(!map_of(front).dom().contains(last.0)) by {
            if map_of(front).dom().contains(last.0) {
                let i = choose|i: int| 0 <= i < front.len() && (#[trigger] front[i]).0 == last.0;
                assert(pairs[i].0 != pairs[pairs.len() - 1].0);
            }
        }
        lemma_total_insert(map_of(front), last.0, last.1);
        assert forall|i: int| 0 <= i < pairs.len() implies map_of(pairs).dom().contains(
            (#[trigger] pairs[i]).0,
        ) && map_of(pairs)[pairs[i].0] == pairs[i].1 by {
            if i < front.len() {
                assert(front[i].0 != last.0) by {
                    assert(pairs[i].0 != pairs[pairs.len() - 1].0);
                }
                assert(map_of(front)[front[i].0] == front[i].1);
            }
        }
    }
}

/// The amounts of a prefix sum to no more than the amounts of the whole.
pub proof fn lemma_amounts_sum_prefix<K>(pairs: Seq<(K, u128)>, n: int)
    requires
        0 <= n <= pairs.len(),
    ensures
        amounts_sum(pairs.take(n)) <= amounts_sum(pairs),
    decreases pairs.len(),
{
    if n == pairs.len() {
        assert(pairs.take(n) =~= pairs);
    } else {
        lemma_amounts_sum_prefix(pairs.drop_last(), n);
        assert(pairs.drop_last().take(n) =~= pairs.take(n));
    }
}

/// A list that holds the entries of `m` gives `m` back.
pub proof fn lemma_lists_gives_map<K>(pairs: Seq<(K, u128)>, m: Map<K, u128>)
    requires
        lists(pairs, m),
    ensures
        map_of(pairs) == m,
{
    lemma_map_of_distinct(pairs);
    lemma_map_of_keys(pairs);
    assert forall|k: K| map_of(pairs).dom().contains(k) implies #[trigger] m.dom().contains(k)
        && map_of(pairs)[k] == m[k] by {
        let i = choose|i: int| 0 <= i < pairs.len() && (#[trigger] pairs[i]).0 == k;
        assert(m.dom().contains(pairs[i].0));
    }
    assert forall|k: K| m.dom().contains(k) implies #[trigger] map_of(pairs).dom().contains(k) by {
        let i = choose|i: int| 0 <= i < pairs.len() && (#[trigger] pairs[i]).0 == k;
    }
    assert(map_of(pairs) =~= m);
}

} // verus!
