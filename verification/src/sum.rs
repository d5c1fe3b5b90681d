use vstd::prelude::*;

verus! {

/// The sum of all values of a finite map.
pub open spec fn total<K>(m: Map<K, u128>) -> nat
    decreases m.dom().len(),
    when m.dom().finite()
{
    if m.dom().len() == 0 {
        0
    } else {
        let k = m.dom().choose();
        m[k] as nat + total(m.remove(k))
    }
}

/// What `m` holds under `k`, zero where it holds nothing.
pub open spec fn value_at<K>(m: Map<K, u128>, k: K) -> nat {
    if m.dom().contains(k) {
        m[k] as nat
    } else {
        0
    }
}

/// The empty map sums to zero.
pub proof fn lemma_total_empty<K>()
    ensures
        total(Map::<K, u128>::empty()) == 0,
{
    assert(Map::<K, u128>::empty().dom() =~= Set::<K>::empty());
}

/// The sum can be taken apart at any key, not only at the chosen one.
pub proof fn lemma_total_remove<K>(m: Map<K, u128>, k: K)
    requires
        m.dom().finite(),
        m.dom().contains(k),
    ensures
        total(m) == m[k] as nat + total(m.remove(k)),
    decreases m.dom().len(),
{
    let c = m.dom().choose();
    if c != k {
        lemma_total_remove(m.remove(c), k);
        lemma_total_remove(m.remove(k), c);
        assert(m.remove(c).remove(k) =~= m.remove(k).remove(c));
    }
}

/// Storing `v` under `k` changes the sum by the difference to what was there.
pub proof fn lemma_total_insert<K>(m: Map<K, u128>, k: K, v: u128)
    requires
        m.dom().finite(),
    ensures
        total(m.insert(k, v)) + value_at(m, k) == total(m) + v as nat,
{
    let n = m.insert(k, v);
    lemma_total_remove(n, k);
    if m.dom().contains(k) {
        lemma_total_remove(m, k);
        assert(n.remove(k) =~= m.remove(k));
    } else {
        assert(n.remove(k) =~= m);
    }
}

/// No single value exceeds the sum.
pub proof fn lemma_value_le_total<K>(m: Map<K, u128>, k: K)
    requires
        m.dom().finite(),
    ensures
        value_at(m, k) <= total(m),
{
    if m.dom().contains(k) {
        lemma_total_remove(m, k);
    }
}

} // verus!
