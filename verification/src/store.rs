use vstd::prelude::*;
use crate::account::AccountId;
use crate::snapshot::{approval_pairs, holding_pairs, lists, Approvals, Holdings};

verus! {

/// The balances table: `ink_storage::collections::HashMap` from account
/// bytes to amounts.
///
/// The verifier does not look inside: what it knows of a table is what the
/// functions below state, and those statements are taken on trust from the
/// hash map's source. A value of this type is only ever made by
/// [`BalanceStore::new`] and changed by [`BalanceStore::insert`], so it is
/// never bound to contract storage and all of its entries live in memory.
#[verifier::external_body]
pub struct BalanceStore {
    inner: ink_storage::collections::HashMap<[u8; 32], u128>,
}

/// The entries that a balances table holds, keyed by the account's bytes.
pub uninterp spec fn balance_entries(store: BalanceStore) -> Map<Seq<u8>, u128>;

impl View for BalanceStore {
    type V = Map<Seq<u8>, u128>;

    open spec fn view(&self) -> Map<Seq<u8>, u128> {
        balance_entries(*self)
    }
}

impl BalanceStore {
    /// Calls `HashMap::new`. Trusted: the new table holds no entry.
    #[verifier::external_body]
    pub(crate) fn new() -> (store: BalanceStore)
        ensures
            balance_entries(store) == (Map::<Seq<u8>, u128>::empty()),
    {
        BalanceStore { inner: ink_storage::collections::HashMap::new() }
    }

    /// Calls `HashMap::len`. Trusted: it returns the number of entries.
    #[verifier::external_body]
    pub(crate) fn len(&self) -> (n: u32)
        requires
            balance_entries(*self).dom().finite(),
        ensures
            n == balance_entries(*self).dom().len(),
    {
        self.inner.len()
    }

    /// Calls `HashMap::get` and copies what it finds. Trusted: it finds the
    /// amount stored under `who`, and nothing where `who` has no entry.
    #[verifier::external_body]
    pub(crate) fn get(&self, who: &AccountId) -> (found: Option<u128>)
        ensures
            found == (if balance_entries(*self).dom().contains(who@) {
                Some(balance_entries(*self)[who@])
            } else {
                None
            }),
    {
        self.inner.get(&who.bytes).copied()
    }

    /// Calls `HashMap::insert`. Trusted: it stores `amount` under `who`, in
    /// place of what was stored there, leaves every other entry alone, and
    /// returns what was stored there. The hash map counts its entries in a
    /// `u32`, so a new entry needs the count below `u32::MAX`.
    #[verifier::external_body]
    pub(crate) fn insert(&mut self, who: &AccountId, amount: u128) -> (before: Option<u128>)
        requires
            balance_entries(*old(self)).dom().contains(who@) || (balance_entries(
                *old(self),
            ).dom().finite() && balance_entries(*old(self)).dom().len() < u32::MAX),
        ensures
            balance_entries(*final(self)) == balance_entries(*old(self)).insert(who@, amount),
            before == (if balance_entries(*old(self)).dom().contains(who@) {
                Some(balance_entries(*old(self))[who@])
            } else {
                None
            }),
    {
        self.inner.insert(who.bytes, amount)
    }

    /// Walks `HashMap::iter` and copies each item. Trusted: the walk yields
    /// every entry exactly once; nothing is claimed of the order.
    #[verifier::external_body]
    pub(crate) fn entries(&self) -> (list: Holdings)
        ensures
            lists(holding_pairs(list@), balance_entries(*self)),
    {
        self.inner.iter().map(|(who, amount)| (AccountId::new(*who), *amount)).collect()
    }
}

/// The allowances table: `ink_storage::collections::HashMap` from the bytes
/// of an (owner, spender) pair to the amount that the owner allows the
/// spender.
///
/// As with [`BalanceStore`], the verifier does not look inside, and the
/// statements below are taken on trust from the hash map's source. A value
/// of this type is only ever made by [`AllowanceStore::new`] and changed by
/// [`AllowanceStore::insert`], so all of its entries live in memory.
#[verifier::external_body]
pub struct AllowanceStore {
    inner: ink_storage::collections::HashMap<([u8; 32], [u8; 32]), u128>,
}

/// The entries that an allowances table holds, keyed by the bytes of owner
/// and spender, in this order.
pub uninterp spec fn allowance_entries(store: AllowanceStore) -> Map<(Seq<u8>, Seq<u8>), u128>;

impl View for AllowanceStore {
    type V = Map<(Seq<u8>, Seq<u8>), u128>;

    open spec fn view(&self) -> Map<(Seq<u8>, Seq<u8>), u128> {
        allowance_entries(*self)
    }
}

impl AllowanceStore {
    /// Calls `HashMap::new`. Trusted: the new table holds no entry.
    #[verifier::external_body]
    pub(crate) fn new() -> (store: AllowanceStore)
        ensures
            allowance_entries(store) == (Map::<(Seq<u8>, Seq<u8>), u128>::empty()),
    {
        AllowanceStore { inner: ink_storage::collections::HashMap::new() }
    }

    /// Calls `HashMap::len`. Trusted: it returns the number of entries.
    #[verifier::external_body]
    pub(crate) fn len(&self) -> (n: u32)
        requires
            allowance_entries(*self).dom().finite(),
        ensures
            n == allowance_entries(*self).dom().len(),
    {
        self.inner.len()
    }

    /// Calls `HashMap::get` and copies what it finds. Trusted: it finds the
    /// amount stored under the pair, and nothing where the pair has no entry.
    #[verifier::external_body]
    pub(crate) fn get(&self, owner: &AccountId, spender: &AccountId) -> (found: Option<u128>)
        ensures
            found == (if allowance_entries(*self).dom().contains((owner@, spender@)) {
                Some(allowance_entries(*self)[(owner@, spender@)])
            } else {
                None
            }),
    {
        self.inner.get(&(owner.bytes, spender.bytes)).copied()
    }

    /// Calls `HashMap::insert`. Trusted: it stores `amount` under the pair,
    /// in place of what was stored there, leaves every other entry alone, and
    /// returns what was stored there. The hash map counts its entries in a
    /// `u32`, so a new entry needs the count below `u32::MAX`.
    #[verifier::external_body]
    pub(crate) fn insert(
        &mut self,
        owner: &AccountId,
        spender: &AccountId,
        amount: u128,
    ) -> (before: Option<u128>)
        requires
            allowance_entries(*old(self)).dom().contains((owner@, spender@)) || (allowance_entries(
                *old(self),
            ).dom().finite() && allowance_entries(*old(self)).dom().len() < u32::MAX),
        ensures
            allowance_entries(*final(self)) == allowance_entries(*old(self)).insert(
                (owner@, spender@),
                amount,
            ),
            before == (if allowance_entries(*old(self)).dom().contains((owner@, spender@)) {
                Some(allowance_entries(*old(self))[(owner@, spender@)])
            } else {
                None
            }),
    {
        self.inner.insert((owner.bytes, spender.bytes), amount)
    }

    /// Walks `HashMap::iter` and copies each item. Trusted: the walk yields
    /// every entry exactly once; nothing is claimed of the order.
    #[verifier::external_body]
    pub(crate) fn entries(&self) -> (list: Approvals)
        ensures
            lists(approval_pairs(list@), allowance_entries(*self)),
    {
        self.inner.iter().map(
            |(pair, amount)| (AccountId::new(pair.0), AccountId::new(pair.1), *amount),
        ).collect()
    }
}

} // verus!
