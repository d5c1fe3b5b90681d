use vstd::prelude::*;
use crate::account::AccountId;
use crate::error::Error;
use crate::event::{Approval, Event, Transfer, TransferFrom};
use crate::ledger::lemma_move_conserves;
use crate::model::TokenState;
use crate::snapshot::{
    approval_pairs, holding_pairs, lemma_lists_gives_map, lemma_map_of_distinct, lists,
    restorable_approvals, restorable_holdings,
};
use crate::sum::{lemma_total_empty, lemma_total_insert, lemma_value_le_total, total};

verus! {

/// In a valid state the total supply is the sum of all balances, and no
/// single balance exceeds it.
pub proof fn law_supply_is_sum_of_balances(state: TokenState, who: AccountId)
    requires
        state.valid(),
    ensures
        state.total_supply() == total(state.books.balances),
        state.balance_of(who@) <= state.total_supply(),
{
    lemma_value_le_total(state.books.balances, who@);
}

/// Construction gives a valid state: the deployer holds the whole supply,
/// every other account holds nothing, nothing is allowed, and the log holds
/// the issuance and nothing else.
pub proof fn law_new(deployer: AccountId, supply: u128, other: AccountId, spender: AccountId)
    ensures
        TokenState::issued(deployer, supply).valid(),
        TokenState::issued(deployer, supply).total_supply() == supply,
        TokenState::issued(deployer, supply).balance_of(deployer@) == supply,
        other@ != deployer@ ==> TokenState::issued(deployer, supply).balance_of(other@) == 0,
        TokenState::issued(deployer, supply).allowance(other@, spender@) == 0,
        TokenState::issued(deployer, supply).events == seq![
            Event::Transfer(Transfer { from: None, to: Some(deployer), value: supply }),
        ],
{
    lemma_total_empty::<Seq<u8>>();
    lemma_total_insert(Map::<Seq<u8>, u128>::empty(), deployer@, supply);
}

/// An approval keeps a valid state valid, and touches neither supply nor
/// balances.
pub proof fn law_approve_keeps_valid(
    state: TokenState,
    owner: AccountId,
    spender: AccountId,
    value: u128,
)
    requires
        state.valid(),
    ensures
        state.after_approve(owner, spender, value).valid(),
        state.after_approve(owner, spender, value).books == state.books,
{
}

/// A transfer keeps a valid state valid and the total supply as it is,
/// whether it succeeds or fails.
pub proof fn law_transfer_keeps_valid(
    state: TokenState,
    from: AccountId,
    to: AccountId,
    value: u128,
)
    requires
        state.valid(),
    ensures
        state.after_transfer(from, to, value).valid(),
        state.after_transfer(from, to, value).total_supply() == state.total_supply(),
{
    lemma_move_conserves(state.books, from@, to@, value);
}

/// A delegated transfer keeps a valid state valid and the total supply as it
/// is, whether it succeeds or fails.
pub proof fn law_transfer_from_keeps_valid(
    state: TokenState,
    caller: AccountId,
    from: AccountId,
    to: AccountId,
    value: u128,
)
    requires
        state.valid(),
    ensures
        state.after_transfer_from(caller, from, to, value).valid(),
        state.after_transfer_from(caller, from, to, value).total_supply() == state.total_supply(),
{
    lemma_move_conserves(state.books, from@, to@, value);
}

/// A transfer that the sender can afford, to another account, lowers the
/// sender's balance by the value, raises the receiver's by the value, leaves
/// every other balance and every allowance alone, and logs one event.
pub proof fn law_transfer_moves_value(
    state: TokenState,
    from: AccountId,
    to: AccountId,
    value: u128,
    other: AccountId,
)
    requires
        state.valid(),
        state.balance_of(from@) >= value,
        from@ != to@,
    ensures
        state.transfer_result(from, value) == Ok::<(), Error>(()),
        state.after_transfer(from, to, value).balance_of(from@) == state.balance_of(from@) - value,
        state.after_transfer(from, to, value).balance_of(to@) == state.balance_of(to@) + value,
        other@ != from@ && other@ != to@ ==> state.after_transfer(from, to, value).balance_of(other@)
            == state.balance_of(other@),
        state.after_transfer(from, to, value).allowances == state.allowances,
        state.after_transfer(from, to, value).events == state.events.push(
            Event::Transfer(Transfer { from: Some(from), to: Some(to), value }),
        ),
{
    lemma_move_conserves(state.books, from@, to@, value);
}

/// A transfer that the sender can afford, to the sender itself, leaves every
/// balance as it is and still logs its event.
pub proof fn law_transfer_to_self(state: TokenState, who: AccountId, value: u128, other: AccountId)
    requires
        state.valid(),
        state.balance_of(who@) >= value,
    ensures
        state.transfer_result(who, value) == Ok::<(), Error>(()),
        state.after_transfer(who, who, value).balance_of(other@) == state.balance_of(other@),
        state.after_transfer(who, who, value).events == state.events.push(
            Event::Transfer(Transfer { from: Some(who), to: Some(who), value }),
        ),
{
    lemma_move_conserves(state.books, who@, who@, value);
}

/// A transfer that the sender cannot afford fails with
/// `InsufficientBalance` and changes nothing: no balance, no event.
pub proof fn law_transfer_insufficient_balance(
    state: TokenState,
    from: AccountId,
    to: AccountId,
    value: u128,
)
    requires
        state.balance_of(from@) < value,
    ensures
        state.transfer_result(from, value) == Err::<(), Error>(Error::InsufficientBalance),
        state.after_transfer(from, to, value) == state,
{
}

/// Approving twice leaves the second value: an approval overwrites, it does
/// not add.
pub proof fn law_approve_overwrites(
    state: TokenState,
    owner: AccountId,
    spender: AccountId,
    first: u128,
    second: u128,
)
    ensures
        state.after_approve(owner, spender, first).allowance(owner@, spender@) == first,
        state.after_approve(owner, spender, first).after_approve(owner, spender, second).allowance(
            owner@,
            spender@,
        ) == second,
{
}

/// An approval changes the allowance of its own pair only; the reversed
/// pair is another pair.
pub proof fn law_approve_is_per_pair(
    state: TokenState,
    owner: AccountId,
    spender: AccountId,
    value: u128,
    other_owner: AccountId,
    other_spender: AccountId,
)
    requires
        !(other_owner@ == owner@ && other_spender@ == spender@),
    ensures
        state.after_approve(owner, spender, value).allowance(other_owner@, other_spender@)
            == state.allowance(other_owner@, other_spender@),
{
}

/// A delegated transfer beyond the allowance fails with
/// `InsufficientApproval` and changes nothing, whatever the owner holds.
pub proof fn law_transfer_from_insufficient_approval(
    state: TokenState,
    caller: AccountId,
    from: AccountId,
    to: AccountId,
    value: u128,
)
    requires
        state.allowance(from@, caller@) < value,
    ensures
        state.transfer_from_result(caller, from, value) == Err::<(), Error>(
            Error::InsufficientApproval,
        ),
        state.after_transfer_from(caller, from, to, value) == state,
{
}

/// A delegated transfer within the allowance but beyond the owner's balance
/// fails with `InsufficientBalance` and changes nothing: the allowance is
/// not reduced.
pub proof fn law_transfer_from_insufficient_balance(
    state: TokenState,
    caller: AccountId,
    from: AccountId,
    to: AccountId,
    value: u128,
)
    requires
        state.allowance(from@, caller@) >= value,
        state.balance_of(from@) < value,
    ensures
        state.transfer_from_result(caller, from, value) == Err::<(), Error>(
            Error::InsufficientBalance,
        ),
        state.after_transfer_from(caller, from, to, value) == state,
        state.after_transfer_from(caller, from, to, value).allowance(from@, caller@)
            == state.allowance(from@, caller@),
{
}

/// A delegated transfer within allowance and balance moves the value as a
/// transfer does, reduces the allowance by the value, and logs the transfer,
/// the delegated transfer and the new allowance, in this order.
pub proof fn law_transfer_from_spends_allowance(
    state: TokenState,
    caller: AccountId,
    from: AccountId,
    to: AccountId,
    value: u128,
)
    requires
        state.valid(),
        state.allowance(from@, caller@) >= value,
        state.balance_of(from@) >= value,
    ensures
        state.transfer_from_result(caller, from, value) == Ok::<(), Error>(()),
        state.after_transfer_from(caller, from, to, value).books == state.after_transfer(
            from,
            to,
            value,
        ).books,
        state.after_transfer_from(caller, from, to, value).allowance(from@, caller@)
            == state.allowance(from@, caller@) - value,
        state.after_transfer_from(caller, from, to, value).events == state.events.push(
            Event::Transfer(Transfer { from: Some(from), to: Some(to), value }),
        ).push(
            Event::TransferFrom(
                TransferFrom { spender: Some(caller), from: Some(from), to: Some(to), value },
            ),
        ).push(
            Event::Approval(
                Approval {
                    owner: from,
                    spender: caller,
                    value: (state.allowance(from@, caller@) - value) as u128,
                },
            ),
        ),
{
}

/// What was taken out of a valid state can be restored, and gives the same
/// supply, balances and allowances back, as long as neither table holds
/// more entries than it can index.
pub proof fn law_restore_gives_back(
    state: TokenState,
    holdings: Seq<(AccountId, u128)>,
    approvals: Seq<(AccountId, AccountId, u128)>,
)
    requires
        state.valid(),
        lists(holding_pairs(holdings), state.books.balances),
        lists(approval_pairs(approvals), state.allowances),
        holdings.len() <= u32::MAX,
        approvals.len() <= u32::MAX,
    ensures
        restorable_holdings(state.books.total_supply, holdings),
        restorable_approvals(approvals),
        TokenState::restored(state.books.total_supply, holdings, approvals).books == state.books,
        TokenState::restored(state.books.total_supply, holdings, approvals).allowances
            == state.allowances,
{
    lemma_lists_gives_map(holding_pairs(holdings), state.books.balances);
    lemma_lists_gives_map(approval_pairs(approvals), state.allowances);
    lemma_map_of_distinct(holding_pairs(holdings));
}

/// A restored state is valid.
pub proof fn law_restored_is_valid(
    total_supply: u128,
    holdings: Seq<(AccountId, u128)>,
    approvals: Seq<(AccountId, AccountId, u128)>,
)
    requires
        restorable_holdings(total_supply, holdings),
        restorable_approvals(approvals),
    ensures
        TokenState::restored(total_supply, holdings, approvals).valid(),
{
    lemma_map_of_distinct(holding_pairs(holdings));
    lemma_map_of_distinct(approval_pairs(approvals));
}

} // verus!
