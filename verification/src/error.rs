use vstd::prelude::*;

verus! {

/// Why a ledger operation was rejected.
#[derive(Debug, Clone, Copy, PartialEq, Eq, Structural)]
pub enum Error {
    /// The amount to move is larger than what the source account holds.
    InsufficientBalance,
    /// The amount to move is larger than what the owner has allowed the spender.
    InsufficientApproval,
}

} // verus!
