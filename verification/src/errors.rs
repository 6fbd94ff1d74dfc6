use vstd::prelude::*;

verus! {

/// The ways an operation on the ledger can fail. Every failure aborts the
/// whole operation; apart from the one documented non-atomicity in
/// `close_bet`, no state is changed on an error.
#[derive(Clone, Copy, Debug, PartialEq, Eq, Structural)]
pub enum ContractError {
    /// The caller is not the owner on an owner-gated operation.
    Unauthorized,
    /// A debit amount is not strictly less than the current balance.
    InsufficientBalance,
    /// A referenced price, bet, or balance entry does not exist.
    NotFound,
    /// A token kind outside the two known denominations.
    InvalidInput,
}

} // verus!
