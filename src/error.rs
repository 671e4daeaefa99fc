use vstd::prelude::*;

verus! {

/// Why a call failed. A failed call leaves the ledger as it was.
#[derive(Debug, Clone, Copy, PartialEq, Eq, Structural)]
pub enum ContractError {
    /// Reserved: the caller may not do this.
    Unauthorized,
    /// An argument is malformed (a participant index other than 0 or 1).
    InvalidInput,
    /// The challenge window of the registered state has not elapsed.
    NotReady,
    /// Reserved: the channel is already settled.
    Settled,
    /// The withdrawal signature is not the participant's.
    InvalidWithdrawal,
    /// A registration signature is not the participant's.
    InvalidSignature,
    /// The record or balance asked for does not exist.
    NotFound,
    /// A balance would exceed the range of the ledger's arithmetic.
    Overflow,
}

} // verus!
