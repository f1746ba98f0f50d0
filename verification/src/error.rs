//! Why a call fails.

use vstd::prelude::*;

verus! {

/// `cosmwasm_std::StdError`, the error of the serialisation layer. It is
/// carried through as it is: nothing is known of what it holds.
#[verifier::external_type_specification]
#[verifier::external_body]
pub struct ExStdError(cosmwasm_std::StdError);

/// Why a call failed. A failed call has changed nothing and emits nothing.
#[derive(Debug)]
pub enum ContractError {
    /// The serialisation layer refused a value.
    Std(cosmwasm_std::StdError),
    /// Kept for callers that tell errors apart; no operation gives it.
    Unauthorized {},
    /// More was asked for than the escrow holds.
    InsufficientStake {},
    /// The caller has already voted since the last reset.
    AlreadyVoted {},
    /// The caller is not the recorded owner of the job.
    NotJobOwner {},
}

} // verus!
