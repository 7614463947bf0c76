//! The ways in which an operation is refused.

use vstd::prelude::*;

verus! {

/// Why an operation was refused. The first check that fails decides.
#[derive(Clone, Copy, Debug, PartialEq, Eq, Structural)]
pub enum StakingError {
    /// Malformed request, or a rule of the program is broken: amount too
    /// small, selection out of range, cap exceeded, wrong administrator.
    InvalidInstructionData,
    /// The stake record is already open.
    AccountAlreadyInitialized,
    /// A record that must be initialized is not.
    UninitializedAccount,
    /// The vault token account is not the one bound to this program.
    InvalidAccountData,
    /// A record is not owned by this program, or a stake not by the signer.
    IllegalOwner,
    /// An account that must sign did not.
    MissingRequiredSignature,
    /// A balance or counter would leave its range.
    InsufficientFunds,
    /// Fewer accounts were passed than the operation names.
    NotEnoughAccountKeys,
    /// The token program passed is not the token program.
    IncorrectProgramId,
    /// Account data is not the encoding of the record expected there.
    BorshIoError,
}

} // verus!
