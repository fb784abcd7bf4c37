use vstd::prelude::*;

verus! {

/// Why an operation was refused. A refused operation changes no record.
#[derive(Clone, Copy, Debug, PartialEq, Eq, Structural)]
pub enum ErrorCode {
    /// The caller lacks the role, or the identity match, that the operation asks for.
    Unauthorized,
    /// This admin has already approved this proposal.
    AlreadyApproved,
    /// The voting window of the proposal has closed.
    VotingExpired,
    /// The voting window of the proposal is still open.
    VotingStillActive,
    /// The proposal has already left the pending state.
    AlreadyFinalized,
    /// The proposal is not in the state from which funds may be claimed.
    NotApproved,
    /// The vault holds less than the amount requested.
    InsufficientVaultBalance,
    /// A record already exists at the address derived for the new one.
    AccountAlreadyExists,
    /// No record exists at the address derived from the given seeds.
    AccountNotFound,
    /// The title is longer than the record can hold.
    TitleTooLong,
    /// The description is longer than the record can hold.
    DescriptionTooLong,
    /// The approval list of the proposal is full.
    TooManyApprovals,
    /// A counter would leave the range of its type.
    ArithmeticOverflow,
}

} // verus!
