//! Error taxonomy: program-level rule violations and host-level account or
//! transfer failures, kept apart as the two layers that report them.
use vstd::prelude::*;

verus! {

/// A rule of the crowdfunding state machine was violated.
#[derive(Clone, Copy, PartialEq, Eq, Structural, Debug)]
pub enum CrowdfundingError {
    /// The campaign has already been finalized.
    CampaignInactive,
    /// The campaign's deadline has passed.
    CampaignEnded,
    /// The campaign's deadline has not passed yet.
    CampaignNotEnded,
    /// No refunds while the campaign is still active.
    CampaignIsStillActive,
    /// The campaign met its goal, so its funds go to the creator, not back.
    CampaignSuccessful,
    /// This donation was refunded already.
    AlreadyRefunded,
    /// The caller does not own the named donation.
    InvalidDonor,
    /// A donation must move a positive amount.
    InvalidAmount,
    /// A counter or a funding total would wrap.
    ArithmeticOverflow,
    /// A campaign's goal must be positive.
    InvalidGoalAmount,
    /// A campaign's duration must be positive.
    InvalidDuration,
    /// A campaign may run for at most a year.
    DurationTooLong,
    /// The caller is not the campaign's creator.
    Unauthorized,
}

/// The host ledger refused an account operation before the program logic ran.
#[derive(Clone, Copy, PartialEq, Eq, Structural, Debug)]
pub enum LedgerError {
    /// A record already sits at the derived address.
    AlreadyInitialized,
    /// No record sits at the named address.
    AccountNotFound,
    /// The paying account holds less than the transfer needs.
    InsufficientFunds,
    /// No usable bump could be found for the requested seeds.
    DerivationFailed,
}

/// Everything an operation can fail with: a program rule or a host refusal.
#[derive(Clone, Copy, PartialEq, Eq, Structural, Debug)]
pub enum Error {
    Crowdfunding(CrowdfundingError),
    Ledger(LedgerError),
}

} // verus!
