//! The data the engine works over: polls, their options, the votes cast
//! against those options, and the error taxonomy the operations surface.

use vstd::prelude::*;

verus! {

/// Whether a voter may vote once per poll (`Single`) or once per option
/// (`Multiple`).
#[derive(Clone, Copy, PartialEq, Eq, Structural, Debug)]
pub enum PollType {
    Single,
    Multiple,
}

/// A voter's identity: a single network address, carried as its raw bits.
/// An IPv4 address occupies the low 32 bits with `is_v6` false.
#[derive(Clone, Copy, PartialEq, Eq, Structural, Debug, Hash)]
pub struct IpAddress {
    pub is_v6: bool,
    pub bits: u128,
}

/// A poll row. Timestamps are seconds since the Unix epoch.
///
/// `timeout_at` is the voting cutoff (informational; the vote check does
/// not consult it), `delete_at` the hard expiry honoured by the sweeper.
pub struct Poll {
    pub id: i64,
    pub title: String,
    pub poll_type: PollType,
    pub created_at: i64,
    pub timeout_at: i64,
    pub delete_at: i64,
}

/// One selectable choice, owned by exactly one poll and created only as
/// part of that poll's creation.
pub struct PollOption {
    pub id: i64,
    pub name: String,
    pub poll_id: i64,
}

/// A recorded vote: immutable once cast, removed only when its poll is
/// swept away.
#[derive(Clone, Copy, PartialEq, Eq, Structural, Debug)]
pub struct PollVote {
    pub id: i64,
    pub option_id: i64,
    pub ip_address: IpAddress,
    pub created_at: i64,
}

/// The per-option tally of one poll, as handed to result views and to
/// chart rendering.
pub struct PollCount {
    pub poll_id: i64,
    pub option_id: i64,
    pub option_name: String,
    pub count: usize,
}

/// Why a poll-creation request was rejected. Validation failures are
/// final: the request is never retried and nothing is persisted.
#[derive(Clone, Copy, PartialEq, Eq, Structural, Debug)]
pub enum ValidationError {
    EmptyTitle,
    TimeoutInPast,
    DeletePrecedesTimeout,
    TooFewOptions,
    TooManyOptions,
    EmptyOptionName,
    DuplicateOptionNames,
}

impl ValidationError {
    /// The human-readable reason reported to the caller.
    pub open spec fn spec_reason(self) -> Seq<char> {
        match self {
            ValidationError::EmptyTitle => "title is empty"@,
            ValidationError::TimeoutInPast => "timeout_at is in the past"@,
            ValidationError::DeletePrecedesTimeout => "delete_at is lower than timeout_at"@,
            ValidationError::TooFewOptions => "At least two poll options are required"@,
            ValidationError::TooManyOptions => "At most ten poll options are allowed"@,
            ValidationError::EmptyOptionName => "poll option is empty"@,
            ValidationError::DuplicateOptionNames => "poll options are not unique"@,
        }
    }

    pub fn reason(&self) -> (r: &'static str)
        ensures
            r@ == self.spec_reason(),
    {
        match self {
            ValidationError::EmptyTitle => "title is empty",
            ValidationError::TimeoutInPast => "timeout_at is in the past",
            ValidationError::DeletePrecedesTimeout => "delete_at is lower than timeout_at",
            ValidationError::TooFewOptions => "At least two poll options are required",
            ValidationError::TooManyOptions => "At most ten poll options are allowed",
            ValidationError::EmptyOptionName => "poll option is empty",
            ValidationError::DuplicateOptionNames => "poll options are not unique",
        }
    }
}

/// Why a vote was not recorded. `NoSuchOption` is the not-found case,
/// distinct from the two eligibility conflicts.
#[derive(Clone, Copy, PartialEq, Eq, Structural, Debug)]
pub enum VoteError {
    NoSuchOption,
    AlreadyVoted,
    MultipleVotesNotAllowed,
}

impl VoteError {
    /// The human-readable reason reported to the caller.
    pub open spec fn spec_reason(self) -> Seq<char> {
        match self {
            VoteError::NoSuchOption => "no such poll option"@,
            VoteError::AlreadyVoted => "you have already voted for this option"@,
            VoteError::MultipleVotesNotAllowed => "poll does not allow multiple votes"@,
        }
    }

    pub fn reason(&self) -> (r: &'static str)
        ensures
            r@ == self.spec_reason(),
    {
        match self {
            VoteError::NoSuchOption => "no such poll option",
            VoteError::AlreadyVoted => "you have already voted for this option",
            VoteError::MultipleVotesNotAllowed => "poll does not allow multiple votes",
        }
    }
}

} // verus!
