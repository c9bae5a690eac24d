//! The records of a market and of a bet, the instruction parameters, and the
//! errors of the protocol.
use vstd::prelude::*;

use crate::commitment::bytes32_eq;

verus! {

/// Longest question, in bytes of its UTF-8 encoding.
pub const MAX_QUESTION_LENGTH: usize = 256;

/// Reveal window used when none (or a non-positive one) is given: one day.
pub const DEFAULT_REVEAL_PERIOD: i64 = 86400;

/// The outcome byte of a NO bet.
pub const OUTCOME_NO: u8 = 0;

/// The outcome byte of a YES bet.
pub const OUTCOME_YES: u8 = 1;

/// An identity: the 32 bytes of a public key or a record's address.
#[derive(Clone, Copy, Debug, Eq)]
pub struct Pubkey {
    pub bytes: [u8; 32],
}

impl PartialEq for Pubkey {
    fn eq(&self, o: &Pubkey) -> (r: bool)
        ensures
            r == (self.bytes@ == o.bytes@),
    {
        bytes32_eq(&self.bytes, &o.bytes)
    }
}

impl vstd::std_specs::cmp::PartialEqSpecImpl for Pubkey {
    open spec fn obeys_eq_spec() -> bool {
        true
    }

    open spec fn eq_spec(&self, o: &Pubkey) -> bool {
        self.bytes@ == o.bytes@
    }
}

impl Pubkey {
    /// The identity with the given bytes.
    pub fn new(bytes: [u8; 32]) -> (r: Pubkey)
        ensures
            r.bytes == bytes,
    {
        Pubkey { bytes }
    }
}

/// Where a market stands in its lifecycle.
#[derive(Clone, Copy, PartialEq, Eq, Debug, Structural)]
pub enum MarketStatus {
    Open,
    Revealing,
    Resolved,
    Cancelled,
}

impl Default for MarketStatus {
    fn default() -> (r: MarketStatus)
        ensures
            r == MarketStatus::Open,
    {
        MarketStatus::Open
    }
}

/// The position of a status in the order `Open < Revealing < Resolved`;
/// `Cancelled` is only reachable from `Open` and ranks beside `Resolved`.
pub open spec fn status_rank(s: MarketStatus) -> int {
    match s {
        MarketStatus::Open => 0,
        MarketStatus::Revealing => 1,
        MarketStatus::Resolved => 2,
        MarketStatus::Cancelled => 2,
    }
}

/// Whether `b` is a valid outcome byte.
pub open spec fn valid_outcome(b: u8) -> bool {
    b == OUTCOME_NO || b == OUTCOME_YES
}

/// A market: its configuration, its temporal bounds, its status and pools.
#[derive(Clone, Debug)]
pub struct Market {
    pub creator: Pubkey,
    pub oracle: Pubkey,
    pub market_id: u64,
    pub question: String,
    pub deadline: i64,
    pub reveal_deadline: i64,
    pub status: MarketStatus,
    pub outcome: Option<u8>,
    pub total_pool: u64,
    pub yes_pool: u64,
    pub no_pool: u64,
    pub yes_count: u32,
    pub no_count: u32,
    pub created_at: i64,
    pub resolved_at: i64,
    pub bump: u8,
    pub vault_bump: u8,
}

impl Market {
    /// The invariant of a market that the operations keep: the staking
    /// deadline comes before the reveal deadline, and an outcome is set
    /// exactly when the market is resolved.
    pub open spec fn wf(&self) -> bool {
        &&& self.deadline < self.reveal_deadline
        &&& (self.status == MarketStatus::Resolved <==> self.outcome is Some)
        &&& (self.outcome matches Some(o) ==> valid_outcome(o))
    }

    /// Whether betting has closed at `current_time`.
    pub fn deadline_passed(&self, current_time: i64) -> (r: bool)
        ensures
            r == (current_time >= self.deadline),
    {
        current_time >= self.deadline
    }

    /// Whether the reveal window has closed at `current_time`.
    pub fn reveal_deadline_passed(&self, current_time: i64) -> (r: bool)
        ensures
            r == (current_time >= self.reveal_deadline),
    {
        current_time >= self.reveal_deadline
    }
}

/// One participant's hidden, later revealed, bet on one market.
#[derive(Clone, Copy, Debug)]
pub struct Commitment {
    pub market: Pubkey,
    pub user: Pubkey,
    pub commitment_hash: [u8; 32],
    pub amount: u64,
    pub revealed_outcome: Option<u8>,
    pub revealed_salt: Option<[u8; 32]>,
    pub is_revealed: bool,
    pub is_claimed: bool,
    pub committed_at: i64,
    pub revealed_at: i64,
    pub bump: u8,
}

impl Commitment {
    /// The invariant of a bet record: a positive stake, an outcome and salt
    /// exactly when revealed, and a claim only after a reveal.
    pub open spec fn wf(&self) -> bool {
        &&& self.amount > 0
        &&& (self.is_revealed <==> self.revealed_outcome is Some)
        &&& (self.is_revealed <==> self.revealed_salt is Some)
        &&& (self.revealed_outcome matches Some(o) ==> valid_outcome(o))
        &&& (self.is_claimed ==> self.is_revealed)
    }
}

/// What a new market is created with.
#[derive(Clone, Debug)]
pub struct CreateMarketParams {
    pub market_id: u64,
    pub question: String,
    pub deadline: i64,
    pub reveal_period: Option<i64>,
}

/// What a bet is committed with.
#[derive(Clone, Copy, Debug)]
pub struct CommitBetParams {
    pub commitment_hash: [u8; 32],
    pub amount: u64,
}

/// What a bet is revealed with.
#[derive(Clone, Copy, Debug)]
pub struct RevealBetParams {
    pub outcome: u8,
    pub salt: [u8; 32],
}

/// What a market is resolved with.
#[derive(Clone, Copy, Debug)]
pub struct ResolveMarketParams {
    pub outcome: u8,
}

/// Why an operation was refused. A refused operation changes nothing.
#[derive(Clone, Copy, PartialEq, Eq, Debug, Structural)]
pub enum EchoBetError {
    MarketNotExpired,
    MarketExpired,
    MarketAlreadyResolved,
    MarketNotResolved,
    RevealPeriodEnded,
    CommitmentMismatch,
    AlreadyRevealed,
    NotRevealed,
    ZeroBetAmount,
    DidNotWin,
    AlreadyClaimed,
    UnauthorizedResolver,
    InvalidSigner,
    QuestionTooLong,
    DeadlineInPast,
    InvalidOutcome,
    InvalidMarketId,
    Overflow,
    DivisionByZero,
    InsufficientPoolFunds,
    BetAlreadyCommitted,
    BetNotFound,
}

impl EchoBetError {
    /// The message that describes the error.
    pub fn message(&self) -> (r: &'static str) {
        match self {
            EchoBetError::MarketNotExpired => "Market deadline has not passed yet",
            EchoBetError::MarketExpired => "Market deadline has already passed",
            EchoBetError::MarketAlreadyResolved => "Market has already been resolved",
            EchoBetError::MarketNotResolved => "Market is not resolved yet",
            EchoBetError::RevealPeriodEnded => "Reveal period has ended",
            EchoBetError::CommitmentMismatch => "Commitment hash does not match",
            EchoBetError::AlreadyRevealed => "Bet has already been revealed",
            EchoBetError::NotRevealed => "Bet has not been revealed yet",
            EchoBetError::ZeroBetAmount => "Bet amount must be greater than zero",
            EchoBetError::DidNotWin => "User did not win",
            EchoBetError::AlreadyClaimed => "Winnings have already been claimed",
            EchoBetError::UnauthorizedResolver => "Unauthorized resolver",
            EchoBetError::InvalidSigner => "Invalid signer",
            EchoBetError::QuestionTooLong => "Question too long",
            EchoBetError::DeadlineInPast => "Deadline must be in the future",
            EchoBetError::InvalidOutcome => "Invalid outcome",
            EchoBetError::InvalidMarketId => "Invalid market ID",
            EchoBetError::Overflow => "Arithmetic overflow",
            EchoBetError::DivisionByZero => "Division by zero",
            EchoBetError::InsufficientPoolFunds => "Insufficient pool funds",
            EchoBetError::BetAlreadyCommitted => "Participant has already committed a bet",
            EchoBetError::BetNotFound => "Participant has no bet on this market",
        }
    }
}

} // verus!
