//! The five operations of a market: create, commit, reveal, resolve and
//! claim. Each is a transition over the records that it names, decided
//! against a clock reading taken once by the caller; a refused operation
//! leaves every record as it was.
use vstd::prelude::*;

use crate::commitment::{compute_commitment_hash, bytes32_eq, opens_to};
use crate::settlement::{compute_payout, payout_of};
use crate::state::{
    CommitBetParams,
    Commitment,
    CreateMarketParams,
    EchoBetError,
    Market,
    MarketStatus,
    Pubkey,
    ResolveMarketParams,
    RevealBetParams,
    DEFAULT_REVEAL_PERIOD,
    MAX_QUESTION_LENGTH,
    OUTCOME_NO,
    OUTCOME_YES,
    status_rank,
    valid_outcome,
};

verus! {

/// Who creates a market, who may resolve it, when, and the seeds of the
/// market's and its vault's addresses.
#[derive(Clone, Copy, Debug)]
pub struct CreateMarket {
    pub creator: Pubkey,
    pub oracle: Pubkey,
    pub current_time: i64,
    pub bump: u8,
    pub vault_bump: u8,
}

/// Who commits a bet, to which market (by address), when, and the seed of
/// the bet record's address.
#[derive(Clone, Copy, Debug)]
pub struct CommitBet {
    pub user: Pubkey,
    pub market_key: Pubkey,
    pub current_time: i64,
    pub bump: u8,
}

/// Who reveals a bet, on which market (by address), and when.
#[derive(Clone, Copy, Debug)]
pub struct RevealBet {
    pub user: Pubkey,
    pub market_key: Pubkey,
    pub current_time: i64,
}

/// Who resolves a market, and when.
#[derive(Clone, Copy, Debug)]
pub struct ResolveMarket {
    pub resolver: Pubkey,
    pub current_time: i64,
}

/// Who claims, on which market (by address), and what the market's vault
/// holds.
#[derive(Clone, Copy, Debug)]
pub struct ClaimWinnings {
    pub user: Pubkey,
    pub market_key: Pubkey,
    pub vault_balance: u64,
}

/// The length of a question: the bytes of its UTF-8 encoding, as `str::len`
/// reports it.
pub open spec fn question_len(q: Seq<char>) -> usize {
    vstd::utf8::encode_utf8(q).len() as usize
}

/// The reveal window: the one given if it is positive, else one day.
pub open spec fn effective_reveal_period(p: Option<i64>) -> int {
    match p {
        Some(x) => if x > 0 {
            x as int
        } else {
            DEFAULT_REVEAL_PERIOD as int
        },
        None => DEFAULT_REVEAL_PERIOD as int,
    }
}

/// Why creating a market is refused, if it is.
pub open spec fn create_error(ctx: CreateMarket, params: CreateMarketParams) -> Option<EchoBetError> {
    if question_len(params.question@) > MAX_QUESTION_LENGTH {
        Some(EchoBetError::QuestionTooLong)
    } else if params.deadline <= ctx.current_time {
        Some(EchoBetError::DeadlineInPast)
    } else if params.deadline + effective_reveal_period(params.reveal_period) > i64::MAX {
        Some(EchoBetError::Overflow)
    } else {
        None
    }
}

/// The market that a successful creation makes: open, with empty pools.
pub open spec fn created_market(ctx: CreateMarket, params: CreateMarketParams) -> Market {
    Market {
        creator: ctx.creator,
        oracle: ctx.oracle,
        market_id: params.market_id,
        question: params.question,
        deadline: params.deadline,
        reveal_deadline: (params.deadline + effective_reveal_period(params.reveal_period)) as i64,
        status: MarketStatus::Open,
        outcome: None,
        total_pool: 0,
        yes_pool: 0,
        no_pool: 0,
        yes_count: 0,
        no_count: 0,
        created_at: ctx.current_time,
        resolved_at: 0,
        bump: ctx.bump,
        vault_bump: ctx.vault_bump,
    }
}

/// Creates a market whose betting closes at `params.deadline` and whose
/// reveal window closes one reveal period later.
pub fn create_market(ctx: &CreateMarket, params: CreateMarketParams) -> (r: Result<Market, EchoBetError>)
    ensures
        match r {
            Ok(m) => create_error(*ctx, params) is None && m == created_market(*ctx, params)
                && m.wf(),
            Err(e) => create_error(*ctx, params) == Some(e),
        },
{
    if params.question.as_str().len() > MAX_QUESTION_LENGTH {
        return Err(EchoBetError::QuestionTooLong);
    }
    if params.deadline <= ctx.current_time {
        return Err(EchoBetError::DeadlineInPast);
    }
    let reveal_period: i64 = match params.reveal_period {
        Some(p) => if p > 0 {
            p
        } else {
            DEFAULT_REVEAL_PERIOD
        },
        None => DEFAULT_REVEAL_PERIOD,
    };
    if params.deadline > i64::MAX - reveal_period {
        return Err(EchoBetError::Overflow);
    }
    let reveal_deadline: i64 = params.deadline + reveal_period;
    Ok(
        Market {
            creator: ctx.creator,
            oracle: ctx.oracle,
            market_id: params.market_id,
            question: params.question,
            deadline: params.deadline,
            reveal_deadline,
            status: MarketStatus::Open,
            outcome: None,
            total_pool: 0,
            yes_pool: 0,
            no_pool: 0,
            yes_count: 0,
            no_count: 0,
            created_at: ctx.current_time,
            resolved_at: 0,
            bump: ctx.bump,
            vault_bump: ctx.vault_bump,
        },
    )
}

/// Why committing a bet is refused, if it is.
pub open spec fn commit_error(ctx: CommitBet, m: Market, params: CommitBetParams) -> Option<EchoBetError> {
    if m.status != MarketStatus::Open {
        Some(EchoBetError::MarketExpired)
    } else if ctx.current_time >= m.deadline {
        Some(EchoBetError::MarketExpired)
    } else if params.amount == 0 {
        Some(EchoBetError::ZeroBetAmount)
    } else if m.total_pool + params.amount > u64::MAX {
        Some(EchoBetError::Overflow)
    } else {
        None
    }
}

/// The market after a stake of `amount` is committed to it.
pub open spec fn committed_market(m: Market, amount: u64) -> Market {
    Market { total_pool: (m.total_pool + amount) as u64, ..m }
}

/// The bet record that a successful commit makes: hidden and unclaimed.
pub open spec fn new_commitment(ctx: CommitBet, params: CommitBetParams) -> Commitment {
    Commitment {
        market: ctx.market_key,
        user: ctx.user,
        commitment_hash: params.commitment_hash,
        amount: params.amount,
        revealed_outcome: None,
        revealed_salt: None,
        is_revealed: false,
        is_claimed: false,
        committed_at: ctx.current_time,
        revealed_at: 0,
        bump: ctx.bump,
    }
}

/// Commits a hidden bet of `params.amount` to an open market before its
/// deadline. On success the caller moves the stake into the market's vault
/// and stores the returned record under (market, participant).
pub fn commit_bet(ctx: &CommitBet, market: &mut Market, params: CommitBetParams) -> (r: Result<
    Commitment,
    EchoBetError,
>)
    ensures
        match r {
            Ok(c) => commit_error(*ctx, *old(market), params) is None && *final(market)
                == committed_market(*old(market), params.amount) && c == new_commitment(
                *ctx,
                params,
            ) && c.wf(),
            Err(e) => commit_error(*ctx, *old(market), params) == Some(e) && *final(market)
                == *old(market),
        },
        old(market).wf() ==> final(market).wf(),
{
    if market.status != MarketStatus::Open {
        return Err(EchoBetError::MarketExpired);
    }
    if market.deadline_passed(ctx.current_time) {
        return Err(EchoBetError::MarketExpired);
    }
    if params.amount == 0 {
        return Err(EchoBetError::ZeroBetAmount);
    }
    if market.total_pool > u64::MAX - params.amount {
        return Err(EchoBetError::Overflow);
    }
    market.total_pool = market.total_pool + params.amount;
    Ok(
        Commitment {
            market: ctx.market_key,
            user: ctx.user,
            commitment_hash: params.commitment_hash,
            amount: params.amount,
            revealed_outcome: None,
            revealed_salt: None,
            is_revealed: false,
            is_claimed: false,
            committed_at: ctx.current_time,
            revealed_at: 0,
            bump: ctx.bump,
        },
    )
}

/// Why revealing bet `c` is refused, if it is; `opened` says whether its
/// hash opens to its stake, the claimed outcome and the salt.
pub open spec fn reveal_error(
    ctx: RevealBet,
    m: Market,
    c: Commitment,
    params: RevealBetParams,
    opened: bool,
) -> Option<EchoBetError> {
    if m.status != MarketStatus::Open && m.status != MarketStatus::Revealing {
        Some(EchoBetError::MarketAlreadyResolved)
    } else if c.user.bytes@ != ctx.user.bytes@ {
        Some(EchoBetError::InvalidSigner)
    } else if c.market.bytes@ != ctx.market_key.bytes@ {
        Some(EchoBetError::InvalidMarketId)
    } else if c.is_revealed {
        Some(EchoBetError::AlreadyRevealed)
    } else if ctx.current_time < m.deadline {
        Some(EchoBetError::MarketNotExpired)
    } else if ctx.current_time >= m.reveal_deadline {
        Some(EchoBetError::RevealPeriodEnded)
    } else if !valid_outcome(params.outcome) {
        Some(EchoBetError::InvalidOutcome)
    } else if !opened {
        Some(EchoBetError::CommitmentMismatch)
    } else if params.outcome == OUTCOME_YES && (m.yes_pool + c.amount > u64::MAX
        || m.yes_count + 1 > u32::MAX) {
        Some(EchoBetError::Overflow)
    } else if params.outcome == OUTCOME_NO && (m.no_pool + c.amount > u64::MAX || m.no_count
        + 1 > u32::MAX) {
        Some(EchoBetError::Overflow)
    } else {
        None
    }
}

/// The market after a stake of `amount` is revealed on `outcome`: the
/// first reveal moves it to `Revealing`, and the stake joins its side.
pub open spec fn revealed_market(m: Market, amount: u64, outcome: u8) -> Market {
    Market {
        status: if m.status == MarketStatus::Open {
            MarketStatus::Revealing
        } else {
            m.status
        },
        yes_pool: if outcome == OUTCOME_YES {
            (m.yes_pool + amount) as u64
        } else {
            m.yes_pool
        },
        yes_count: if outcome == OUTCOME_YES {
            (m.yes_count + 1) as u32
        } else {
            m.yes_count
        },
        no_pool: if outcome == OUTCOME_NO {
            (m.no_pool + amount) as u64
        } else {
            m.no_pool
        },
        no_count: if outcome == OUTCOME_NO {
            (m.no_count + 1) as u32
        } else {
            m.no_count
        },
        ..m
    }
}

/// The bet record after it is opened with `params` at `now`.
pub open spec fn revealed_commitment(c: Commitment, params: RevealBetParams, now: i64) -> Commitment {
    Commitment {
        revealed_outcome: Some(params.outcome),
        revealed_salt: Some(params.salt),
        is_revealed: true,
        revealed_at: now,
        ..c
    }
}

/// Reveals bet `commitment` given the hash recomputed from its stake and
/// `params`: every guard of a reveal is checked, the recomputed hash must be
/// the committed one, and then the stake joins its side of the market.
pub fn apply_reveal(
    ctx: &RevealBet,
    market: &mut Market,
    commitment: &mut Commitment,
    params: RevealBetParams,
    computed_hash: &[u8; 32],
) -> (r: Result<(), EchoBetError>)
    ensures
        match r {
            Ok(()) => reveal_error(
                *ctx,
                *old(market),
                *old(commitment),
                params,
                old(commitment).commitment_hash@ == computed_hash@,
            ) is None && *final(market) == revealed_market(
                *old(market),
                old(commitment).amount,
                params.outcome,
            ) && *final(commitment) == revealed_commitment(
                *old(commitment),
                params,
                ctx.current_time,
            ),
            Err(e) => reveal_error(
                *ctx,
                *old(market),
                *old(commitment),
                params,
                old(commitment).commitment_hash@ == computed_hash@,
            ) == Some(e) && *final(market) == *old(market) && *final(commitment) == *old(commitment),
        },
        old(market).wf() ==> final(market).wf(),
        old(commitment).wf() ==> final(commitment).wf(),
{
    if market.status != MarketStatus::Open && market.status != MarketStatus::Revealing {
        return Err(EchoBetError::MarketAlreadyResolved);
    }
    if commitment.user != ctx.user {
        return Err(EchoBetError::InvalidSigner);
    }
    if commitment.market != ctx.market_key {
        return Err(EchoBetError::InvalidMarketId);
    }
    if commitment.is_revealed {
        return Err(EchoBetError::AlreadyRevealed);
    }
    if !market.deadline_passed(ctx.current_time) {
        return Err(EchoBetError::MarketNotExpired);
    }
    if market.reveal_deadline_passed(ctx.current_time) {
        return Err(EchoBetError::RevealPeriodEnded);
    }
    if params.outcome != OUTCOME_NO && params.outcome != OUTCOME_YES {
        return Err(EchoBetError::InvalidOutcome);
    }
    if !bytes32_eq(&commitment.commitment_hash, computed_hash) {
        return Err(EchoBetError::CommitmentMismatch);
    }
    let amount = commitment.amount;
    if params.outcome == OUTCOME_YES {
        if market.yes_pool > u64::MAX - amount || market.yes_count == u32::MAX {
            return Err(EchoBetError::Overflow);
        }
    } else {
        if market.no_pool > u64::MAX - amount || market.no_count == u32::MAX {
            return Err(EchoBetError::Overflow);
        }
    }
    if market.status == MarketStatus::Open {
        market.status = MarketStatus::Revealing;
    }
    if params.outcome == OUTCOME_YES {
        market.yes_pool = market.yes_pool + amount;
        market.yes_count = market.yes_count + 1;
    } else {
        market.no_pool = market.no_pool + amount;
        market.no_count = market.no_count + 1;
    }
    commitment.revealed_outcome = Some(params.outcome);
    commitment.revealed_salt = Some(params.salt);
    commitment.is_revealed = true;
    commitment.revealed_at = ctx.current_time;
    Ok(())
}

/// Reveals bet `commitment` on the outcome and salt of `params`, once
/// betting has closed and before the reveal window ends. The commitment must
/// open to the bet's stake, the outcome and the salt.
pub fn reveal_bet(
    ctx: &RevealBet,
    market: &mut Market,
    commitment: &mut Commitment,
    params: RevealBetParams,
) -> (r: Result<(), EchoBetError>)
    ensures
        match r {
            Ok(()) => reveal_error(
                *ctx,
                *old(market),
                *old(commitment),
                params,
                opens_to(
                    old(commitment).commitment_hash@,
                    old(commitment).amount,
                    params.outcome,
                    params.salt@,
                ),
            ) is None && *final(market) == revealed_market(
                *old(market),
                old(commitment).amount,
                params.outcome,
            ) && *final(commitment) == revealed_commitment(
                *old(commitment),
                params,
                ctx.current_time,
            ),
            Err(e) => reveal_error(
                *ctx,
                *old(market),
                *old(commitment),
                params,
                opens_to(
                    old(commitment).commitment_hash@,
                    old(commitment).amount,
                    params.outcome,
                    params.salt@,
                ),
            ) == Some(e) && *final(market) == *old(market) && *final(commitment) == *old(commitment),
        },
        old(market).wf() ==> final(market).wf(),
        old(commitment).wf() ==> final(commitment).wf(),
{
    let computed = compute_commitment_hash(commitment.amount, params.outcome, &params.salt);
    apply_reveal(ctx, market, commitment, params, &computed)
}

/// Why resolving a market is refused, if it is.
pub open spec fn resolve_error(
    ctx: ResolveMarket,
    m: Market,
    params: ResolveMarketParams,
) -> Option<EchoBetError> {
    if m.status == MarketStatus::Resolved || m.status == MarketStatus::Cancelled {
        Some(EchoBetError::MarketAlreadyResolved)
    } else if ctx.current_time < m.deadline {
        Some(EchoBetError::MarketNotExpired)
    } else if ctx.resolver.bytes@ != m.oracle.bytes@ && ctx.resolver.bytes@ != m.creator.bytes@ {
        Some(EchoBetError::UnauthorizedResolver)
    } else if !valid_outcome(params.outcome) {
        Some(EchoBetError::InvalidOutcome)
    } else {
        None
    }
}

/// The market after it is resolved on `outcome` at `now`.
pub open spec fn resolved_market(m: Market, outcome: u8, now: i64) -> Market {
    Market { outcome: Some(outcome), status: MarketStatus::Resolved, resolved_at: now, ..m }
}

/// Resolves a market on `params.outcome`: once its betting has closed, by
/// its oracle or its creator, and only once. Unrevealed bets can no longer
/// be revealed afterwards.
pub fn resolve_market(ctx: &ResolveMarket, market: &mut Market, params: ResolveMarketParams) -> (r:
    Result<(), EchoBetError>)
    ensures
        match r {
            Ok(()) => resolve_error(*ctx, *old(market), params) is None && *final(market)
                == resolved_market(*old(market), params.outcome, ctx.current_time),
            Err(e) => resolve_error(*ctx, *old(market), params) == Some(e) && *final(market)
                == *old(market),
        },
        old(market).wf() ==> final(market).wf(),
{
    if market.status == MarketStatus::Resolved || market.status == MarketStatus::Cancelled {
        return Err(EchoBetError::MarketAlreadyResolved);
    }
    if !market.deadline_passed(ctx.current_time) {
        return Err(EchoBetError::MarketNotExpired);
    }
    let is_oracle = ctx.resolver == market.oracle;
    let is_creator = ctx.resolver == market.creator;
    if !is_oracle && !is_creator {
        return Err(EchoBetError::UnauthorizedResolver);
    }
    if params.outcome != OUTCOME_NO && params.outcome != OUTCOME_YES {
        return Err(EchoBetError::InvalidOutcome);
    }
    market.outcome = Some(params.outcome);
    market.status = MarketStatus::Resolved;
    market.resolved_at = ctx.current_time;
    Ok(())
}

/// The pool of the side that won (YES when the outcome is YES, else NO).
pub open spec fn winning_pool(m: Market) -> u64 {
    if m.outcome == Some(OUTCOME_YES) {
        m.yes_pool
    } else {
        m.no_pool
    }
}

/// The pool of the side that lost.
pub open spec fn losing_pool(m: Market) -> u64 {
    if m.outcome == Some(OUTCOME_YES) {
        m.no_pool
    } else {
        m.yes_pool
    }
}

/// What bet `c` is owed on resolved market `m`.
pub open spec fn claim_payout(m: Market, c: Commitment) -> int {
    payout_of(c.amount as int, winning_pool(m) as int, losing_pool(m) as int)
}

/// Why claiming on bet `c` is refused, if it is.
pub open spec fn claim_error(ctx: ClaimWinnings, m: Market, c: Commitment) -> Option<EchoBetError> {
    if m.status != MarketStatus::Resolved {
        Some(EchoBetError::MarketNotResolved)
    } else if c.user.bytes@ != ctx.user.bytes@ {
        Some(EchoBetError::InvalidSigner)
    } else if c.market.bytes@ != ctx.market_key.bytes@ {
        Some(EchoBetError::InvalidMarketId)
    } else if !c.is_revealed {
        Some(EchoBetError::NotRevealed)
    } else if c.is_claimed {
        Some(EchoBetError::AlreadyClaimed)
    } else if m.outcome is None {
        Some(EchoBetError::MarketNotResolved)
    } else if c.revealed_outcome is None {
        Some(EchoBetError::NotRevealed)
    } else if c.revealed_outcome != m.outcome {
        Some(EchoBetError::DidNotWin)
    } else if claim_payout(m, c) > u64::MAX {
        Some(EchoBetError::Overflow)
    } else if ctx.vault_balance < claim_payout(m, c) {
        Some(EchoBetError::InsufficientPoolFunds)
    } else {
        None
    }
}

/// The bet record once its winnings are claimed.
pub open spec fn claimed_commitment(c: Commitment) -> Commitment {
    Commitment { is_claimed: true, ..c }
}

/// Settles a winning, revealed bet on a resolved market: returns the payout
/// that the caller moves from the market's vault to the participant, and
/// marks the bet claimed so that it is paid once only.
pub fn claim_winnings(ctx: &ClaimWinnings, market: &Market, commitment: &mut Commitment) -> (r:
    Result<u64, EchoBetError>)
    ensures
        match r {
            Ok(payout) => claim_error(*ctx, *market, *old(commitment)) is None && payout
                == claim_payout(*market, *old(commitment)) && *final(commitment)
                == claimed_commitment(*old(commitment)),
            Err(e) => claim_error(*ctx, *market, *old(commitment)) == Some(e) && *final(commitment) == *old(commitment),
        },
        old(commitment).wf() ==> final(commitment).wf(),
{
    if market.status != MarketStatus::Resolved {
        return Err(EchoBetError::MarketNotResolved);
    }
    if commitment.user != ctx.user {
        return Err(EchoBetError::InvalidSigner);
    }
    if commitment.market != ctx.market_key {
        return Err(EchoBetError::InvalidMarketId);
    }
    if !commitment.is_revealed {
        return Err(EchoBetError::NotRevealed);
    }
    if commitment.is_claimed {
        return Err(EchoBetError::AlreadyClaimed);
    }
    let winning_outcome = match market.outcome {
        Some(o) => o,
        None => {
            return Err(EchoBetError::MarketNotResolved);
        },
    };
    let user_outcome = match commitment.revealed_outcome {
        Some(o) => o,
        None => {
            return Err(EchoBetError::NotRevealed);
        },
    };
    if user_outcome != winning_outcome {
        return Err(EchoBetError::DidNotWin);
    }
    let (winning, losing) = if winning_outcome == OUTCOME_YES {
        (market.yes_pool, market.no_pool)
    } else {
        (market.no_pool, market.yes_pool)
    };
    let payout = match compute_payout(commitment.amount, winning, losing) {
        Some(p) => p,
        None => {
            return Err(EchoBetError::Overflow);
        },
    };
    if ctx.vault_balance < payout {
        return Err(EchoBetError::InsufficientPoolFunds);
    }
    commitment.is_claimed = true;
    Ok(payout)
}

/// A bet is paid once: after a claim on it succeeds, a second claim by the
/// same participant on the same market is refused as already claimed,
/// whatever the vault then holds.
pub proof fn lemma_claim_single_shot(
    ctx: ClaimWinnings,
    again: ClaimWinnings,
    m: Market,
    c: Commitment,
)
    requires
        claim_error(ctx, m, c) is None,
        again.user == ctx.user,
        again.market_key == ctx.market_key,
    ensures
        claim_error(again, m, claimed_commitment(c)) == Some(EchoBetError::AlreadyClaimed),
{
}

/// A market's status never moves backward: a commit keeps it, a reveal
/// keeps it or moves `Open` to `Revealing`, and a resolution moves it to
/// `Resolved`.
pub proof fn lemma_status_monotonic(m: Market, amount: u64, outcome: u8, now: i64)
    ensures
        committed_market(m, amount).status == m.status,
        status_rank(revealed_market(m, amount, outcome).status) >= status_rank(m.status),
        status_rank(resolved_market(m, outcome, now).status) >= status_rank(m.status),
{
}

/// A resolved market stays resolved: it cannot be resolved again, and no bet
/// on it can be revealed any more.
pub proof fn lemma_resolved_is_terminal(
    m: Market,
    outcome: u8,
    now: i64,
    resolve: ResolveMarket,
    params: ResolveMarketParams,
    reveal: RevealBet,
    c: Commitment,
    reveal_params: RevealBetParams,
    opened: bool,
)
    ensures
        resolve_error(resolve, resolved_market(m, outcome, now), params) == Some(
            EchoBetError::MarketAlreadyResolved,
        ),
        reveal_error(reveal, resolved_market(m, outcome, now), c, reveal_params, opened) == Some(
            EchoBetError::MarketAlreadyResolved,
        ),
{
}

} // verus!
