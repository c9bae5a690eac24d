use echobet_pro::commitment::{bytes32_eq, compute_commitment_hash, verify_commitment};
use echobet_pro::program::{
    apply_reveal, claim_winnings, commit_bet, create_market, resolve_market, reveal_bet,
    ClaimWinnings, CommitBet, CreateMarket, ResolveMarket, RevealBet,
};
use echobet_pro::settlement::compute_payout;
use echobet_pro::state::{
    CommitBetParams, Commitment, CreateMarketParams, EchoBetError, Market, MarketStatus, Pubkey,
    ResolveMarketParams, RevealBetParams, DEFAULT_REVEAL_PERIOD, OUTCOME_NO, OUTCOME_YES,
};

const NOW: i64 = 1_000;
const DEADLINE: i64 = NOW + 1_000;

fn key(n: u8) -> Pubkey {
    Pubkey::new([n; 32])
}

fn creator() -> Pubkey {
    key(1)
}

fn oracle() -> Pubkey {
    key(2)
}

fn market_key() -> Pubkey {
    key(3)
}

fn new_market(reveal_period: Option<i64>) -> Market {
    let ctx = CreateMarket { creator: creator(), oracle: oracle(), current_time: NOW, bump: 254, vault_bump: 253 };
    let params = CreateMarketParams {
        market_id: 7,
        question: "Will it rain tomorrow?".to_string(),
        deadline: DEADLINE,
        reveal_period,
    };
    create_market(&ctx, params).unwrap()
}

fn commit(market: &mut Market, user: u8, amount: u64, outcome: u8, salt: u8) -> Commitment {
    let ctx = CommitBet { user: key(user), market_key: market_key(), current_time: NOW + 500, bump: 9 };
    let params = CommitBetParams { commitment_hash: compute_commitment_hash(amount, outcome, &[salt; 32]), amount };
    commit_bet(&ctx, market, params).unwrap()
}

fn open_bet(market: &mut Market, bet: &mut Commitment, user: u8, outcome: u8, salt: u8, at: i64) -> Result<(), EchoBetError> {
    let ctx = RevealBet { user: key(user), market_key: market_key(), current_time: at };
    reveal_bet(&ctx, market, bet, RevealBetParams { outcome, salt: [salt; 32] })
}

fn resolve(market: &mut Market, resolver: Pubkey, outcome: u8, at: i64) -> Result<(), EchoBetError> {
    let ctx = ResolveMarket { resolver, current_time: at };
    resolve_market(&ctx, market, ResolveMarketParams { outcome })
}

fn claim(market: &Market, bet: &mut Commitment, user: u8, vault_balance: u64) -> Result<u64, EchoBetError> {
    let ctx = ClaimWinnings { user: key(user), market_key: market_key(), vault_balance };
    claim_winnings(&ctx, market, bet)
}

#[test]
fn commitment_hash_is_sha256_of_the_encoded_bet() {
    let expected: [u8; 32] = [
        122, 98, 193, 135, 151, 185, 208, 203, 183, 143, 114, 91, 124, 110, 72, 86, 41, 152, 29, 6,
        106, 22, 249, 14, 139, 28, 162, 45, 141, 156, 180, 174,
    ];
    assert_eq!(compute_commitment_hash(100, 1, &[7; 32]), expected);
}

#[test]
fn commitment_opens_only_to_its_own_values() {
    let salt = [7u8; 32];
    let hash = compute_commitment_hash(100, 1, &salt);
    assert!(verify_commitment(&hash, 100, 1, &salt));
    assert!(!verify_commitment(&hash, 101, 1, &salt));
    assert!(!verify_commitment(&hash, 100, 0, &salt));
    let mut other = salt;
    other[31] = 8;
    assert!(!verify_commitment(&hash, 100, 1, &other));
}

#[test]
fn bytes32_eq_compares_every_byte() {
    let a = [5u8; 32];
    let mut b = a;
    assert!(bytes32_eq(&a, &b));
    b[0] = 6;
    assert!(!bytes32_eq(&a, &b));
}

#[test]
fn two_opposite_bets_yes_wins() {
    let mut m = new_market(None);
    assert_eq!(m.reveal_deadline, DEADLINE + 86_400);
    assert_eq!(m.status, MarketStatus::Open);
    let mut a = commit(&mut m, 10, 100, OUTCOME_YES, 1);
    let mut b = commit(&mut m, 11, 100, OUTCOME_NO, 2);
    assert_eq!(m.total_pool, 200);
    assert_eq!(open_bet(&mut m, &mut a, 10, OUTCOME_YES, 1, DEADLINE + 10), Ok(()));
    assert_eq!(m.status, MarketStatus::Revealing);
    assert_eq!(open_bet(&mut m, &mut b, 11, OUTCOME_NO, 2, DEADLINE + 20), Ok(()));
    assert_eq!((m.yes_pool, m.no_pool, m.yes_count, m.no_count), (100, 100, 1, 1));
    assert_eq!(resolve(&mut m, creator(), OUTCOME_YES, DEADLINE + 30), Ok(()));
    assert_eq!(m.status, MarketStatus::Resolved);
    assert_eq!(m.outcome, Some(OUTCOME_YES));
    assert_eq!(m.resolved_at, DEADLINE + 30);
    assert_eq!(claim(&m, &mut a, 10, 200), Ok(200));
    assert!(a.is_claimed);
    assert_eq!(claim(&m, &mut b, 11, 200), Err(EchoBetError::DidNotWin));
    assert!(!b.is_claimed);
}

#[test]
fn reveal_with_other_outcome_is_a_mismatch() {
    let mut m = new_market(None);
    let mut a = commit(&mut m, 10, 100, OUTCOME_YES, 1);
    assert_eq!(open_bet(&mut m, &mut a, 10, OUTCOME_NO, 1, DEADLINE + 10), Err(EchoBetError::CommitmentMismatch));
    assert!(!a.is_revealed);
    assert_eq!((m.yes_pool, m.no_pool), (0, 0));
    assert_eq!(m.status, MarketStatus::Open);
}

#[test]
fn reveal_before_deadline_is_refused() {
    let mut m = new_market(None);
    let mut a = commit(&mut m, 10, 100, OUTCOME_YES, 1);
    assert_eq!(open_bet(&mut m, &mut a, 10, OUTCOME_YES, 1, DEADLINE - 1), Err(EchoBetError::MarketNotExpired));
}

#[test]
fn three_bets_no_wins() {
    let mut m = new_market(None);
    let mut a = commit(&mut m, 10, 50, OUTCOME_YES, 1);
    let mut b = commit(&mut m, 11, 30, OUTCOME_NO, 2);
    let mut c = commit(&mut m, 12, 20, OUTCOME_NO, 3);
    assert_eq!(open_bet(&mut m, &mut a, 10, OUTCOME_YES, 1, DEADLINE), Ok(()));
    assert_eq!(open_bet(&mut m, &mut b, 11, OUTCOME_NO, 2, DEADLINE), Ok(()));
    assert_eq!(open_bet(&mut m, &mut c, 12, OUTCOME_NO, 3, DEADLINE), Ok(()));
    assert_eq!((m.yes_pool, m.no_pool), (50, 50));
    assert_eq!(resolve(&mut m, oracle(), OUTCOME_NO, DEADLINE + 1), Ok(()));
    let pb = claim(&m, &mut b, 11, 100).unwrap();
    let pc = claim(&m, &mut c, 12, 100 - pb).unwrap();
    assert_eq!((pb, pc), (60, 40));
    assert_eq!(pb + pc, m.yes_pool + m.no_pool);
    assert_eq!(claim(&m, &mut a, 10, 0), Err(EchoBetError::DidNotWin));
}

#[test]
fn pools_hold_the_revealed_stakes() {
    let mut m = new_market(None);
    let mut a = commit(&mut m, 10, 5, OUTCOME_YES, 1);
    let mut b = commit(&mut m, 11, 7, OUTCOME_NO, 2);
    let _c = commit(&mut m, 12, 11, OUTCOME_NO, 3);
    assert_eq!(open_bet(&mut m, &mut a, 10, OUTCOME_YES, 1, DEADLINE), Ok(()));
    assert_eq!(open_bet(&mut m, &mut b, 11, OUTCOME_NO, 2, DEADLINE), Ok(()));
    assert_eq!(m.yes_pool + m.no_pool, 12);
    assert_eq!(m.total_pool, 23);
}

#[test]
fn rounding_loses_less_than_one_unit_per_winner() {
    let mut m = new_market(None);
    let mut a = commit(&mut m, 10, 1, OUTCOME_YES, 1);
    let mut b = commit(&mut m, 11, 1, OUTCOME_YES, 2);
    let mut c = commit(&mut m, 12, 1, OUTCOME_YES, 3);
    let mut d = commit(&mut m, 13, 2, OUTCOME_NO, 4);
    for (bet, user, outcome, salt) in [(&mut a, 10, OUTCOME_YES, 1), (&mut b, 11, OUTCOME_YES, 2), (&mut c, 12, OUTCOME_YES, 3), (&mut d, 13, OUTCOME_NO, 4)] {
        assert_eq!(open_bet(&mut m, bet, user, outcome, salt, DEADLINE), Ok(()));
    }
    assert_eq!(resolve(&mut m, creator(), OUTCOME_YES, DEADLINE), Ok(()));
    let total = claim(&m, &mut a, 10, 5).unwrap() + claim(&m, &mut b, 11, 5).unwrap() + claim(&m, &mut c, 12, 5).unwrap();
    assert_eq!(total, 3);
    assert!(total <= m.yes_pool + m.no_pool);
    assert!(total + 2 >= m.yes_pool + m.no_pool);
}

#[test]
fn claim_twice_is_refused() {
    let mut m = new_market(None);
    let mut a = commit(&mut m, 10, 100, OUTCOME_YES, 1);
    assert_eq!(open_bet(&mut m, &mut a, 10, OUTCOME_YES, 1, DEADLINE), Ok(()));
    assert_eq!(resolve(&mut m, creator(), OUTCOME_YES, DEADLINE), Ok(()));
    assert_eq!(claim(&m, &mut a, 10, 1_000), Ok(100));
    assert_eq!(claim(&m, &mut a, 10, 1_000), Err(EchoBetError::AlreadyClaimed));
}

#[test]
fn status_only_moves_forward() {
    let mut m = new_market(None);
    let mut a = commit(&mut m, 10, 100, OUTCOME_YES, 1);
    let mut b = commit(&mut m, 11, 100, OUTCOME_NO, 2);
    assert_eq!(open_bet(&mut m, &mut a, 10, OUTCOME_YES, 1, DEADLINE), Ok(()));
    assert_eq!(m.status, MarketStatus::Revealing);
    assert_eq!(resolve(&mut m, creator(), OUTCOME_NO, DEADLINE), Ok(()));
    assert_eq!(resolve(&mut m, creator(), OUTCOME_YES, DEADLINE + 1), Err(EchoBetError::MarketAlreadyResolved));
    assert_eq!(m.outcome, Some(OUTCOME_NO));
    assert_eq!(open_bet(&mut m, &mut b, 11, OUTCOME_NO, 2, DEADLINE + 1), Err(EchoBetError::MarketAlreadyResolved));
    assert_eq!(m.status, MarketStatus::Resolved);
}

#[test]
fn reveal_period_defaults_and_overrides() {
    assert_eq!(new_market(Some(-5)).reveal_deadline, DEADLINE + DEFAULT_REVEAL_PERIOD);
    assert_eq!(new_market(Some(0)).reveal_deadline, DEADLINE + 86_400);
    assert_eq!(new_market(Some(10)).reveal_deadline, DEADLINE + 10);
}

#[test]
fn create_market_records_its_configuration() {
    let m = new_market(None);
    assert_eq!(m.creator, creator());
    assert_eq!(m.oracle, oracle());
    assert_eq!(m.market_id, 7);
    assert_eq!(m.question, "Will it rain tomorrow?");
    assert_eq!((m.total_pool, m.yes_pool, m.no_pool, m.yes_count, m.no_count), (0, 0, 0, 0, 0));
    assert_eq!(m.outcome, None);
    assert_eq!((m.created_at, m.resolved_at, m.bump, m.vault_bump), (NOW, 0, 254, 253));
}

#[test]
fn create_market_errors() {
    let ctx = CreateMarket { creator: creator(), oracle: oracle(), current_time: NOW, bump: 0, vault_bump: 0 };
    let long = CreateMarketParams { market_id: 1, question: "q".repeat(257), deadline: DEADLINE, reveal_period: None };
    assert_eq!(create_market(&ctx, long).err(), Some(EchoBetError::QuestionTooLong));
    let exact = CreateMarketParams { market_id: 1, question: "q".repeat(256), deadline: DEADLINE, reveal_period: None };
    assert!(create_market(&ctx, exact).is_ok());
    let past = CreateMarketParams { market_id: 1, question: String::new(), deadline: NOW, reveal_period: None };
    assert_eq!(create_market(&ctx, past).err(), Some(EchoBetError::DeadlineInPast));
    let far = CreateMarketParams { market_id: 1, question: String::new(), deadline: i64::MAX - 5, reveal_period: Some(10) };
    assert_eq!(create_market(&ctx, far).err(), Some(EchoBetError::Overflow));
}

#[test]
fn commit_errors() {
    let mut m = new_market(None);
    let ctx = CommitBet { user: key(10), market_key: market_key(), current_time: NOW, bump: 0 };
    let zero = CommitBetParams { commitment_hash: [0; 32], amount: 0 };
    assert_eq!(commit_bet(&ctx, &mut m, zero).err(), Some(EchoBetError::ZeroBetAmount));
    let late = CommitBet { current_time: DEADLINE, ..ctx };
    let one = CommitBetParams { commitment_hash: [0; 32], amount: 1 };
    assert_eq!(commit_bet(&late, &mut m, one).err(), Some(EchoBetError::MarketExpired));
    let huge = CommitBetParams { commitment_hash: [0; 32], amount: u64::MAX };
    assert!(commit_bet(&ctx, &mut m, huge).is_ok());
    assert_eq!(commit_bet(&ctx, &mut m, one).err(), Some(EchoBetError::Overflow));
    assert_eq!(m.total_pool, u64::MAX);
}

#[test]
fn commit_after_reveals_began_is_refused() {
    let mut m = new_market(None);
    let mut a = commit(&mut m, 10, 100, OUTCOME_YES, 1);
    assert_eq!(open_bet(&mut m, &mut a, 10, OUTCOME_YES, 1, DEADLINE), Ok(()));
    m.deadline = DEADLINE + 100;
    let ctx = CommitBet { user: key(11), market_key: market_key(), current_time: DEADLINE, bump: 0 };
    let params = CommitBetParams { commitment_hash: [0; 32], amount: 1 };
    assert_eq!(commit_bet(&ctx, &mut m, params).err(), Some(EchoBetError::MarketExpired));
}

#[test]
fn commit_records_the_bet() {
    let mut m = new_market(None);
    let a = commit(&mut m, 10, 100, OUTCOME_YES, 1);
    assert_eq!(a.user, key(10));
    assert_eq!(a.market, market_key());
    assert_eq!(a.amount, 100);
    assert_eq!(a.commitment_hash, compute_commitment_hash(100, OUTCOME_YES, &[1; 32]));
    assert!(!a.is_revealed && !a.is_claimed);
    assert_eq!((a.revealed_outcome, a.revealed_salt, a.committed_at, a.revealed_at, a.bump), (None, None, NOW + 500, 0, 9));
}

#[test]
fn reveal_errors() {
    let mut m = new_market(Some(100));
    let mut a = commit(&mut m, 10, 100, OUTCOME_YES, 1);
    assert_eq!(open_bet(&mut m, &mut a, 10, OUTCOME_YES, 1, DEADLINE + 100), Err(EchoBetError::RevealPeriodEnded));
    assert_eq!(open_bet(&mut m, &mut a, 10, 2, 1, DEADLINE), Err(EchoBetError::InvalidOutcome));
    assert_eq!(open_bet(&mut m, &mut a, 11, OUTCOME_YES, 1, DEADLINE), Err(EchoBetError::InvalidSigner));
    let other = RevealBet { user: key(10), market_key: key(99), current_time: DEADLINE };
    let params = RevealBetParams { outcome: OUTCOME_YES, salt: [1; 32] };
    assert_eq!(reveal_bet(&other, &mut m, &mut a, params), Err(EchoBetError::InvalidMarketId));
    assert_eq!(open_bet(&mut m, &mut a, 10, OUTCOME_YES, 1, DEADLINE + 99), Ok(()));
    assert_eq!(a.revealed_outcome, Some(OUTCOME_YES));
    assert_eq!(a.revealed_salt, Some([1; 32]));
    assert_eq!(a.revealed_at, DEADLINE + 99);
    assert_eq!(open_bet(&mut m, &mut a, 10, OUTCOME_YES, 1, DEADLINE + 99), Err(EchoBetError::AlreadyRevealed));
    assert_eq!(m.yes_pool, 100);
}

#[test]
fn reveal_overflow_changes_nothing() {
    let mut m = new_market(None);
    let mut a = commit(&mut m, 10, 100, OUTCOME_NO, 1);
    m.no_pool = u64::MAX - 50;
    assert_eq!(open_bet(&mut m, &mut a, 10, OUTCOME_NO, 1, DEADLINE), Err(EchoBetError::Overflow));
    assert_eq!(m.status, MarketStatus::Open);
    assert_eq!(m.no_pool, u64::MAX - 50);
    assert!(!a.is_revealed);
}

#[test]
fn apply_reveal_compares_the_given_hash() {
    let mut m = new_market(None);
    let mut a = commit(&mut m, 10, 100, OUTCOME_YES, 1);
    let ctx = RevealBet { user: key(10), market_key: market_key(), current_time: DEADLINE };
    let params = RevealBetParams { outcome: OUTCOME_YES, salt: [1; 32] };
    assert_eq!(apply_reveal(&ctx, &mut m, &mut a, params, &[0; 32]), Err(EchoBetError::CommitmentMismatch));
    let hash = a.commitment_hash;
    assert_eq!(apply_reveal(&ctx, &mut m, &mut a, params, &hash), Ok(()));
    assert!(a.is_revealed);
}

#[test]
fn resolve_errors() {
    let mut m = new_market(None);
    assert_eq!(resolve(&mut m, creator(), OUTCOME_YES, DEADLINE - 1), Err(EchoBetError::MarketNotExpired));
    assert_eq!(resolve(&mut m, key(42), OUTCOME_YES, DEADLINE), Err(EchoBetError::UnauthorizedResolver));
    assert_eq!(resolve(&mut m, oracle(), 3, DEADLINE), Err(EchoBetError::InvalidOutcome));
    assert_eq!(m.status, MarketStatus::Open);
    m.status = MarketStatus::Cancelled;
    assert_eq!(resolve(&mut m, oracle(), OUTCOME_NO, DEADLINE), Err(EchoBetError::MarketAlreadyResolved));
}

#[test]
fn claim_errors() {
    let mut m = new_market(None);
    let mut a = commit(&mut m, 10, 100, OUTCOME_YES, 1);
    let mut b = commit(&mut m, 11, 100, OUTCOME_NO, 2);
    assert_eq!(open_bet(&mut m, &mut a, 10, OUTCOME_YES, 1, DEADLINE), Ok(()));
    assert_eq!(claim(&m, &mut a, 10, 1_000), Err(EchoBetError::MarketNotResolved));
    assert_eq!(resolve(&mut m, creator(), OUTCOME_YES, DEADLINE), Ok(()));
    assert_eq!(claim(&m, &mut b, 11, 1_000), Err(EchoBetError::NotRevealed));
    assert_eq!(claim(&m, &mut a, 12, 1_000), Err(EchoBetError::InvalidSigner));
    let other = ClaimWinnings { user: key(10), market_key: key(99), vault_balance: 1_000 };
    assert_eq!(claim_winnings(&other, &m, &mut a), Err(EchoBetError::InvalidMarketId));
    assert_eq!(claim(&m, &mut a, 10, 99), Err(EchoBetError::InsufficientPoolFunds));
    assert!(!a.is_claimed);
    m.yes_pool = 1;
    m.no_pool = u64::MAX;
    assert_eq!(claim(&m, &mut a, 10, u64::MAX), Err(EchoBetError::Overflow));
}

#[test]
fn payout_arithmetic() {
    assert_eq!(compute_payout(100, 100, 100), Some(200));
    assert_eq!(compute_payout(30, 50, 50), Some(60));
    assert_eq!(compute_payout(7, 3, 2), Some(11));
    assert_eq!(compute_payout(5, 0, 7), Some(5));
    assert_eq!(compute_payout(u64::MAX, u64::MAX, u64::MAX), None);
    assert_eq!(compute_payout(u64::MAX / 2, u64::MAX, u64::MAX), Some(u64::MAX / 2 * 2));
    assert_eq!(compute_payout(u64::MAX, 1, 0), Some(u64::MAX));
}

#[test]
fn status_default_and_messages() {
    assert_eq!(MarketStatus::default(), MarketStatus::Open);
    assert_eq!(EchoBetError::DidNotWin.message(), "User did not win");
    assert_eq!(EchoBetError::InsufficientPoolFunds.message(), "Insufficient pool funds");
}

#[test]
fn deadline_predicates() {
    let m = new_market(Some(10));
    assert!(!m.deadline_passed(DEADLINE - 1));
    assert!(m.deadline_passed(DEADLINE));
    assert!(!m.reveal_deadline_passed(DEADLINE + 9));
    assert!(m.reveal_deadline_passed(DEADLINE + 10));
}
