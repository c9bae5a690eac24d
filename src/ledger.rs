//! How a market's pools account for the bet records committed to it, and
//! what its winners are owed in total.
use vstd::prelude::*;

use crate::program::{
    claim_payout,
    commit_error,
    committed_market,
    create_error,
    created_market,
    losing_pool,
    new_commitment,
    reveal_error,
    revealed_commitment,
    revealed_market,
    winning_pool,
    CommitBet,
    CreateMarket,
    RevealBet,
};
use crate::state::{
    CommitBetParams,
    Commitment,
    CreateMarketParams,
    Market,
    MarketStatus,
    RevealBetParams,
    OUTCOME_NO,
    OUTCOME_YES,
};

verus! {

/// The stake that bet `c` has revealed on `outcome`.
pub open spec fn stake_on(c: Commitment, outcome: u8) -> int {
    if c.revealed_outcome == Some(outcome) {
        c.amount as int
    } else {
        0
    }
}

/// The stake revealed on `outcome` among `bets`.
pub open spec fn revealed_stake(bets: Seq<Commitment>, outcome: u8) -> int
    decreases bets.len(),
{
    if bets.len() == 0 {
        0
    } else {
        revealed_stake(bets.drop_last(), outcome) + stake_on(bets.last(), outcome)
    }
}

/// The stake of the revealed bets among `bets`.
pub open spec fn revealed_total(bets: Seq<Commitment>) -> int
    decreases bets.len(),
{
    if bets.len() == 0 {
        0
    } else {
        revealed_total(bets.drop_last()) + if bets.last().is_revealed {
            bets.last().amount as int
        } else {
            0
        }
    }
}

/// The stake of all of `bets`.
pub open spec fn committed_total(bets: Seq<Commitment>) -> int
    decreases bets.len(),
{
    if bets.len() == 0 {
        0
    } else {
        committed_total(bets.drop_last()) + bets.last().amount
    }
}

/// Whether every bet record is well formed.
pub open spec fn all_wf(bets: Seq<Commitment>) -> bool {
    forall|i: int| 0 <= i < bets.len() ==> #[trigger] bets[i].wf()
}

/// Whether market `m`'s pools are exactly the stakes of `bets`: all that
/// was committed, and what was revealed on each side.
pub open spec fn pools_match(m: Market, bets: Seq<Commitment>) -> bool {
    &&& m.total_pool == committed_total(bets)
    &&& m.yes_pool == revealed_stake(bets, OUTCOME_YES)
    &&& m.no_pool == revealed_stake(bets, OUTCOME_NO)
}

/// A new market's pools match its (empty) set of bets.
pub proof fn lemma_created_pools_match(ctx: CreateMarket, params: CreateMarketParams)
    requires
        create_error(ctx, params) is None,
    ensures
        pools_match(created_market(ctx, params), Seq::empty()),
{
}

/// Committing a bet adds a hidden record, and the pools still match.
pub proof fn lemma_commit_keeps_pools(
    ctx: CommitBet,
    m: Market,
    bets: Seq<Commitment>,
    params: CommitBetParams,
)
    requires
        pools_match(m, bets),
        commit_error(ctx, m, params) is None,
    ensures
        pools_match(committed_market(m, params.amount), bets.push(new_commitment(ctx, params))),
{
    let after = bets.push(new_commitment(ctx, params));
    assert(after.drop_last() =~= bets);
}

/// Replacing bet `i` by `c`, of the same stake, changes each sum by the
/// difference of their parts in it.
pub(crate) proof fn lemma_sums_update(bets: Seq<Commitment>, i: int, c: Commitment)
    requires
        0 <= i < bets.len(),
        c.amount == bets[i].amount,
    ensures
        committed_total(bets.update(i, c)) == committed_total(bets),
        forall|o: u8|
            #![trigger revealed_stake(bets.update(i, c), o)]
            revealed_stake(bets.update(i, c), o) == revealed_stake(bets, o) - stake_on(bets[i], o)
                + stake_on(c, o),
    decreases bets.len(),
{
    let after = bets.update(i, c);
    if i == bets.len() - 1 {
        assert(after.drop_last() =~= bets.drop_last());
    } else {
        lemma_sums_update(bets.drop_last(), i, c);
        assert(after.drop_last() =~= bets.drop_last().update(i, c));
    }
    assert forall|o: u8|
        #![trigger revealed_stake(bets.update(i, c), o)]
        revealed_stake(bets.update(i, c), o) == revealed_stake(bets, o) - stake_on(bets[i], o)
            + stake_on(c, o) by {
        if i != bets.len() - 1 {
            assert(revealed_stake(bets.drop_last().update(i, c), o) == revealed_stake(
                bets.drop_last(),
                o,
            ) - stake_on(bets[i], o) + stake_on(c, o));
        }
    }
}

/// Revealing bet `i` moves its stake into its side's pool, and the pools
/// still match.
pub proof fn lemma_reveal_keeps_pools(
    ctx: RevealBet,
    m: Market,
    bets: Seq<Commitment>,
    i: int,
    params: RevealBetParams,
    opened: bool,
)
    requires
        pools_match(m, bets),
        all_wf(bets),
        0 <= i < bets.len(),
        reveal_error(ctx, m, bets[i], params, opened) is None,
    ensures
        pools_match(
            revealed_market(m, bets[i].amount, params.outcome),
            bets.update(i, revealed_commitment(bets[i], params, ctx.current_time)),
        ),
{
    let c = revealed_commitment(bets[i], params, ctx.current_time);
    assert(bets[i].wf());
    lemma_sums_update(bets, i, c);
    assert(revealed_stake(bets.update(i, c), OUTCOME_YES) == revealed_stake(bets, OUTCOME_YES)
        - stake_on(bets[i], OUTCOME_YES) + stake_on(c, OUTCOME_YES));
    assert(revealed_stake(bets.update(i, c), OUTCOME_NO) == revealed_stake(bets, OUTCOME_NO)
        - stake_on(bets[i], OUTCOME_NO) + stake_on(c, OUTCOME_NO));
}

/// Over well-formed bets, the stakes revealed on the two sides make up the
/// revealed stake, which is at most the committed stake.
proof fn lemma_revealed_sides(bets: Seq<Commitment>)
    requires
        all_wf(bets),
    ensures
        revealed_stake(bets, OUTCOME_YES) + revealed_stake(bets, OUTCOME_NO) == revealed_total(
            bets,
        ),
        revealed_total(bets) <= committed_total(bets),
    decreases bets.len(),
{
    if bets.len() > 0 {
        assert(bets.last().wf());
        lemma_revealed_sides(bets.drop_last());
    }
}

/// When a market's pools match its bets, the two revealed pools hold
/// exactly the stakes of the revealed bets, and no more than was committed.
pub proof fn lemma_pool_conservation(m: Market, bets: Seq<Commitment>)
    requires
        pools_match(m, bets),
        all_wf(bets),
    ensures
        m.yes_pool + m.no_pool == revealed_total(bets),
        m.yes_pool + m.no_pool <= m.total_pool,
{
    lemma_revealed_sides(bets);
}

/// The number of bets revealed on `outcome`.
pub open spec fn winner_count(bets: Seq<Commitment>, outcome: u8) -> int
    decreases bets.len(),
{
    if bets.len() == 0 {
        0
    } else {
        winner_count(bets.drop_last(), outcome) + if bets.last().revealed_outcome == Some(
            outcome,
        ) {
            1int
        } else {
            0
        }
    }
}

/// What the bets that won on resolved market `m` are owed in total.
pub open spec fn total_claims(m: Market, bets: Seq<Commitment>) -> int
    decreases bets.len(),
{
    if bets.len() == 0 {
        0
    } else {
        total_claims(m, bets.drop_last()) + if bets.last().revealed_outcome == m.outcome {
            claim_payout(m, bets.last())
        } else {
            0
        }
    }
}

/// The floor in each winner's share loses less than one unit per winner:
/// with `w`, `l` the winning and losing pools, `b` the winners' stake and
/// `p` their total claims, `w * (p - b)` lies between `l * b - n * (w - 1)`
/// and `l * b`.
proof fn lemma_claims_bounds(m: Market, bets: Seq<Commitment>, o: u8)
    requires
        m.outcome == Some(o),
        winning_pool(m) > 0,
    ensures
        winning_pool(m) * (total_claims(m, bets) - revealed_stake(bets, o)) <= losing_pool(m)
            * revealed_stake(bets, o),
        winning_pool(m) * (total_claims(m, bets) - revealed_stake(bets, o)) >= losing_pool(m)
            * revealed_stake(bets, o) - winner_count(bets, o) * (winning_pool(m) - 1),
        revealed_stake(bets, o) > 0 ==> winner_count(bets, o) > 0,
        revealed_stake(bets, o) >= 0,
        winner_count(bets, o) >= 0,
    decreases bets.len(),
{
    let w = winning_pool(m) as int;
    let l = losing_pool(m) as int;
    let b = revealed_stake(bets, o);
    let x = total_claims(m, bets) - b;
    if bets.len() > 0 {
        let rest = bets.drop_last();
        lemma_claims_bounds(m, rest, o);
        let c = bets.last();
        let b0 = revealed_stake(rest, o);
        let x0 = total_claims(m, rest) - b0;
        let n0 = winner_count(rest, o);
        if c.revealed_outcome == Some(o) {
            let a = c.amount as int;
            let s = a * l / w;
            assert(a * l >= 0) by (nonlinear_arith)
                requires
                    a >= 0,
                    l >= 0,
            ;
            vstd::arithmetic::div_mod::lemma_fundamental_div_mod(a * l, w);
            vstd::arithmetic::div_mod::lemma_mod_pos_bound(a * l, w);
            assert(x == x0 + s);
            assert(b == b0 + a);
            assert(w * x <= l * b && w * x >= l * b - (n0 + 1) * (w - 1)) by (nonlinear_arith)
                requires
                    w * x0 <= l * b0,
                    w * x0 >= l * b0 - n0 * (w - 1),
                    x == x0 + s,
                    b == b0 + a,
                    a * l == w * s + (a * l) % w,
                    0 <= (a * l) % w < w,
            ;
        } else {
            assert(x == x0);
            assert(b == b0);
        }
    } else {
        assert(w * x <= l * b) by (nonlinear_arith)
            requires
                x == 0,
                b == 0,
        ;
    }
}

/// Settlement is zero-sum up to rounding: on a resolved market whose pools
/// match its bets and whose winning side holds some stake, the winners are
/// owed in total at most the two revealed pools, and less than them by at
/// most one unit per winner beyond the first.
pub proof fn lemma_zero_sum_settlement(m: Market, bets: Seq<Commitment>)
    requires
        m.wf(),
        m.status == MarketStatus::Resolved,
        pools_match(m, bets),
        winning_pool(m) > 0,
    ensures
        total_claims(m, bets) <= m.yes_pool + m.no_pool,
        total_claims(m, bets) >= m.yes_pool + m.no_pool - (winner_count(
            bets,
            m.outcome->0,
        ) - 1),
{
    let o = m.outcome->0;
    lemma_claims_bounds(m, bets, o);
    let w = winning_pool(m) as int;
    let l = losing_pool(m) as int;
    let x = total_claims(m, bets) - w;
    let n = winner_count(bets, o);
    assert(revealed_stake(bets, o) == w);
    assert(x <= l) by (nonlinear_arith)
        requires
            w * x <= l * w,
            w > 0,
    ;
    assert(x - l + n >= 1) by (nonlinear_arith)
        requires
            w * x >= l * w - n * (w - 1),
            w > 0,
            n > 0,
    ;
}

} // verus!
