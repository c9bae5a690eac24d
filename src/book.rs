//! One market together with its bet records, keyed by participant: the
//! record store that makes a participant's bet unique, and whose invariant
//! keeps the pools equal to the stakes of the records.
use vstd::prelude::*;

use crate::commitment::opens_to;
use crate::ledger::{
    all_wf,
    lemma_commit_keeps_pools,
    lemma_pool_conservation,
    lemma_reveal_keeps_pools,
    lemma_sums_update,
    pools_match,
    revealed_total,
};
use crate::program::{
    claim_error,
    claim_payout,
    claim_winnings,
    claimed_commitment,
    commit_bet,
    commit_error,
    committed_market,
    create_error,
    create_market,
    created_market,
    new_commitment,
    resolve_error,
    resolve_market,
    resolved_market,
    reveal_bet,
    reveal_error,
    revealed_commitment,
    revealed_market,
    ClaimWinnings,
    CommitBet,
    CreateMarket,
    ResolveMarket,
    RevealBet,
};
use crate::state::{
    CommitBetParams,
    Commitment,
    CreateMarketParams,
    EchoBetError,
    Market,
    Pubkey,
    ResolveMarketParams,
    RevealBetParams,
};

verus! {

/// A market at address `market_key` and the bets committed to it, at most
/// one per participant.
#[derive(Clone, Debug)]
pub struct MarketBook {
    pub market_key: Pubkey,
    pub market: Market,
    pub bets: Vec<Commitment>,
}

/// Whether bet `i` of `bets` is the one of `user`.
pub open spec fn bet_of(bets: Seq<Commitment>, user: Pubkey, i: int) -> bool {
    0 <= i < bets.len() && bets[i].user.bytes@ == user.bytes@
}

/// Whether `user` has a bet among `bets`.
pub open spec fn has_bet(bets: Seq<Commitment>, user: Pubkey) -> bool {
    exists|i: int| bet_of(bets, user, i)
}

impl MarketBook {
    /// The invariant of the store: the market and every bet are well
    /// formed, every bet belongs to this market, no participant has two
    /// bets, and the pools are exactly the stakes of the bets.
    pub open spec fn wf(&self) -> bool {
        &&& self.market.wf()
        &&& all_wf(self.bets@)
        &&& forall|i: int|
            0 <= i < self.bets@.len() ==> #[trigger] self.bets@[i].market.bytes@
                == self.market_key.bytes@
        &&& forall|i: int, j: int|
            0 <= i < self.bets@.len() && 0 <= j < self.bets@.len() && i != j
                ==> #[trigger] self.bets@[i].user.bytes@ != #[trigger] self.bets@[j].user.bytes@
        &&& pools_match(self.market, self.bets@)
    }

    /// Creates a market at `market_key` with no bets.
    pub fn create(market_key: Pubkey, ctx: &CreateMarket, params: CreateMarketParams) -> (r: Result<
        MarketBook,
        EchoBetError,
    >)
        ensures
            match r {
                Ok(b) => create_error(*ctx, params) is None && b.market == created_market(
                    *ctx,
                    params,
                ) && b.market_key == market_key && b.bets@.len() == 0 && b.wf(),
                Err(e) => create_error(*ctx, params) == Some(e),
            },
    {
        match create_market(ctx, params) {
            Ok(market) => {
                let b = MarketBook { market_key, market, bets: Vec::new() };
                assert(b.bets@ =~= Seq::<Commitment>::empty());
                Ok(b)
            },
            Err(e) => Err(e),
        }
    }

    /// The position of `user`'s bet, if there is one.
    pub fn find_bet(&self, user: &Pubkey) -> (r: Option<usize>)
        ensures
            match r {
                Some(i) => bet_of(self.bets@, *user, i as int),
                None => !has_bet(self.bets@, *user),
            },
    {
        let mut i: usize = 0;
        while i < self.bets.len()
            invariant
                i <= self.bets@.len(),
                forall|j: int| 0 <= j < i ==> !bet_of(self.bets@, *user, j),
            decreases self.bets@.len() - i,
        {
            if self.bets[i].user == *user {
                return Some(i);
            }
            i = i + 1;
        }
        None
    }

    /// Commits `ctx.user`'s bet to this market; a participant commits at
    /// most once.
    pub fn commit_bet(&mut self, ctx: &CommitBet, params: CommitBetParams) -> (r: Result<
        (),
        EchoBetError,
    >)
        requires
            old(self).wf(),
        ensures
            final(self).wf(),
            final(self).market_key == old(self).market_key,
            match r {
                Ok(()) => ctx.market_key.bytes@ == old(self).market_key.bytes@ && !has_bet(
                    old(self).bets@,
                    ctx.user,
                ) && commit_error(*ctx, old(self).market, params) is None && final(self).market
                    == committed_market(old(self).market, params.amount) && final(self).bets@
                    == old(self).bets@.push(new_commitment(*ctx, params)),
                Err(e) => *final(self) == *old(self) && if ctx.market_key.bytes@ != old(self).market_key.bytes@ {
                    e == EchoBetError::InvalidMarketId
                } else if has_bet(old(self).bets@, ctx.user) {
                    e == EchoBetError::BetAlreadyCommitted
                } else {
                    commit_error(*ctx, old(self).market, params) == Some(e)
                },
            },
    {
        if ctx.market_key != self.market_key {
            return Err(EchoBetError::InvalidMarketId);
        }
        if self.find_bet(&ctx.user).is_some() {
            return Err(EchoBetError::BetAlreadyCommitted);
        }
        let ghost before = *self;
        let c = commit_bet(ctx, &mut self.market, params)?;
        self.bets.push(c);
        proof {
            lemma_commit_keeps_pools(*ctx, before.market, before.bets@, params);
            assert(self.bets@ == before.bets@.push(new_commitment(*ctx, params)));
            assert forall|i: int, j: int|
                0 <= i < self.bets@.len() && 0 <= j < self.bets@.len() && i != j
                    implies #[trigger] self.bets@[i].user.bytes@
                    != #[trigger] self.bets@[j].user.bytes@ by {
                if i == before.bets@.len() as int {
                    assert(!bet_of(before.bets@, ctx.user, j));
                } else if j == before.bets@.len() as int {
                    assert(!bet_of(before.bets@, ctx.user, i));
                }
            }
        }
        Ok(())
    }

    /// Reveals `ctx.user`'s bet with `params`.
    pub fn reveal_bet(&mut self, ctx: &RevealBet, params: RevealBetParams) -> (r: Result<
        (),
        EchoBetError,
    >)
        requires
            old(self).wf(),
        ensures
            final(self).wf(),
            final(self).market_key == old(self).market_key,
            match r {
                Ok(()) => exists|i: int|
                    #![trigger old(self).bets@[i]]
                    bet_of(old(self).bets@, ctx.user, i) && reveal_error(
                        *ctx,
                        old(self).market,
                        old(self).bets@[i],
                        params,
                        opens_to(
                            old(self).bets@[i].commitment_hash@,
                            old(self).bets@[i].amount,
                            params.outcome,
                            params.salt@,
                        ),
                    ) is None && final(self).market == revealed_market(
                        old(self).market,
                        old(self).bets@[i].amount,
                        params.outcome,
                    ) && final(self).bets@ == old(self).bets@.update(
                        i,
                        revealed_commitment(old(self).bets@[i], params, ctx.current_time),
                    ),
                Err(e) => *final(self) == *old(self) && if has_bet(old(self).bets@, ctx.user) {
                    exists|i: int|
                        #![trigger old(self).bets@[i]]
                        bet_of(old(self).bets@, ctx.user, i) && reveal_error(
                            *ctx,
                            old(self).market,
                            old(self).bets@[i],
                            params,
                            opens_to(
                                old(self).bets@[i].commitment_hash@,
                                old(self).bets@[i].amount,
                                params.outcome,
                                params.salt@,
                            ),
                        ) == Some(e)
                } else {
                    e == EchoBetError::BetNotFound
                },
            },
    {
        let i = match self.find_bet(&ctx.user) {
            Some(i) => i,
            None => {
                return Err(EchoBetError::BetNotFound);
            },
        };
        let ghost before = *self;
        let mut c = self.bets[i];
        reveal_bet(ctx, &mut self.market, &mut c, params)?;
        self.bets.set(i, c);
        proof {
            let opened = opens_to(
                before.bets@[i as int].commitment_hash@,
                before.bets@[i as int].amount,
                params.outcome,
                params.salt@,
            );
            lemma_reveal_keeps_pools(*ctx, before.market, before.bets@, i as int, params, opened);
            assert(self.bets@ == before.bets@.update(
                i as int,
                revealed_commitment(before.bets@[i as int], params, ctx.current_time),
            ));
            assert forall|k: int| 0 <= k < self.bets@.len() implies #[trigger] self.bets@[k].wf() by {
                assert(before.bets@[k].wf());
            }
            assert forall|k: int|
                0 <= k < self.bets@.len() implies #[trigger] self.bets@[k].market.bytes@
                == self.market_key.bytes@ by {
                assert(before.bets@[k].market.bytes@ == before.market_key.bytes@);
            }
            assert forall|k: int, j: int|
                0 <= k < self.bets@.len() && 0 <= j < self.bets@.len() && k != j
                    implies #[trigger] self.bets@[k].user.bytes@
                    != #[trigger] self.bets@[j].user.bytes@ by {
                assert(before.bets@[k].user.bytes@ != before.bets@[j].user.bytes@);
            }
        }
        Ok(())
    }

    /// Resolves the market on `params.outcome`.
    pub fn resolve_market(&mut self, ctx: &ResolveMarket, params: ResolveMarketParams) -> (r: Result<
        (),
        EchoBetError,
    >)
        requires
            old(self).wf(),
        ensures
            final(self).wf(),
            final(self).market_key == old(self).market_key,
            final(self).bets@ == old(self).bets@,
            match r {
                Ok(()) => resolve_error(*ctx, old(self).market, params) is None && final(self).market == resolved_market(old(self).market, params.outcome, ctx.current_time),
                Err(e) => resolve_error(*ctx, old(self).market, params) == Some(e) && final(self).market == old(self).market,
            },
    {
        resolve_market(ctx, &mut self.market, params)
    }

    /// Settles `ctx.user`'s winning bet, returning the payout to move from
    /// the vault to the participant.
    pub fn claim_winnings(&mut self, ctx: &ClaimWinnings) -> (r: Result<u64, EchoBetError>)
        requires
            old(self).wf(),
        ensures
            final(self).wf(),
            final(self).market_key == old(self).market_key,
            final(self).market == old(self).market,
            match r {
                Ok(payout) => exists|i: int|
                    #![trigger old(self).bets@[i]]
                    bet_of(old(self).bets@, ctx.user, i) && claim_error(
                        *ctx,
                        old(self).market,
                        old(self).bets@[i],
                    ) is None && payout == claim_payout(old(self).market, old(self).bets@[i])
                        && final(self).bets@ == old(self).bets@.update(
                        i,
                        claimed_commitment(old(self).bets@[i]),
                    ),
                Err(e) => *final(self) == *old(self) && if has_bet(old(self).bets@, ctx.user) {
                    exists|i: int|
                        #![trigger old(self).bets@[i]]
                        bet_of(old(self).bets@, ctx.user, i) && claim_error(
                            *ctx,
                            old(self).market,
                            old(self).bets@[i],
                        ) == Some(e)
                } else {
                    e == EchoBetError::BetNotFound
                },
            },
    {
        let i = match self.find_bet(&ctx.user) {
            Some(i) => i,
            None => {
                return Err(EchoBetError::BetNotFound);
            },
        };
        let ghost before = *self;
        let mut c = self.bets[i];
        let payout = claim_winnings(ctx, &self.market, &mut c)?;
        self.bets.set(i, c);
        proof {
            lemma_sums_update(before.bets@, i as int, c);
            assert(self.bets@ == before.bets@.update(i as int, c));
            assert forall|k: int| 0 <= k < self.bets@.len() implies #[trigger] self.bets@[k].wf() by {
                assert(before.bets@[k].wf());
            }
            assert forall|k: int|
                0 <= k < self.bets@.len() implies #[trigger] self.bets@[k].market.bytes@
                == self.market_key.bytes@ by {
                assert(before.bets@[k].market.bytes@ == before.market_key.bytes@);
            }
            assert forall|k: int, j: int|
                0 <= k < self.bets@.len() && 0 <= j < self.bets@.len() && k != j
                    implies #[trigger] self.bets@[k].user.bytes@
                    != #[trigger] self.bets@[j].user.bytes@ by {
                assert(before.bets@[k].user.bytes@ != before.bets@[j].user.bytes@);
            }
        }
        Ok(payout)
    }
}

/// Whatever sequence of operations a store has gone through, its two
/// revealed pools hold exactly the stakes of its revealed bets, and no more
/// than was committed.
pub proof fn lemma_book_pool_conservation(b: MarketBook)
    requires
        b.wf(),
    ensures
        b.market.yes_pool + b.market.no_pool == revealed_total(b.bets@),
        b.market.yes_pool + b.market.no_pool <= b.market.total_pool,
{
    lemma_pool_conservation(b.market, b.bets@);
}

} // verus!
