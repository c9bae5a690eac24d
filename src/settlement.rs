//! Pari-mutuel payout arithmetic.
use vstd::prelude::*;

verus! {

/// A winner's part of the losing pool: `floor(bet * losing / winning)`, or
/// nothing when the winning pool is empty.
pub open spec fn share_of_losers(bet: int, winning_pool: int, losing_pool: int) -> int {
    if winning_pool > 0 {
        bet * losing_pool / winning_pool
    } else {
        0
    }
}

/// What a winner is paid: the stake back plus a share of the losing pool.
pub open spec fn payout_of(bet: int, winning_pool: int, losing_pool: int) -> int {
    bet + share_of_losers(bet, winning_pool, losing_pool)
}

/// The payout of a winning stake of `bet` against the two pools, or `None`
/// when it does not fit in a `u64`. The product is taken in 128 bits, so only
/// the final narrowing can fail.
pub fn compute_payout(bet: u64, winning_pool: u64, losing_pool: u64) -> (r: Option<u64>)
    ensures
        r == (if payout_of(bet as int, winning_pool as int, losing_pool as int) <= u64::MAX {
            Some(payout_of(bet as int, winning_pool as int, losing_pool as int) as u64)
        } else {
            None::<u64>
        }),
{
    let share: u128 = if winning_pool > 0 {
        let b = bet as u128;
        let l = losing_pool as u128;
        assert(b * l <= u64::MAX * u64::MAX) by (nonlinear_arith)
            requires
                b <= u64::MAX,
                l <= u64::MAX,
        ;
        let product: u128 = b * l;
        proof {
            vstd::arithmetic::div_mod::lemma_div_is_ordered_by_denominator(
                product as int,
                1,
                winning_pool as int,
            );
        }
        product / (winning_pool as u128)
    } else {
        0
    };
    let total: u128 = bet as u128 + share;
    if total > u64::MAX as u128 {
        None
    } else {
        Some(total as u64)
    }
}

} // verus!
