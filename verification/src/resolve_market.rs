//! Resolving a market pool.
//!
//! A pool can be resolved only after its end time, only once, and only to an
//! option it actually offers. Resolution is terminal: a second attempt is
//! rejected rather than overwriting the recorded result.

use crate::address::Address;
use crate::state::{pool_inv, BetPool, BetPoolV, PoolStatus};
use vstd::prelude::*;

verus! {

pub struct ResolveMarketParams {
    pub winning_option: u8,
}

/// Why a resolution was rejected.
#[derive(Clone, Copy, PartialEq, Eq, Structural, Debug)]
pub enum ResolveMarketError {
    /// The pool's end time has not been reached yet.
    MarketNotEnded,
    /// The pool already carries a result.
    ResultAlreadySet,
    /// The winning option index is out of range for this pool.
    InvalidOption,
}

/// The records a resolution touches: the pool and its resolving creator.
pub struct ResolveMarket {
    pub bet_pool: BetPool,
    pub creator: Address,
}

/// The pool after a successful resolution to `winning_option`.
pub open spec fn resolved_pool(p: BetPoolV, winning_option: u8) -> BetPoolV {
    BetPoolV {
        status: PoolStatus::Resolved,
        winning_option: winning_option,
        is_result_set: true,
        result: winning_option,
        ..p
    }
}

/// A successful resolution preserves the pool invariant.
pub proof fn lemma_resolve_preserves_inv(p: BetPoolV, winning_option: u8)
    requires
        pool_inv(p),
        (winning_option as int) < p.option_amounts.len(),
    ensures
        pool_inv(resolved_pool(p, winning_option)),
{
}

impl ResolveMarket {
    /// Record the winning option once the market has ended; never overwrite
    /// an already-set result.
    pub fn apply(&mut self, params: &ResolveMarketParams, now: i64) -> (r: Result<
        (),
        ResolveMarketError,
    >)
        ensures
            now < old(self).bet_pool@.end_time ==> r == Err::<(), ResolveMarketError>(
                ResolveMarketError::MarketNotEnded,
            ) && *final(self) == *old(self),
            now >= old(self).bet_pool@.end_time && old(self).bet_pool@.is_result_set ==> r
                == Err::<(), ResolveMarketError>(ResolveMarketError::ResultAlreadySet)
                && *final(self) == *old(self),
            now >= old(self).bet_pool@.end_time && !old(self).bet_pool@.is_result_set && (
            params.winning_option as int) >= old(self).bet_pool@.option_amounts.len() ==> r
                == Err::<(), ResolveMarketError>(ResolveMarketError::InvalidOption) && *final(self)
                == *old(self),
            now >= old(self).bet_pool@.end_time && !old(self).bet_pool@.is_result_set && (
            params.winning_option as int) < old(self).bet_pool@.option_amounts.len() ==> {
                &&& r == Ok::<(), ResolveMarketError>(())
                &&& final(self).bet_pool@ == resolved_pool(
                    old(self).bet_pool@,
                    params.winning_option,
                )
                &&& final(self).creator == old(self).creator
            },
    {
        if now < self.bet_pool.end_time {
            return Err(ResolveMarketError::MarketNotEnded);
        }
        if self.bet_pool.is_result_set {
            return Err(ResolveMarketError::ResultAlreadySet);
        }
        if !((params.winning_option as usize) < self.bet_pool.option_amounts.len()) {
            return Err(ResolveMarketError::InvalidOption);
        }
        self.bet_pool.status = PoolStatus::Resolved;
        self.bet_pool.winning_option = params.winning_option;
        self.bet_pool.is_result_set = true;
        self.bet_pool.result = params.winning_option;
        Ok(())
    }
}

} // verus!
