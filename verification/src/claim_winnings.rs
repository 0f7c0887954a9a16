//! Claiming the winnings of a bet.
//!
//! A claim is accepted only on a resolved pool carrying a result, only for a
//! bet that actually belongs to that pool, and only once per bet: the claimed
//! flag is terminal. The transfer of winnings itself is outside the current
//! behaviour; a successful claim records the fact and nothing else.

use crate::address::Address;
use crate::state::{Bet, BetPool, BetV, PoolStatus};
use vstd::prelude::*;

verus! {

pub struct ClaimWinningsParams {}

/// Why a claim was rejected.
#[derive(Clone, Copy, PartialEq, Eq, Structural, Debug)]
pub enum ClaimWinningsError {
    /// The pool carries no result yet.
    ResultNotSet,
    /// The pool is not in the resolved state.
    MarketNotResolved,
    /// The bet does not belong to this pool.
    InvalidBet,
    /// The bet's winnings were already claimed.
    AlreadyClaimed,
}

/// The records a claim touches: the resolved pool, its address, the bet and
/// the claiming user.
pub struct ClaimWinnings {
    pub bet_pool: BetPool,
    pub bet_pool_address: Address,
    pub bet: Bet,
    pub user: Address,
}

impl ClaimWinnings {
    /// Mark the bet claimed, or reject the claim without mutating anything.
    pub fn apply(&mut self, _params: &ClaimWinningsParams) -> (r: Result<(), ClaimWinningsError>)
        ensures
            !old(self).bet_pool@.is_result_set ==> r == Err::<(), ClaimWinningsError>(
                ClaimWinningsError::ResultNotSet,
            ) && *final(self) == *old(self),
            old(self).bet_pool@.is_result_set && old(self).bet_pool@.status
                != PoolStatus::Resolved ==> r == Err::<(), ClaimWinningsError>(
                ClaimWinningsError::MarketNotResolved,
            ) && *final(self) == *old(self),
            old(self).bet_pool@.is_result_set && old(self).bet_pool@.status == PoolStatus::Resolved
                && old(self).bet@.pool != old(self).bet_pool_address@ ==> r == Err::<
                (),
                ClaimWinningsError,
            >(ClaimWinningsError::InvalidBet) && *final(self) == *old(self),
            old(self).bet_pool@.is_result_set && old(self).bet_pool@.status == PoolStatus::Resolved
                && old(self).bet@.pool == old(self).bet_pool_address@ && old(self).bet@.claimed
                ==> r == Err::<(), ClaimWinningsError>(ClaimWinningsError::AlreadyClaimed)
                && *final(self) == *old(self),
            old(self).bet_pool@.is_result_set && old(self).bet_pool@.status == PoolStatus::Resolved
                && old(self).bet@.pool == old(self).bet_pool_address@ && !old(self).bet@.claimed
                ==> {
                &&& r == Ok::<(), ClaimWinningsError>(())
                &&& final(self).bet@ == (BetV { claimed: true, ..old(self).bet@ })
                &&& final(self).bet_pool == old(self).bet_pool
                &&& final(self).bet_pool_address == old(self).bet_pool_address
                &&& final(self).user == old(self).user
            },
    {
        if !self.bet_pool.is_result_set {
            return Err(ClaimWinningsError::ResultNotSet);
        }
        if !(self.bet_pool.status == PoolStatus::Resolved) {
            return Err(ClaimWinningsError::MarketNotResolved);
        }
        if !(self.bet.pool == self.bet_pool_address) {
            return Err(ClaimWinningsError::InvalidBet);
        }
        if self.bet.claimed {
            return Err(ClaimWinningsError::AlreadyClaimed);
        }
        self.bet.claimed = true;
        Ok(())
    }
}

} // verus!
