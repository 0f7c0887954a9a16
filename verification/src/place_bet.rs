//! Placing a bet on an open pool.
//!
//! A bet is accepted only inside the pool's betting window and only for an
//! option the pool actually offers; all stake accumulation is overflow-checked
//! and a rejected bet mutates nothing. The local entry point and the remote
//! receive path share [`place_bet_core`], so the two paths cannot diverge.

use crate::address::Address;
use crate::state::{
    lemma_sum_bounds, lemma_sum_update, pool_inv, sum_u64, Bet, BetPool, BetPoolV, BetV,
};
use vstd::prelude::*;

verus! {

pub struct PlaceBetParams {
    pub user: Address,
    pub option: u8,
    pub amount: u64,
}

/// Why a bet was rejected.
#[derive(Clone, Copy, PartialEq, Eq, Structural, Debug)]
pub enum PlaceBetError {
    /// The current time lies outside the pool's betting window.
    BettingClosed,
    /// The chosen option index is out of range for this pool.
    InvalidOption,
    /// Accumulating the stake would wrap a counter.
    ArithmeticOverflow,
}

/// The records a bet touches: the pool, the bettor's bet record, and the
/// addresses they live at.
pub struct PlaceBet {
    pub bet_pool: BetPool,
    pub bet_pool_address: Address,
    pub bet: Bet,
    pub user: Address,
}

/// Whether `now` lies inside the betting window of `p`.
pub open spec fn betting_open(p: BetPoolV, now: i64) -> bool {
    p.start_time <= now < p.lock_time
}

/// Whether accepting `amount` on `option` would wrap a counter of `p`.
pub open spec fn place_bet_overflows(p: BetPoolV, option: u8, amount: u64) -> bool {
    ||| p.pool_amount + amount > u64::MAX
    ||| p.option_amounts[option as int] + amount > u64::MAX
    ||| p.unique_bettors + 1 > u64::MAX
}

/// The pool after an accepted bet of `amount` on `option`.
pub open spec fn place_bet_pool(p: BetPoolV, option: u8, amount: u64) -> BetPoolV {
    BetPoolV {
        pool_amount: (p.pool_amount + amount) as u64,
        option_amounts: p.option_amounts.update(
            option as int,
            (p.option_amounts[option as int] + amount) as u64,
        ),
        unique_bettors: (p.unique_bettors + 1) as u64,
        ..p
    }
}

/// An accepted bet preserves the pool invariant.
pub proof fn lemma_place_bet_preserves_inv(p: BetPoolV, option: u8, amount: u64)
    requires
        pool_inv(p),
        (option as int) < p.option_amounts.len(),
        !place_bet_overflows(p, option, amount),
    ensures
        pool_inv(place_bet_pool(p, option, amount)),
{
    lemma_sum_update(
        p.option_amounts,
        option as int,
        (p.option_amounts[option as int] + amount) as u64,
    );
}

/// The one bet-acceptance sequence both the local and the remote path run.
/// The bet's owner — the signing user locally, the message sender remotely —
/// is recorded in both identity fields, so the two paths leave identical
/// records for identical logical inputs.
pub fn place_bet_core(
    pool: &mut BetPool,
    bet: &mut Bet,
    pool_addr: &Address,
    owner: &Address,
    option: u8,
    amount: u64,
    now: i64,
) -> (r: Result<(), PlaceBetError>)
    ensures
        !betting_open(old(pool)@, now) ==> r == Err::<(), PlaceBetError>(
            PlaceBetError::BettingClosed,
        ) && *final(pool) == *old(pool) && *final(bet) == *old(bet),
        betting_open(old(pool)@, now) && (option as int) >= old(pool)@.option_amounts.len() ==> r
            == Err::<(), PlaceBetError>(PlaceBetError::InvalidOption) && *final(pool) == *old(pool)
            && *final(bet) == *old(bet),
        betting_open(old(pool)@, now) && (option as int) < old(pool)@.option_amounts.len()
            && place_bet_overflows(old(pool)@, option, amount) ==> r == Err::<(), PlaceBetError>(
            PlaceBetError::ArithmeticOverflow,
        ) && *final(pool) == *old(pool) && *final(bet) == *old(bet),
        betting_open(old(pool)@, now) && (option as int) < old(pool)@.option_amounts.len()
            && !place_bet_overflows(old(pool)@, option, amount) ==> {
            &&& r == Ok::<(), PlaceBetError>(())
            &&& final(pool)@ == place_bet_pool(old(pool)@, option, amount)
            &&& final(bet)@ == (BetV {
                authority: owner@,
                user: owner@,
                pool: pool_addr@,
                option: option,
                amount: amount,
                claimed: false,
                bump: old(bet)@.bump,
            })
        },
{
    if !(now >= pool.start_time && now < pool.lock_time) {
        return Err(PlaceBetError::BettingClosed);
    }
    if !((option as usize) < pool.option_amounts.len()) {
        return Err(PlaceBetError::InvalidOption);
    }
    let cur = pool.option_amounts[option as usize];
    if pool.pool_amount > u64::MAX - amount || cur > u64::MAX - amount || pool.unique_bettors
        == u64::MAX {
        return Err(PlaceBetError::ArithmeticOverflow);
    }
    pool.pool_amount = pool.pool_amount + amount;
    pool.option_amounts[option as usize] = cur + amount;
    pool.unique_bettors = pool.unique_bettors + 1;
    bet.authority = *owner;
    bet.user = *owner;
    bet.pool = *pool_addr;
    bet.option = option;
    bet.amount = amount;
    bet.claimed = false;
    Ok(())
}

impl PlaceBet {
    /// Accept a bet by the signing user, or reject it without mutating
    /// anything.
    pub fn apply(&mut self, params: &PlaceBetParams, now: i64) -> (r: Result<(), PlaceBetError>)
        ensures
            !betting_open(old(self).bet_pool@, now) ==> r == Err::<(), PlaceBetError>(
                PlaceBetError::BettingClosed,
            ) && *final(self) == *old(self),
            betting_open(old(self).bet_pool@, now) && (params.option as int) >= old(
                self,
            ).bet_pool@.option_amounts.len() ==> r == Err::<(), PlaceBetError>(
                PlaceBetError::InvalidOption,
            ) && *final(self) == *old(self),
            betting_open(old(self).bet_pool@, now) && (params.option as int) < old(
                self,
            ).bet_pool@.option_amounts.len() && place_bet_overflows(
                old(self).bet_pool@,
                params.option,
                params.amount,
            ) ==> r == Err::<(), PlaceBetError>(PlaceBetError::ArithmeticOverflow) && *final(self)
                == *old(self),
            betting_open(old(self).bet_pool@, now) && (params.option as int) < old(
                self,
            ).bet_pool@.option_amounts.len() && !place_bet_overflows(
                old(self).bet_pool@,
                params.option,
                params.amount,
            ) ==> {
                &&& r == Ok::<(), PlaceBetError>(())
                &&& final(self).bet_pool@ == place_bet_pool(
                    old(self).bet_pool@,
                    params.option,
                    params.amount,
                )
                &&& final(self).bet@ == (BetV {
                    authority: old(self).user@,
                    user: old(self).user@,
                    pool: old(self).bet_pool_address@,
                    option: params.option,
                    amount: params.amount,
                    claimed: false,
                    bump: old(self).bet@.bump,
                })
                &&& final(self).bet_pool_address == old(self).bet_pool_address
                &&& final(self).user == old(self).user
            },
    {
        let user = self.user;
        place_bet_core(
            &mut self.bet_pool,
            &mut self.bet,
            &self.bet_pool_address,
            &user,
            params.option,
            params.amount,
            now,
        )
    }
}

/// The pool after a whole sequence of accepted bets, each given as
/// (option, amount).
pub open spec fn apply_bets(p: BetPoolV, bets: Seq<(u8, u64)>) -> BetPoolV
    decreases bets.len(),
{
    if bets.len() == 0 {
        p
    } else {
        apply_bets(place_bet_pool(p, bets.first().0, bets.first().1), bets.drop_first())
    }
}

/// The total staked by a sequence of bets.
pub open spec fn sum_amounts(bets: Seq<(u8, u64)>) -> int
    decreases bets.len(),
{
    if bets.len() == 0 {
        0
    } else {
        bets.first().1 + sum_amounts(bets.drop_first())
    }
}

/// The total staked on one option by a sequence of bets.
pub open spec fn sum_for_option(bets: Seq<(u8, u64)>, i: int) -> int
    decreases bets.len(),
{
    if bets.len() == 0 {
        0
    } else {
        (if bets.first().0 as int == i {
            bets.first().1 as int
        } else {
            0
        }) + sum_for_option(bets.drop_first(), i)
    }
}

pub proof fn lemma_sum_for_option_le_sum_amounts(bets: Seq<(u8, u64)>, i: int)
    ensures
        0 <= sum_for_option(bets, i) <= sum_amounts(bets),
    decreases bets.len(),
{
    if bets.len() > 0 {
        lemma_sum_for_option_le_sum_amounts(bets.drop_first(), i);
    }
}

/// Accounting: after any sequence of accepted bets, the pool amount has grown
/// by the total staked, and each option's stake by the total staked on it.
pub proof fn lemma_pool_accounting(p: BetPoolV, bets: Seq<(u8, u64)>)
    requires
        sum_u64(p.option_amounts) == p.pool_amount,
        forall|k: int| 0 <= k < bets.len() ==> (#[trigger] bets[k].0 as int)
            < p.option_amounts.len(),
        p.pool_amount + sum_amounts(bets) <= u64::MAX,
        p.unique_bettors + bets.len() <= u64::MAX,
    ensures
        apply_bets(p, bets).option_amounts.len() == p.option_amounts.len(),
        apply_bets(p, bets).pool_amount == p.pool_amount + sum_amounts(bets),
        apply_bets(p, bets).unique_bettors == p.unique_bettors + bets.len(),
        forall|i: int|
            0 <= i < p.option_amounts.len() ==> apply_bets(p, bets).option_amounts[i]
                == p.option_amounts[i] + sum_for_option(bets, i),
    decreases bets.len(),
{
    if bets.len() > 0 {
        let option = bets.first().0;
        let amount = bets.first().1;
        let rest = bets.drop_first();
        lemma_sum_for_option_le_sum_amounts(rest, option as int);
        lemma_sum_amounts_nonneg(rest);
        lemma_sum_bounds(p.option_amounts, option as int);
        let q = place_bet_pool(p, option, amount);
        lemma_sum_update(
            p.option_amounts,
            option as int,
            (p.option_amounts[option as int] + amount) as u64,
        );
        assert(forall|k: int| 0 <= k < rest.len() ==> rest[k] == bets[k + 1]);
        lemma_pool_accounting(q, rest);
        assert forall|i: int| 0 <= i < p.option_amounts.len() implies apply_bets(
            p,
            bets,
        ).option_amounts[i] == p.option_amounts[i] + sum_for_option(bets, i) by {
            lemma_sum_for_option_le_sum_amounts(rest, i);
        }
    }
}

/// Accounting from creation: on a freshly created pool, any sequence of
/// accepted bets leaves the pool amount at the total staked, each option's
/// stake at the total staked on that option, and the bettor counter at the
/// number of bets.
pub proof fn lemma_fresh_pool_accounting(
    pool_id: u64,
    creator: Seq<u8>,
    question: Seq<char>,
    n_options: int,
    start_time: i64,
    lock_time: i64,
    end_time: i64,
    bets: Seq<(u8, u64)>,
)
    requires
        0 <= n_options,
        forall|k: int| 0 <= k < bets.len() ==> (#[trigger] bets[k].0 as int) < n_options,
        sum_amounts(bets) <= u64::MAX,
        bets.len() <= u64::MAX,
    ensures
        apply_bets(
            crate::create_pool::fresh_pool(
                pool_id,
                creator,
                question,
                n_options,
                start_time,
                lock_time,
                end_time,
            ),
            bets,
        ).pool_amount == sum_amounts(bets),
        forall|i: int|
            0 <= i < n_options ==> apply_bets(
                crate::create_pool::fresh_pool(
                    pool_id,
                    creator,
                    question,
                    n_options,
                    start_time,
                    lock_time,
                    end_time,
                ),
                bets,
            ).option_amounts[i] == sum_for_option(bets, i),
        apply_bets(
            crate::create_pool::fresh_pool(
                pool_id,
                creator,
                question,
                n_options,
                start_time,
                lock_time,
                end_time,
            ),
            bets,
        ).unique_bettors == bets.len(),
{
    let p = crate::create_pool::fresh_pool(
        pool_id,
        creator,
        question,
        n_options,
        start_time,
        lock_time,
        end_time,
    );
    crate::state::lemma_sum_all_zero(p.option_amounts);
    lemma_sum_amounts_nonneg(bets);
    lemma_pool_accounting(p, bets);
}

pub proof fn lemma_sum_amounts_nonneg(bets: Seq<(u8, u64)>)
    ensures
        0 <= sum_amounts(bets),
    decreases bets.len(),
{
    if bets.len() > 0 {
        lemma_sum_amounts_nonneg(bets.drop_first());
    }
}

} // verus!
