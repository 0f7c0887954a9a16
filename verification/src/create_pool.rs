//! Creating a market pool.
//!
//! Creation is idempotent and never destructive: a pool record that already
//! exists is left untouched, so a retried or re-delivered creation cannot
//! reset accumulated bets. The local entry point and the remote receive path
//! share [`create_pool_core`], so the two paths cannot diverge.

use crate::address::Address;
use crate::state::{lemma_sum_all_zero, pool_inv, BetPool, BetPoolV, PoolStatus, Store};
use vstd::prelude::*;

verus! {

pub struct CreatePoolParams {
    pub question: String,
    pub options: Vec<String>,
    pub start_time: i64,
    pub lock_time: i64,
    pub end_time: i64,
    pub pool_id: u64,
}

/// Why a creation was rejected.
#[derive(Clone, Copy, PartialEq, Eq, Structural, Debug)]
pub enum CreatePoolError {
    /// The store's pool counter cannot be incremented without wrapping.
    ArithmeticOverflow,
}

/// The records a pool creation touches: the pool slot at its derived address
/// (empty until first creation) and the store whose counter it increments.
pub struct CreatePool {
    pub bet_pool: Option<BetPool>,
    pub creator: Address,
    pub store: Store,
}

/// The value of a freshly created pool: open, zero-filled stakes, no result.
pub open spec fn fresh_pool(
    pool_id: u64,
    creator: Seq<u8>,
    question: Seq<char>,
    n_options: int,
    start_time: i64,
    lock_time: i64,
    end_time: i64,
) -> BetPoolV {
    BetPoolV {
        id: pool_id,
        creator: creator,
        question: question,
        status: PoolStatus::Open,
        winning_option: 0,
        start_time: start_time,
        lock_time: lock_time,
        end_time: end_time,
        unique_bettors: 0,
        pool_amount: 0,
        option_amounts: Seq::new(n_options as nat, |i: int| 0u64),
        is_result_set: false,
        result: 0,
        bump: 0,
    }
}

/// A fresh pool satisfies the pool invariant.
pub proof fn lemma_fresh_pool_inv(
    pool_id: u64,
    creator: Seq<u8>,
    question: Seq<char>,
    n_options: int,
    start_time: i64,
    lock_time: i64,
    end_time: i64,
)
    ensures
        pool_inv(fresh_pool(pool_id, creator, question, n_options, start_time, lock_time, end_time)),
{
    lemma_sum_all_zero(
        fresh_pool(
            pool_id,
            creator,
            question,
            n_options,
            start_time,
            lock_time,
            end_time,
        ).option_amounts,
    );
}

/// The one creation sequence both the local and the remote path run.
///
/// An already-present pool record is left exactly as it is; an absent one is
/// created at its fresh value and the store's counter is incremented, unless
/// the counter would wrap.
pub fn create_pool_core(
    bet_pool: &mut Option<BetPool>,
    store: &mut Store,
    creator: &Address,
    question: String,
    n_options: usize,
    pool_id: u64,
    start_time: i64,
    lock_time: i64,
    end_time: i64,
) -> (r: Result<(), CreatePoolError>)
    ensures
        (*old(bet_pool)) is Some ==> r == Ok::<(), CreatePoolError>(()) && *final(bet_pool) == *old(
            bet_pool,
        ) && *final(store) == *old(store),
        (*old(bet_pool)) is None && old(store).pools_count == u64::MAX ==> r == Err::<
            (),
            CreatePoolError,
        >(CreatePoolError::ArithmeticOverflow) && *final(bet_pool) == *old(bet_pool)
            && *final(store) == *old(store),
        (*old(bet_pool)) is None && old(store).pools_count < u64::MAX ==> {
            &&& r == Ok::<(), CreatePoolError>(())
            &&& (*final(bet_pool)) matches Some(p) && p@ == fresh_pool(
                pool_id,
                creator@,
                question@,
                n_options as int,
                start_time,
                lock_time,
                end_time,
            )
            &&& *final(store) == (Store { pools_count: (old(store).pools_count + 1) as u64, ..*old(
                store,
            ) })
        },
{
    if bet_pool.is_some() {
        return Ok(());
    }
    if store.pools_count == u64::MAX {
        return Err(CreatePoolError::ArithmeticOverflow);
    }
    let option_amounts: Vec<u64> = vec![0u64; n_options];
    let pool = BetPool {
        id: pool_id,
        creator: *creator,
        question,
        status: PoolStatus::Open,
        winning_option: 0,
        start_time,
        lock_time,
        end_time,
        unique_bettors: 0,
        pool_amount: 0,
        option_amounts,
        is_result_set: false,
        result: 0,
        bump: 0,
    };
    proof {
        assert(pool@.option_amounts =~= Seq::new(n_options as nat, |i: int| 0u64));
    }
    *bet_pool = Some(pool);
    store.pools_count = store.pools_count + 1;
    Ok(())
}

impl CreatePool {
    /// Create the pool `pool_id` if its record is absent; never reinitialize
    /// an existing one.
    pub fn apply(&mut self, params: &CreatePoolParams, pool_id: u64) -> (r: Result<
        (),
        CreatePoolError,
    >)
        ensures
            old(self).bet_pool is Some ==> r == Ok::<(), CreatePoolError>(()) && *final(self)
                == *old(self),
            old(self).bet_pool is None && old(self).store.pools_count == u64::MAX ==> r == Err::<
                (),
                CreatePoolError,
            >(CreatePoolError::ArithmeticOverflow) && *final(self) == *old(self),
            old(self).bet_pool is None && old(self).store.pools_count < u64::MAX ==> {
                &&& r == Ok::<(), CreatePoolError>(())
                &&& final(self).bet_pool matches Some(p) && p@ == fresh_pool(
                    pool_id,
                    old(self).creator@,
                    params.question@,
                    params.options@.len() as int,
                    params.start_time,
                    params.lock_time,
                    params.end_time,
                )
                &&& final(self).store == (Store {
                    pools_count: (old(self).store.pools_count + 1) as u64,
                    ..old(self).store
                })
                &&& final(self).creator == old(self).creator
            },
    {
        create_pool_core(
            &mut self.bet_pool,
            &mut self.store,
            &self.creator,
            params.question.clone(),
            params.options.len(),
            pool_id,
            params.start_time,
            params.lock_time,
            params.end_time,
        )
    }
}

} // verus!
