//! The addressed records of the market: the singleton store, the per-remote
//! peer configuration, the market pools and the bets, together with the
//! invariants every successful transition preserves.

use crate::address::Address;
use vstd::prelude::*;

verus! {

/// The process-wide singleton record: admin identity, transport endpoint
/// reference and the monotonically increasing pool counter.
#[derive(Clone, Copy, PartialEq, Eq, Debug)]
pub struct Store {
    pub admin: Address,
    pub bump: u8,
    pub endpoint_program: Address,
    pub pools_count: u64,
}

/// The per-(store, remote chain) record naming the single trusted remote
/// sender. It is read-only for this crate; the administrative path writes it.
#[derive(Clone, Copy, PartialEq, Eq, Debug)]
pub struct PeerConfig {
    pub peer_address: Address,
    pub bump: u8,
}

/// The record the executor of the transport reads to locate the store before
/// asking which accounts an inbound message needs.
#[derive(Clone, Copy)]
pub struct LzReceiveTypesAccounts {
    pub store: Address,
}

/// The lifecycle of a market pool. `Closed` is listed for wire and storage
/// compatibility; the current transitions only ever store `Open` and
/// `Resolved`, the betting window being enforced procedurally.
#[derive(Clone, Copy, PartialEq, Eq, Structural, Debug)]
pub enum PoolStatus {
    Open,
    Closed,
    Resolved,
}

/// A market pool record.
#[derive(Clone, PartialEq, Debug)]
pub struct BetPool {
    pub id: u64,
    pub creator: Address,
    pub question: String,
    pub status: PoolStatus,
    pub winning_option: u8,
    pub start_time: i64,
    pub lock_time: i64,
    pub end_time: i64,
    pub unique_bettors: u64,
    pub pool_amount: u64,
    pub option_amounts: Vec<u64>,
    pub is_result_set: bool,
    pub result: u8,
    pub bump: u8,
}

/// The mathematical image of a [`BetPool`].
pub ghost struct BetPoolV {
    pub id: u64,
    pub creator: Seq<u8>,
    pub question: Seq<char>,
    pub status: PoolStatus,
    pub winning_option: u8,
    pub start_time: i64,
    pub lock_time: i64,
    pub end_time: i64,
    pub unique_bettors: u64,
    pub pool_amount: u64,
    pub option_amounts: Seq<u64>,
    pub is_result_set: bool,
    pub result: u8,
    pub bump: u8,
}

impl View for BetPool {
    type V = BetPoolV;

    open spec fn view(&self) -> BetPoolV {
        BetPoolV {
            id: self.id,
            creator: self.creator@,
            question: self.question@,
            status: self.status,
            winning_option: self.winning_option,
            start_time: self.start_time,
            lock_time: self.lock_time,
            end_time: self.end_time,
            unique_bettors: self.unique_bettors,
            pool_amount: self.pool_amount,
            option_amounts: self.option_amounts@,
            is_result_set: self.is_result_set,
            result: self.result,
            bump: self.bump,
        }
    }
}

/// A bet record: one owner's stake in one pool. Both identity fields record
/// the owner — the signing user locally, the message sender remotely — so the
/// two paths leave identical records for identical logical inputs.
#[derive(Clone, Copy, PartialEq, Eq, Debug)]
pub struct Bet {
    pub authority: Address,
    pub user: Address,
    pub pool: Address,
    pub option: u8,
    pub amount: u64,
    pub claimed: bool,
    pub bump: u8,
}

/// The mathematical image of a [`Bet`].
pub ghost struct BetV {
    pub authority: Seq<u8>,
    pub user: Seq<u8>,
    pub pool: Seq<u8>,
    pub option: u8,
    pub amount: u64,
    pub claimed: bool,
    pub bump: u8,
}

impl View for Bet {
    type V = BetV;

    open spec fn view(&self) -> BetV {
        BetV {
            authority: self.authority@,
            user: self.user@,
            pool: self.pool@,
            option: self.option,
            amount: self.amount,
            claimed: self.claimed,
            bump: self.bump,
        }
    }
}

/// The sum of a sequence of stakes, as an unbounded integer.
pub open spec fn sum_u64(s: Seq<u64>) -> int
    decreases s.len(),
{
    if s.len() == 0 {
        0
    } else {
        s[0] + sum_u64(s.drop_first())
    }
}

/// The invariant of every stored pool: the per-option stakes account for the
/// whole pool amount, and a recorded result is consistent and in range.
pub open spec fn pool_inv(p: BetPoolV) -> bool {
    &&& sum_u64(p.option_amounts) == p.pool_amount
    &&& (p.is_result_set ==> {
        &&& p.status == PoolStatus::Resolved
        &&& p.result == p.winning_option
        &&& (p.winning_option as int) < p.option_amounts.len()
    })
}

pub proof fn lemma_sum_all_zero(s: Seq<u64>)
    requires
        forall|k: int| 0 <= k < s.len() ==> s[k] == 0,
    ensures
        sum_u64(s) == 0,
    decreases s.len(),
{
    if s.len() > 0 {
        lemma_sum_all_zero(s.drop_first());
    }
}

/// Every single stake is bounded by the sum of all of them.
pub proof fn lemma_sum_bounds(s: Seq<u64>, i: int)
    requires
        0 <= i < s.len(),
    ensures
        0 <= sum_u64(s),
        s[i] <= sum_u64(s),
    decreases s.len(),
{
    lemma_sum_nonneg(s.drop_first());
    if i == 0 {
    } else {
        lemma_sum_bounds(s.drop_first(), i - 1);
    }
}

pub proof fn lemma_sum_nonneg(s: Seq<u64>)
    ensures
        0 <= sum_u64(s),
    decreases s.len(),
{
    if s.len() > 0 {
        lemma_sum_nonneg(s.drop_first());
    }
}

/// Raising one stake raises the sum by the same difference.
pub proof fn lemma_sum_update(s: Seq<u64>, i: int, v: u64)
    requires
        0 <= i < s.len(),
    ensures
        sum_u64(s.update(i, v)) == sum_u64(s) - s[i] + v,
    decreases s.len(),
{
    if i == 0 {
        assert(s.update(0, v).drop_first() =~= s.drop_first());
    } else {
        assert(s.update(i, v).drop_first() =~= s.drop_first().update(i - 1, v));
        lemma_sum_update(s.drop_first(), i - 1, v);
    }
}

} // verus!
