//! The mutating path of the receive pipeline.
//!
//! A delivered message reaches this module only after the transport's replay
//! guard has cleared its (source chain, sender, sequence number) triple, so
//! every call here is already deduplicated. The payload is decoded and the
//! event applied to the handed-in records as one atomic transition: a
//! rejected event mutates nothing. Pool creation and bet placement run the
//! very same cores as the local entry points; the remote forms of market
//! resolution and claiming are deliberately inert, mirroring current
//! behaviour until parity is confirmed.
//!
//! The lemmas at the bottom hold this path's write set to the account list
//! enumerated by the resolver: what gets mutated here is listed as writable
//! there, exactly, up to the paying placeholder.

use crate::address::{spec_bet_address, spec_peer_address, spec_pool_address, zero_address, Address};
use crate::create_pool::{create_pool_core, fresh_pool, CreatePoolError};
use crate::lz_receive_types::{resolver_accounts, LzAccountV, LzReceiveParams};
use crate::msg_codec::{decode_betlify_message, decode_message, BetlifyMessage, BetlifyMessageV};
use crate::place_bet::{betting_open, place_bet_core, place_bet_overflows, place_bet_pool, PlaceBetError};
use crate::state::{Bet, BetPool, BetV, PeerConfig, Store};
use vstd::prelude::*;

verus! {

/// Why an inbound message was rejected.
#[derive(Clone, Copy, PartialEq, Eq, Structural, Debug)]
pub enum BetlifyError {
    /// The payload is not the encoding of any event.
    InvalidMessage,
    /// A bet arrived for a pool whose record does not exist.
    MissingPoolAccount,
    /// The current time lies outside the pool's betting window.
    BettingClosed,
    /// The chosen option index is out of range for this pool.
    InvalidOption,
    /// Accumulating a stake or counter would wrap.
    ArithmeticOverflow,
}

/// The records an inbound message may touch, together with the addresses the
/// runtime located them at. The peer record is the trust anchor: the caller
/// must already have checked that the message's sender is the configured
/// peer for its source chain. The payer only funds record creation; the
/// logical creator and bet owner is always the message's sender, exactly as
/// the local entry points record their signer.
pub struct LzReceive {
    pub payer: Address,
    pub peer: PeerConfig,
    pub store: Store,
    pub store_address: Address,
    pub bet_pool: Option<BetPool>,
    pub bet_pool_address: Address,
    pub bet: Bet,
}

impl LzReceive {
    /// Decode the delivered payload and apply it to the records as one
    /// atomic, typed transition. The sequence number of `params` must
    /// already have been cleared by the transport's replay guard.
    pub fn apply(&mut self, params: &LzReceiveParams, now: i64) -> (r: Result<(), BetlifyError>)
        ensures
            final(self).payer == old(self).payer,
            final(self).peer == old(self).peer,
            final(self).store_address == old(self).store_address,
            final(self).bet_pool_address == old(self).bet_pool_address,
            decode_message(params.message@) is None ==> r == Err::<(), BetlifyError>(
                BetlifyError::InvalidMessage,
            ) && *final(self) == *old(self),
            (decode_message(params.message@) matches Some(
                BetlifyMessageV::CreatePool {
                    question,
                    options,
                    pool_id,
                    start_time,
                    lock_time,
                    end_time,
                },
            ) ==> {
                &&& old(self).bet_pool is Some ==> r == Ok::<(), BetlifyError>(()) && *final(self)
                    == *old(self)
                &&& old(self).bet_pool is None && old(self).store.pools_count == u64::MAX ==> r
                    == Err::<(), BetlifyError>(BetlifyError::ArithmeticOverflow) && *final(self)
                    == *old(self)
                &&& old(self).bet_pool is None && old(self).store.pools_count < u64::MAX ==> {
                    &&& r == Ok::<(), BetlifyError>(())
                    &&& final(self).bet_pool matches Some(p) && p@ == fresh_pool(
                        pool_id,
                        params.sender@,
                        question,
                        options.len() as int,
                        start_time,
                        lock_time,
                        end_time,
                    )
                    &&& final(self).store == (Store {
                        pools_count: (old(self).store.pools_count + 1) as u64,
                        ..old(self).store
                    })
                    &&& final(self).bet == old(self).bet
                }
            }),
            (decode_message(params.message@) matches Some(
                BetlifyMessageV::PlaceBet { pool_id, option, amount },
            ) ==> {
                &&& old(self).bet_pool is None ==> r == Err::<(), BetlifyError>(
                    BetlifyError::MissingPoolAccount,
                ) && *final(self) == *old(self)
                &&& (old(self).bet_pool matches Some(pool) ==> {
                    &&& !betting_open(pool@, now) ==> r == Err::<(), BetlifyError>(
                        BetlifyError::BettingClosed,
                    ) && *final(self) == *old(self)
                    &&& betting_open(pool@, now) && (option as int)
                        >= pool@.option_amounts.len() ==> r == Err::<(), BetlifyError>(
                        BetlifyError::InvalidOption,
                    ) && *final(self) == *old(self)
                    &&& betting_open(pool@, now) && (option as int) < pool@.option_amounts.len()
                        && place_bet_overflows(pool@, option, amount) ==> r == Err::<
                        (),
                        BetlifyError,
                    >(BetlifyError::ArithmeticOverflow) && *final(self) == *old(self)
                    &&& betting_open(pool@, now) && (option as int) < pool@.option_amounts.len()
                        && !place_bet_overflows(pool@, option, amount) ==> {
                        &&& r == Ok::<(), BetlifyError>(())
                        &&& final(self).bet_pool matches Some(q) && q@ == place_bet_pool(
                            pool@,
                            option,
                            amount,
                        )
                        &&& final(self).bet@ == (BetV {
                            authority: params.sender@,
                            user: params.sender@,
                            pool: old(self).bet_pool_address@,
                            option: option,
                            amount: amount,
                            claimed: false,
                            bump: old(self).bet@.bump,
                        })
                        &&& final(self).store == old(self).store
                    }
                })
            }),
            (decode_message(params.message@) matches Some(BetlifyMessageV::ResolveMarket { .. })
                ==> r == Ok::<(), BetlifyError>(()) && *final(self) == *old(self)),
            (decode_message(params.message@) matches Some(BetlifyMessageV::ClaimWinnings { .. })
                ==> r == Ok::<(), BetlifyError>(()) && *final(self) == *old(self)),
            final(self).store != old(self).store ==> decode_message(params.message@) matches Some(
                BetlifyMessageV::CreatePool { .. },
            ),
            final(self).bet_pool != old(self).bet_pool ==> (decode_message(params.message@)
                matches Some(BetlifyMessageV::CreatePool { .. }) || decode_message(params.message@)
                matches Some(BetlifyMessageV::PlaceBet { .. })),
            final(self).bet != old(self).bet ==> decode_message(params.message@) matches Some(
                BetlifyMessageV::PlaceBet { .. },
            ),
    {
        let decoded = match decode_betlify_message(params.message.as_slice()) {
            Ok(m) => m,
            Err(_) => {
                return Err(BetlifyError::InvalidMessage);
            },
        };
        match decoded {
            BetlifyMessage::CreatePool {
                question,
                options,
                pool_id,
                start_time,
                lock_time,
                end_time,
            } => {
                match create_pool_core(
                    &mut self.bet_pool,
                    &mut self.store,
                    &params.sender,
                    question,
                    options.len(),
                    pool_id,
                    start_time,
                    lock_time,
                    end_time,
                ) {
                    Ok(()) => Ok(()),
                    Err(CreatePoolError::ArithmeticOverflow) => Err(
                        BetlifyError::ArithmeticOverflow,
                    ),
                }
            },
            BetlifyMessage::PlaceBet { pool_id: _, option, amount } => {
                let pool_opt = self.bet_pool.take();
                match pool_opt {
                    None => Err(BetlifyError::MissingPoolAccount),
                    Some(mut pool) => {
                        let r = place_bet_core(
                            &mut pool,
                            &mut self.bet,
                            &self.bet_pool_address,
                            &params.sender,
                            option,
                            amount,
                            now,
                        );
                        self.bet_pool = Some(pool);
                        match r {
                            Ok(()) => Ok(()),
                            Err(PlaceBetError::BettingClosed) => Err(BetlifyError::BettingClosed),
                            Err(PlaceBetError::InvalidOption) => Err(BetlifyError::InvalidOption),
                            Err(PlaceBetError::ArithmeticOverflow) => Err(
                                BetlifyError::ArithmeticOverflow,
                            ),
                        }
                    },
                }
            },
            BetlifyMessage::ResolveMarket { .. } => {
                // Deliberately inert on the remote path; only the local entry
                // point resolves a market.
                Ok(())
            },
            BetlifyMessage::ClaimWinnings { .. } => {
                // Deliberately inert on the remote path; only the local entry
                // point records a claim.
                Ok(())
            },
        }
    }
}

/// Whether the enumerated list marks `a` as writable.
pub open spec fn lists_writable(entries: Seq<LzAccountV>, a: Seq<u8>) -> bool {
    exists|k: int| 0 <= k < entries.len() && entries[k].pubkey == a && (#[trigger] entries[k]).is_writable
}

/// Lock step, covering direction: every record address the receive path can
/// mutate for `message` is enumerated as writable by the resolver — for every
/// message, decodable or not, provided the canonical addresses exist.
pub proof fn lemma_resolver_covers_writes(
    store: Seq<u8>,
    program_id: Seq<u8>,
    src_eid: u32,
    sender: Seq<u8>,
    message: Seq<u8>,
    clear: Seq<LzAccountV>,
)
    requires
        spec_peer_address(store, src_eid, program_id) is Some,
    ensures
        decode_message(message) matches Some(BetlifyMessageV::CreatePool { pool_id, .. }) ==> (
        spec_pool_address(store, pool_id, program_id) matches Some(pa) ==> lists_writable(
            resolver_accounts(store, program_id, src_eid, sender, message, clear),
            store,
        ) && lists_writable(
            resolver_accounts(store, program_id, src_eid, sender, message, clear),
            pa,
        )),
        decode_message(message) matches Some(BetlifyMessageV::PlaceBet { pool_id, .. }) ==> (
        spec_pool_address(store, pool_id, program_id) matches Some(pa) ==> (spec_bet_address(
            sender,
            pa,
            program_id,
        ) matches Some(ba) ==> lists_writable(
            resolver_accounts(store, program_id, src_eid, sender, message, clear),
            pa,
        ) && lists_writable(
            resolver_accounts(store, program_id, src_eid, sender, message, clear),
            ba,
        ))),
{
    let r = resolver_accounts(store, program_id, src_eid, sender, message, clear);
    match decode_message(message) {
        Some(m) => match m {
            BetlifyMessageV::CreatePool { pool_id, .. } => {
                match spec_pool_address(store, pool_id, program_id) {
                    Some(pa) => {
                        assert(r[2].pubkey == store && r[2].is_writable);
                        assert(r[3].pubkey == pa && r[3].is_writable);
                    },
                    None => {},
                }
            },
            BetlifyMessageV::PlaceBet { pool_id, .. } => {
                match spec_pool_address(store, pool_id, program_id) {
                    Some(pa) => {
                        match spec_bet_address(sender, pa, program_id) {
                            Some(ba) => {
                                assert(r[3].pubkey == pa && r[3].is_writable);
                                assert(r[4].pubkey == ba && r[4].is_writable);
                            },
                            None => {},
                        }
                    },
                    None => {},
                }
            },
            _ => {},
        },
        None => {},
    }
}

/// Lock step, exact direction: apart from the transport's bookkeeping suffix,
/// the writable addresses the resolver enumerates are exactly the paying
/// placeholder plus the very addresses the receive path mutates — the store
/// and the pool for a creation; the pool and the bet for a bet; nothing for
/// the inert remote resolution and claim; and nothing for a buffer that does
/// not decode. In the latter three cases the placeholder alone is writable.
pub proof fn lemma_resolver_writes_exact(
    store: Seq<u8>,
    program_id: Seq<u8>,
    src_eid: u32,
    sender: Seq<u8>,
    message: Seq<u8>,
)
    requires
        spec_peer_address(store, src_eid, program_id) is Some,
    ensures
        decode_message(message) is None ==> (forall|a: Seq<u8>|
            lists_writable(
                resolver_accounts(store, program_id, src_eid, sender, message, Seq::empty()),
                a,
            ) <==> a == zero_address()),
        decode_message(message) matches Some(BetlifyMessageV::CreatePool { pool_id, .. }) ==> (
        spec_pool_address(store, pool_id, program_id) matches Some(pa) ==> (forall|a: Seq<u8>|
            lists_writable(
                resolver_accounts(store, program_id, src_eid, sender, message, Seq::empty()),
                a,
            ) <==> (a == zero_address() || a == store || a == pa))),
        decode_message(message) matches Some(BetlifyMessageV::PlaceBet { pool_id, .. }) ==> (
        spec_pool_address(store, pool_id, program_id) matches Some(pa) ==> (spec_bet_address(
            sender,
            pa,
            program_id,
        ) matches Some(ba) ==> (forall|a: Seq<u8>|
            lists_writable(
                resolver_accounts(store, program_id, src_eid, sender, message, Seq::empty()),
                a,
            ) <==> (a == zero_address() || a == pa || a == ba)))),
        decode_message(message) matches Some(BetlifyMessageV::ResolveMarket { .. }) ==> (forall|
            a: Seq<u8>,
        |
            lists_writable(
                resolver_accounts(store, program_id, src_eid, sender, message, Seq::empty()),
                a,
            ) <==> a == zero_address()),
        decode_message(message) matches Some(BetlifyMessageV::ClaimWinnings { .. }) ==> (forall|
            a: Seq<u8>,
        |
            lists_writable(
                resolver_accounts(store, program_id, src_eid, sender, message, Seq::empty()),
                a,
            ) <==> a == zero_address()),
{
    let r = resolver_accounts(store, program_id, src_eid, sender, message, Seq::empty());
    assert(r[0].pubkey == zero_address() && r[0].is_writable);
    match decode_message(message) {
        None => {},
        Some(m) => match m {
            BetlifyMessageV::CreatePool { pool_id, .. } => {
                match spec_pool_address(store, pool_id, program_id) {
                    Some(pa) => {
                        assert(r.len() == 5);
                        assert(r[2].pubkey == store && r[2].is_writable);
                        assert(r[3].pubkey == pa && r[3].is_writable);
                        assert forall|a: Seq<u8>| lists_writable(r, a) implies (a == zero_address()
                            || a == store || a == pa) by {
                            let k = choose|k: int|
                                0 <= k < r.len() && r[k].pubkey == a && (#[trigger] r[k]).is_writable;
                            assert(k == 0 || k == 2 || k == 3);
                        }
                    },
                    None => {},
                }
            },
            BetlifyMessageV::PlaceBet { pool_id, .. } => {
                match spec_pool_address(store, pool_id, program_id) {
                    Some(pa) => {
                        match spec_bet_address(sender, pa, program_id) {
                            Some(ba) => {
                                assert(r.len() == 6);
                                assert(r[3].pubkey == pa && r[3].is_writable);
                                assert(r[4].pubkey == ba && r[4].is_writable);
                                assert forall|a: Seq<u8>| lists_writable(r, a) implies (a
                                    == zero_address() || a == pa || a == ba) by {
                                    let k = choose|k: int|
                                        0 <= k < r.len() && r[k].pubkey == a && (#[trigger] r[k]).is_writable;
                                    assert(k == 0 || k == 3 || k == 4);
                                }
                            },
                            None => {},
                        }
                    },
                    None => {},
                }
            },
            BetlifyMessageV::ResolveMarket { pool_id, .. } => {
                assert forall|a: Seq<u8>| lists_writable(r, a) implies a == zero_address() by {
                    let k = choose|k: int|
                        0 <= k < r.len() && r[k].pubkey == a && (#[trigger] r[k]).is_writable;
                    match spec_pool_address(store, pool_id, program_id) {
                        Some(pa) => {
                            assert(r.len() == 4);
                            assert(k == 0);
                        },
                        None => {
                            assert(r.len() == 3);
                            assert(k == 0);
                        },
                    }
                }
            },
            BetlifyMessageV::ClaimWinnings { pool_id } => {
                assert forall|a: Seq<u8>| lists_writable(r, a) implies a == zero_address() by {
                    let k = choose|k: int|
                        0 <= k < r.len() && r[k].pubkey == a && (#[trigger] r[k]).is_writable;
                    match spec_pool_address(store, pool_id, program_id) {
                        Some(pa) => {
                            match spec_bet_address(sender, pa, program_id) {
                                Some(ba) => {
                                    assert(r.len() == 5);
                                    assert(k == 0);
                                },
                                None => {
                                    assert(r.len() == 3);
                                    assert(k == 0);
                                },
                            }
                        },
                        None => {
                            assert(r.len() == 3);
                            assert(k == 0);
                        },
                    }
                }
            },
        },
    }
}

} // verus!
