//! The account-enumeration path of the receive pipeline.
//!
//! Before a relayed message is executed, its executor must know every storage
//! address the execution will touch, with the right mutability flags — even
//! when it is not yet known whether the message decodes at all. The resolver
//! here therefore never fails: a buffer that does not decode yields only the
//! fixed prefix and the transport's own bookkeeping entries, and in the
//! statistically improbable case that an address cannot be derived the
//! event-specific entries degrade to none rather than aborting.
//!
//! [`resolver_accounts`] is the single description of the enumerated list;
//! the lock-step lemmas beside the receive path hold the state machine's
//! mutation set to exactly this description.

use crate::address::{
    spec_bet_address, spec_peer_address, spec_pool_address, zero_address, zero_address_value,
    Address,
};
use crate::msg_codec::{decode_betlify_message, decode_message, BetlifyMessageV};
use vstd::prelude::*;

verus! {

/// One enumerated account: an address, whether it must sign, and whether the
/// execution may mutate it.
#[derive(Clone, Copy, PartialEq, Eq, Debug)]
pub struct LzAccount {
    pub pubkey: Address,
    pub is_signer: bool,
    pub is_writable: bool,
}

/// The mathematical image of an [`LzAccount`].
pub ghost struct LzAccountV {
    pub pubkey: Seq<u8>,
    pub is_signer: bool,
    pub is_writable: bool,
}

impl View for LzAccount {
    type V = LzAccountV;

    open spec fn view(&self) -> LzAccountV {
        LzAccountV { pubkey: self.pubkey@, is_signer: self.is_signer, is_writable: self.is_writable }
    }
}

impl DeepView for LzAccount {
    type V = LzAccountV;

    open spec fn deep_view(&self) -> LzAccountV {
        self@
    }
}

/// What the transport delivers for one inbound message: the source chain, the
/// remote sender, the per-sender sequence number, a globally unique id, the
/// payload and any executor extras.
pub struct LzReceiveParams {
    pub src_eid: u32,
    pub sender: Address,
    pub nonce: u64,
    pub guid: [u8; 32],
    pub message: Vec<u8>,
    pub extra_data: Vec<u8>,
}

/// The record the resolver works from: the address of the store.
pub struct LzReceiveTypes {
    pub store: Address,
}

pub open spec fn account_entry(pubkey: Seq<u8>, is_signer: bool, is_writable: bool) -> LzAccountV {
    LzAccountV { pubkey, is_signer, is_writable }
}

/// Whether applying `message` mutates the store record: only a pool creation
/// touches its counter.
pub open spec fn store_is_writable(message: Seq<u8>) -> bool {
    decode_message(message) matches Some(BetlifyMessageV::CreatePool { .. })
}

/// The event-specific entries: the pool record, for bets and claims also the
/// bet record, and for record-creating events the system program. Empty when
/// an address cannot be derived. Market resolution and claiming are inert on
/// the receive path, so their entries are read-only: the mutability flags
/// here match exactly what applying the event mutates.
pub open spec fn event_accounts(
    store: Seq<u8>,
    program_id: Seq<u8>,
    sender: Seq<u8>,
    m: BetlifyMessageV,
) -> Seq<LzAccountV> {
    match m {
        BetlifyMessageV::CreatePool { pool_id, .. } => {
            match spec_pool_address(store, pool_id, program_id) {
                Some(pa) => seq![
                    account_entry(pa, false, true),
                    account_entry(zero_address(), false, false),
                ],
                None => Seq::empty(),
            }
        },
        BetlifyMessageV::PlaceBet { pool_id, .. } => {
            match spec_pool_address(store, pool_id, program_id) {
                Some(pa) => match spec_bet_address(sender, pa, program_id) {
                    Some(ba) => seq![
                        account_entry(pa, false, true),
                        account_entry(ba, false, true),
                        account_entry(zero_address(), false, false),
                    ],
                    None => Seq::empty(),
                },
                None => Seq::empty(),
            }
        },
        BetlifyMessageV::ResolveMarket { pool_id, .. } => {
            match spec_pool_address(store, pool_id, program_id) {
                Some(pa) => seq![account_entry(pa, false, false)],
                None => Seq::empty(),
            }
        },
        BetlifyMessageV::ClaimWinnings { pool_id } => {
            match spec_pool_address(store, pool_id, program_id) {
                Some(pa) => match spec_bet_address(sender, pa, program_id) {
                    Some(ba) => seq![
                        account_entry(pa, false, false),
                        account_entry(ba, false, false),
                    ],
                    None => Seq::empty(),
                },
                None => Seq::empty(),
            }
        },
    }
}

/// The whole enumerated list: the paying placeholder, the peer record, the
/// store (writable only if the event mutates it), the event-specific entries,
/// and finally the transport's own bookkeeping entries.
pub open spec fn resolver_accounts(
    store: Seq<u8>,
    program_id: Seq<u8>,
    src_eid: u32,
    sender: Seq<u8>,
    message: Seq<u8>,
    clear: Seq<LzAccountV>,
) -> Seq<LzAccountV> {
    let payer = account_entry(zero_address(), true, true);
    match spec_peer_address(store, src_eid, program_id) {
        None => seq![payer] + clear,
        Some(peer) => seq![
            payer,
            account_entry(peer, false, false),
            account_entry(store, false, store_is_writable(message)),
        ] + (match decode_message(message) {
            None => Seq::<LzAccountV>::empty(),
            Some(m) => event_accounts(store, program_id, sender, m),
        }) + clear,
    }
}

impl LzReceiveTypes {
    /// Enumerate, without mutating anything, every account that executing
    /// `params.message` will touch. `clear_accounts` are the entries the
    /// transport needs for its own sequence-number clearing; they are
    /// appended as given.
    pub fn apply(
        &self,
        program_id: &Address,
        params: &LzReceiveParams,
        clear_accounts: Vec<LzAccount>,
    ) -> (r: Vec<LzAccount>)
        ensures
            r.deep_view() == resolver_accounts(
                self.store@,
                program_id@,
                params.src_eid,
                params.sender@,
                params.message@,
                clear_accounts.deep_view(),
            ),
    {
        let mut clear_accounts = clear_accounts;
        let ghost clear0 = clear_accounts.deep_view();
        let mut accounts: Vec<LzAccount> = Vec::new();
        accounts.push(
            LzAccount { pubkey: zero_address_value(), is_signer: true, is_writable: true },
        );
        let peer = match crate::address::peer_address(&self.store, params.src_eid, program_id) {
            Some(a) => a,
            None => {
                accounts.append(&mut clear_accounts);
                proof {
                    assert(accounts.deep_view() =~~= resolver_accounts(
                        self.store@,
                        program_id@,
                        params.src_eid,
                        params.sender@,
                        params.message@,
                        clear0,
                    ));
                }
                return accounts;
            },
        };
        accounts.push(LzAccount { pubkey: peer, is_signer: false, is_writable: false });
        let decoded = decode_betlify_message(params.message.as_slice());
        let store_writable = match &decoded {
            Ok(m) => matches!(m, crate::msg_codec::BetlifyMessage::CreatePool { .. }),
            Err(_) => false,
        };
        accounts.push(
            LzAccount { pubkey: self.store, is_signer: false, is_writable: store_writable },
        );
        match decoded {
            Err(_) => {},
            Ok(m) => {
                match m {
                    crate::msg_codec::BetlifyMessage::CreatePool { pool_id, .. } => {
                        match crate::address::pool_address(&self.store, pool_id, program_id) {
                            Some(pa) => {
                                accounts.push(
                                    LzAccount { pubkey: pa, is_signer: false, is_writable: true },
                                );
                                accounts.push(
                                    LzAccount {
                                        pubkey: zero_address_value(),
                                        is_signer: false,
                                        is_writable: false,
                                    },
                                );
                            },
                            None => {},
                        }
                    },
                    crate::msg_codec::BetlifyMessage::PlaceBet { pool_id, .. } => {
                        match crate::address::pool_address(&self.store, pool_id, program_id) {
                            Some(pa) => {
                                match crate::address::bet_address(&params.sender, &pa, program_id) {
                                    Some(ba) => {
                                        accounts.push(
                                            LzAccount {
                                                pubkey: pa,
                                                is_signer: false,
                                                is_writable: true,
                                            },
                                        );
                                        accounts.push(
                                            LzAccount {
                                                pubkey: ba,
                                                is_signer: false,
                                                is_writable: true,
                                            },
                                        );
                                        accounts.push(
                                            LzAccount {
                                                pubkey: zero_address_value(),
                                                is_signer: false,
                                                is_writable: false,
                                            },
                                        );
                                    },
                                    None => {},
                                }
                            },
                            None => {},
                        }
                    },
                    crate::msg_codec::BetlifyMessage::ResolveMarket { pool_id, .. } => {
                        match crate::address::pool_address(&self.store, pool_id, program_id) {
                            Some(pa) => {
                                accounts.push(
                                    LzAccount { pubkey: pa, is_signer: false, is_writable: false },
                                );
                            },
                            None => {},
                        }
                    },
                    crate::msg_codec::BetlifyMessage::ClaimWinnings { pool_id } => {
                        match crate::address::pool_address(&self.store, pool_id, program_id) {
                            Some(pa) => {
                                match crate::address::bet_address(&params.sender, &pa, program_id) {
                                    Some(ba) => {
                                        accounts.push(
                                            LzAccount {
                                                pubkey: pa,
                                                is_signer: false,
                                                is_writable: false,
                                            },
                                        );
                                        accounts.push(
                                            LzAccount {
                                                pubkey: ba,
                                                is_signer: false,
                                                is_writable: false,
                                            },
                                        );
                                    },
                                    None => {},
                                }
                            },
                            None => {},
                        }
                    },
                }
            },
        }
        accounts.append(&mut clear_accounts);
        proof {
            assert(accounts.deep_view() =~~= resolver_accounts(
                self.store@,
                program_id@,
                params.src_eid,
                params.sender@,
                params.message@,
                clear0,
            ));
        }
        accounts
    }
}

} // verus!
