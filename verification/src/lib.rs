//! A prediction-market core whose write operations arrive either as local
//! calls or as messages relayed from a remote chain.
//!
//! The crate is organised around four pieces:
//! - [`msg_codec`]: the tagged binary wire format for market events;
//! - [`address`]: deterministic, domain-separated storage addresses;
//! - [`lz_receive_types`]: the read-only path that enumerates, ahead of
//!   execution, every storage address an inbound message will touch;
//! - [`lz_receive`] and the per-instruction modules: the state machine that
//!   applies a decoded event to the addressed records atomically.

pub mod address;
pub mod bytes_util;
pub mod claim_winnings;
pub mod create_pool;
pub mod lz_receive;
pub mod lz_receive_types;
pub mod msg_codec;
pub mod place_bet;
pub mod resolve_market;
pub mod state;
