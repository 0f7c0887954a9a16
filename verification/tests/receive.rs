use betlify::address::{bet_address, peer_address, pool_address, store_address, Address};
use betlify::lz_receive::{BetlifyError, LzReceive};
use betlify::lz_receive_types::{LzAccount, LzReceiveParams, LzReceiveTypes};
use betlify::msg_codec::{encode_betlify_message, BetlifyMessage};
use betlify::state::{Bet, BetPool, PeerConfig, PoolStatus, Store};
use solana_program::pubkey::Pubkey;

fn a(byte: u8) -> Address {
    Address([byte; 32])
}

fn store0() -> Store {
    Store { admin: a(1), bump: 0, endpoint_program: a(2), pools_count: 0 }
}

fn empty_bet() -> Bet {
    Bet { authority: a(0), user: a(0), pool: a(0), option: 0, amount: 0, claimed: false, bump: 0 }
}

fn params_with(message: Vec<u8>) -> LzReceiveParams {
    LzReceiveParams {
        src_eid: 40161,
        sender: a(8),
        nonce: 1,
        guid: [0u8; 32],
        message,
        extra_data: vec![],
    }
}

fn receive_ctx(pool: Option<BetPool>) -> LzReceive {
    LzReceive {
        payer: a(7),
        peer: PeerConfig { peer_address: a(8), bump: 0 },
        store: store0(),
        store_address: a(9),
        bet_pool: pool,
        bet_pool_address: a(10),
        bet: empty_bet(),
    }
}

fn create_pool_message() -> Vec<u8> {
    encode_betlify_message(&BetlifyMessage::CreatePool {
        question: "Will it rain?".to_string(),
        options: vec!["Yes".to_string(), "No".to_string()],
        pool_id: 1,
        start_time: 100,
        lock_time: 200,
        end_time: 300,
    })
}

#[test]
fn remote_create_pool_creates_and_counts() {
    let mut ctx = receive_ctx(None);
    ctx.apply(&params_with(create_pool_message()), 50).unwrap();
    let pool = ctx.bet_pool.as_ref().unwrap();
    assert_eq!(pool.status, PoolStatus::Open);
    assert_eq!(pool.option_amounts, vec![0, 0]);
    assert_eq!(pool.creator, a(8)); // the message sender
    assert_eq!(ctx.store.pools_count, 1);
}

#[test]
fn remote_create_pool_is_idempotent() {
    let mut ctx = receive_ctx(None);
    ctx.apply(&params_with(create_pool_message()), 50).unwrap();
    let mut pool = ctx.bet_pool.clone().unwrap();
    pool.pool_amount = 5;
    pool.option_amounts[1] = 5;
    ctx.bet_pool = Some(pool.clone());
    assert_eq!(ctx.apply(&params_with(create_pool_message()), 51), Ok(()));
    assert_eq!(ctx.bet_pool, Some(pool));
    assert_eq!(ctx.store.pools_count, 1);
}

#[test]
fn remote_create_pool_counter_overflow() {
    let mut ctx = receive_ctx(None);
    ctx.store.pools_count = u64::MAX;
    let r = ctx.apply(&params_with(create_pool_message()), 50);
    assert_eq!(r, Err(BetlifyError::ArithmeticOverflow));
    assert!(ctx.bet_pool.is_none());
}

fn bet_message(option: u8, amount: u64) -> Vec<u8> {
    encode_betlify_message(&BetlifyMessage::PlaceBet { pool_id: 1, option, amount })
}

#[test]
fn remote_place_bet_updates_pool_and_bet() {
    let mut ctx = receive_ctx(None);
    ctx.apply(&params_with(create_pool_message()), 50).unwrap();
    ctx.apply(&params_with(bet_message(0, 50)), 150).unwrap();
    let pool = ctx.bet_pool.as_ref().unwrap();
    assert_eq!(pool.pool_amount, 50);
    assert_eq!(pool.option_amounts, vec![50, 0]);
    assert_eq!(pool.unique_bettors, 1);
    assert_eq!(ctx.bet.user, a(8)); // the remote sender
    assert_eq!(ctx.bet.authority, a(8));
    assert_eq!(ctx.bet.pool, a(10));
    assert_eq!(ctx.bet.amount, 50);
    assert!(!ctx.bet.claimed);
}

#[test]
fn remote_place_bet_without_pool_is_rejected() {
    let mut ctx = receive_ctx(None);
    let r = ctx.apply(&params_with(bet_message(0, 50)), 150);
    assert_eq!(r, Err(BetlifyError::MissingPoolAccount));
    assert!(ctx.bet_pool.is_none());
}

#[test]
fn remote_place_bet_outside_window_is_rejected() {
    let mut ctx = receive_ctx(None);
    ctx.apply(&params_with(create_pool_message()), 50).unwrap();
    let before = ctx.bet_pool.clone();
    assert_eq!(ctx.apply(&params_with(bet_message(0, 50)), 250), Err(BetlifyError::BettingClosed));
    assert_eq!(ctx.bet_pool, before);
    assert_eq!(ctx.apply(&params_with(bet_message(5, 50)), 150), Err(BetlifyError::InvalidOption));
    assert_eq!(ctx.bet_pool, before);
}

#[test]
fn remote_resolve_and_claim_are_inert() {
    let mut ctx = receive_ctx(None);
    ctx.apply(&params_with(create_pool_message()), 50).unwrap();
    let before_pool = ctx.bet_pool.clone();
    let before_bet = ctx.bet;
    let resolve = encode_betlify_message(&BetlifyMessage::ResolveMarket {
        pool_id: 1,
        winning_option: 0,
    });
    assert_eq!(ctx.apply(&params_with(resolve), 400), Ok(()));
    let claim = encode_betlify_message(&BetlifyMessage::ClaimWinnings { pool_id: 1 });
    assert_eq!(ctx.apply(&params_with(claim), 400), Ok(()));
    assert_eq!(ctx.bet_pool, before_pool);
    assert_eq!(ctx.bet, before_bet);
    assert!(!ctx.bet_pool.unwrap().is_result_set);
}

#[test]
fn local_and_remote_paths_agree_on_identical_inputs() {
    // One creator/bettor identity, one pool id, one stake: the local entry
    // points and the receive path must leave identical records.
    let owner = a(8);

    let mut remote = receive_ctx(None);
    remote.apply(&params_with(create_pool_message()), 50).unwrap();
    remote.apply(&params_with(bet_message(0, 50)), 150).unwrap();

    let mut local_create = betlify::create_pool::CreatePool {
        bet_pool: None,
        creator: owner,
        store: store0(),
    };
    local_create
        .apply(
            &betlify::create_pool::CreatePoolParams {
                question: "Will it rain?".to_string(),
                options: vec!["Yes".to_string(), "No".to_string()],
                start_time: 100,
                lock_time: 200,
                end_time: 300,
                pool_id: 1,
            },
            1,
        )
        .unwrap();
    let mut local_bet = betlify::place_bet::PlaceBet {
        bet_pool: local_create.bet_pool.unwrap(),
        bet_pool_address: a(10),
        bet: empty_bet(),
        user: owner,
    };
    local_bet
        .apply(&betlify::place_bet::PlaceBetParams { user: owner, option: 0, amount: 50 }, 150)
        .unwrap();

    assert_eq!(remote.bet_pool.as_ref().unwrap(), &local_bet.bet_pool);
    assert_eq!(remote.bet, local_bet.bet);
    assert_eq!(remote.store.pools_count, local_create.store.pools_count);
}

#[test]
fn corrupt_message_is_rejected_without_mutation() {
    let mut ctx = receive_ctx(None);
    ctx.apply(&params_with(create_pool_message()), 50).unwrap();
    let before_pool = ctx.bet_pool.clone();
    let before_store = ctx.store;
    let r = ctx.apply(&params_with(vec![0xde, 0xad, 0xbe, 0xef]), 150);
    assert_eq!(r, Err(BetlifyError::InvalidMessage));
    assert_eq!(ctx.bet_pool, before_pool);
    assert_eq!(ctx.store, before_store);
}

// --- address derivation ---

fn pk(addr: &Address) -> Pubkey {
    Pubkey::new_from_array(addr.0)
}

#[test]
fn derived_addresses_match_the_runtime_scheme() {
    let store = a(7);
    let pid = a(9);
    let pool = pool_address(&store, 1, &pid).unwrap();
    let (expected, _) =
        Pubkey::find_program_address(&[b"betpool", &store.0, &1u64.to_le_bytes()], &pk(&pid));
    assert_eq!(pool.0, expected.to_bytes());

    let owner = a(8);
    let bet = bet_address(&owner, &pool, &pid).unwrap();
    let (expected, _) =
        Pubkey::find_program_address(&[b"bet", &owner.0, &pool.0], &pk(&pid));
    assert_eq!(bet.0, expected.to_bytes());

    let peer = peer_address(&store, 40161, &pid).unwrap();
    let (expected, _) =
        Pubkey::find_program_address(&[b"Peer", &store.0, &40161u32.to_be_bytes()], &pk(&pid));
    assert_eq!(peer.0, expected.to_bytes());

    let st = store_address(&pid).unwrap();
    let (expected, _) = Pubkey::find_program_address(&[b"Store"], &pk(&pid));
    assert_eq!(st.0, expected.to_bytes());
}

#[test]
fn derived_addresses_are_domain_separated() {
    let store = a(7);
    let pid = a(9);
    let p1 = pool_address(&store, 1, &pid).unwrap();
    let p2 = pool_address(&store, 2, &pid).unwrap();
    assert_ne!(p1, p2);
    assert_ne!(p1, store);
    let b1 = bet_address(&a(8), &p1, &pid).unwrap();
    assert_ne!(b1, p1);
}

// --- the resolver ---

fn clear_suffix() -> Vec<LzAccount> {
    vec![LzAccount { pubkey: a(0xEE), is_signer: false, is_writable: true }]
}

#[test]
fn resolver_on_corrupt_bytes_returns_only_prefix_and_bookkeeping() {
    let types = LzReceiveTypes { store: a(7) };
    let pid = a(9);
    let accounts = types.apply(&pid, &params_with(vec![0xff, 0x01]), clear_suffix());
    assert_eq!(accounts.len(), 4);
    // payer placeholder
    assert_eq!(accounts[0].pubkey, Address([0u8; 32]));
    assert!(accounts[0].is_signer && accounts[0].is_writable);
    // peer, read-only
    let peer = peer_address(&a(7), 40161, &pid).unwrap();
    assert_eq!(accounts[1].pubkey, peer);
    assert!(!accounts[1].is_writable);
    // store, read-only because nothing will be applied
    assert_eq!(accounts[2].pubkey, a(7));
    assert!(!accounts[2].is_writable);
    // bookkeeping entries appended as given
    assert_eq!(accounts[3], clear_suffix()[0]);
}

#[test]
fn resolver_for_create_pool_lists_store_and_pool_writable() {
    let types = LzReceiveTypes { store: a(7) };
    let pid = a(9);
    let accounts = types.apply(&pid, &params_with(create_pool_message()), vec![]);
    assert_eq!(accounts.len(), 5);
    assert!(accounts[2].is_writable, "store must be writable for a creation");
    assert_eq!(accounts[2].pubkey, a(7));
    let pool = pool_address(&a(7), 1, &pid).unwrap();
    assert_eq!(accounts[3].pubkey, pool);
    assert!(accounts[3].is_writable);
    assert_eq!(accounts[4].pubkey, Address([0u8; 32])); // system program
    assert!(!accounts[4].is_writable);
}

#[test]
fn resolver_for_place_bet_lists_pool_and_bet_writable_store_readonly() {
    let types = LzReceiveTypes { store: a(7) };
    let pid = a(9);
    let accounts = types.apply(&pid, &params_with(bet_message(0, 50)), vec![]);
    assert_eq!(accounts.len(), 6);
    assert!(!accounts[2].is_writable, "store is not mutated by a bet");
    let pool = pool_address(&a(7), 1, &pid).unwrap();
    let bet = bet_address(&a(8), &pool, &pid).unwrap();
    assert_eq!(accounts[3].pubkey, pool);
    assert!(accounts[3].is_writable);
    assert_eq!(accounts[4].pubkey, bet);
    assert!(accounts[4].is_writable);
    assert!(!accounts[5].is_writable); // system program
}

#[test]
fn resolver_writable_set_matches_apply_mutations() {
    // The receive path below is handed records at exactly the derived
    // addresses; every record it mutates must be listed writable by the
    // resolver, and apart from the payer placeholder nothing else is.
    let pid = a(9);
    let store_addr = a(7);
    let types = LzReceiveTypes { store: store_addr };

    let create = params_with(create_pool_message());
    let listed: Vec<Address> = types
        .apply(&pid, &create, vec![])
        .iter()
        .filter(|e| e.is_writable)
        .map(|e| e.pubkey)
        .collect();
    let pool_addr = pool_address(&store_addr, 1, &pid).unwrap();
    let mut ctx = LzReceive {
        payer: a(3),
        peer: PeerConfig { peer_address: a(8), bump: 0 },
        store: store0(),
        store_address: store_addr,
        bet_pool: None,
        bet_pool_address: pool_addr,
        bet: empty_bet(),
    };
    let store_before = ctx.store;
    ctx.apply(&create, 50).unwrap();
    // Mutated: the store (counter) and the pool record.
    assert_ne!(ctx.store, store_before);
    assert!(ctx.bet_pool.is_some());
    assert_eq!(listed, vec![Address([0u8; 32]), store_addr, pool_addr]);

    let bet = params_with(bet_message(0, 50));
    let listed: Vec<Address> = types
        .apply(&pid, &bet, vec![])
        .iter()
        .filter(|e| e.is_writable)
        .map(|e| e.pubkey)
        .collect();
    let bet_addr = bet_address(&a(8), &pool_addr, &pid).unwrap();
    let store_before = ctx.store;
    let bet_before = ctx.bet;
    let pool_before = ctx.bet_pool.clone();
    ctx.apply(&bet, 150).unwrap();
    // Mutated: the pool and the bet record; the store untouched.
    assert_eq!(ctx.store, store_before);
    assert_ne!(ctx.bet_pool, pool_before);
    assert_ne!(ctx.bet, bet_before);
    assert_eq!(listed, vec![Address([0u8; 32]), pool_addr, bet_addr]);
}

#[test]
fn resolver_for_resolve_and_claim() {
    let types = LzReceiveTypes { store: a(7) };
    let pid = a(9);
    let pool = pool_address(&a(7), 1, &pid).unwrap();

    // Remote resolution and claiming are inert, so their entries are listed
    // read-only: the only writable address is the payer placeholder.
    let resolve = encode_betlify_message(&BetlifyMessage::ResolveMarket {
        pool_id: 1,
        winning_option: 0,
    });
    let accounts = types.apply(&pid, &params_with(resolve), vec![]);
    assert_eq!(accounts.len(), 4);
    assert!(!accounts[2].is_writable);
    assert_eq!(accounts[3].pubkey, pool);
    assert!(!accounts[3].is_writable);
    let writable: Vec<Address> =
        accounts.iter().filter(|e| e.is_writable).map(|e| e.pubkey).collect();
    assert_eq!(writable, vec![Address([0u8; 32])]);

    let claim = encode_betlify_message(&BetlifyMessage::ClaimWinnings { pool_id: 1 });
    let accounts = types.apply(&pid, &params_with(claim), vec![]);
    assert_eq!(accounts.len(), 5);
    let bet = bet_address(&a(8), &pool, &pid).unwrap();
    assert_eq!(accounts[3].pubkey, pool);
    assert_eq!(accounts[4].pubkey, bet);
    assert!(!accounts[3].is_writable);
    assert!(!accounts[4].is_writable);
    let writable: Vec<Address> =
        accounts.iter().filter(|e| e.is_writable).map(|e| e.pubkey).collect();
    assert_eq!(writable, vec![Address([0u8; 32])]);
}
