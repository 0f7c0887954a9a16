//! Deterministic storage addresses.
//!
//! Every record this crate touches lives at an address derived from a
//! domain-separated seed tuple, so that the account-enumeration path and the
//! state-transition path can agree on the exact same locations without ever
//! exchanging references. The derivation itself is the program-derived-address
//! scheme of the Solana runtime, reached through one trusted wrapper; its
//! result is named by the uninterpreted function [`derived_address`] and both
//! paths speak only in terms of that name.

use crate::bytes_util::{spec_u32_to_be_bytes, u32_to_be_bytes_vec};
use vstd::bytes::{spec_u64_to_le_bytes, u64_to_le_bytes};
use vstd::prelude::*;
use vstd::slice::slice_to_vec;

verus! {

/// A 32-byte storage address.
#[derive(Clone, Copy, Debug)]
pub struct Address(pub [u8; 32]);

impl View for Address {
    type V = Seq<u8>;

    open spec fn view(&self) -> Seq<u8> {
        self.0@
    }
}

impl DeepView for Address {
    type V = Seq<u8>;

    open spec fn deep_view(&self) -> Seq<u8> {
        self@
    }
}

impl PartialEq for Address {
    fn eq(&self, other: &Address) -> (r: bool) {
        crate::bytes_util::bytes_eq(self.0.as_slice(), other.0.as_slice())
    }
}

impl vstd::std_specs::cmp::PartialEqSpecImpl for Address {
    open spec fn obeys_eq_spec() -> bool {
        true
    }

    open spec fn eq_spec(&self, other: &Address) -> bool {
        self@ == other@
    }
}

impl Eq for Address {

}

/// The all-zero address: the payer placeholder and the system program.
pub open spec fn zero_address() -> Seq<u8> {
    Seq::new(32, |i: int| 0u8)
}

pub fn zero_address_value() -> (r: Address)
    ensures
        r@ == zero_address(),
{
    let r = Address([0u8; 32]);
    proof {
        assert(r@ =~= zero_address());
    }
    r
}

/// What `Pubkey::try_find_program_address` returns for a seed tuple and a
/// program id: a deterministic function of its arguments alone. `None` stands
/// for the statistically improbable case in which no bump byte yields a
/// viable address.
pub uninterp spec fn derived_address(seeds: Seq<Seq<u8>>, program_id: Seq<u8>) -> Option<Seq<u8>>;

/// Relies on `solana_program`'s `Pubkey::try_find_program_address`: a
/// deterministic, SHA-256-based derivation of a program address from the seed
/// slices and the program id. It returns `None` only when 16 or more seeds
/// are given, when a seed exceeds 32 bytes, or when, statistically
/// improbably, no bump byte yields an off-curve address; off-chain it never
/// panics.
#[verifier::external_body]
fn try_derive_address(seeds: &Vec<Vec<u8>>, program_id: &Address) -> (r: Option<Address>)
    ensures
        r matches Some(a) ==> derived_address(seeds.deep_view(), program_id@) == Some(a@),
        r is None ==> derived_address(seeds.deep_view(), program_id@) is None,
{
    let seed_refs: Vec<&[u8]> = seeds.iter().map(|s| s.as_slice()).collect();
    let pid = solana_program::pubkey::Pubkey::new_from_array(program_id.0);
    solana_program::pubkey::Pubkey::try_find_program_address(&seed_refs, &pid)
        .map(|(pk, _bump)| Address(pk.to_bytes()))
}

/// The domain tag of the singleton store record.
pub open spec fn store_seed() -> Seq<u8> {
    seq![83u8, 116u8, 111u8, 114u8, 101u8]  // "Store"
}

fn store_seed_vec() -> (r: Vec<u8>)
    ensures
        r@ == store_seed(),
{
    let mut r: Vec<u8> = Vec::new();
    r.push(83u8);
    r.push(116u8);
    r.push(111u8);
    r.push(114u8);
    r.push(101u8);
    proof {
        assert(r@ =~= store_seed());
    }
    r
}

/// The domain tag of a per-remote-chain peer record.
pub open spec fn peer_seed() -> Seq<u8> {
    seq![80u8, 101u8, 101u8, 114u8]  // "Peer"
}

fn peer_seed_vec() -> (r: Vec<u8>)
    ensures
        r@ == peer_seed(),
{
    let mut r: Vec<u8> = Vec::new();
    r.push(80u8);
    r.push(101u8);
    r.push(101u8);
    r.push(114u8);
    proof {
        assert(r@ =~= peer_seed());
    }
    r
}

/// The domain tag of a market pool record.
pub open spec fn betpool_seed() -> Seq<u8> {
    seq![98u8, 101u8, 116u8, 112u8, 111u8, 111u8, 108u8]  // "betpool"
}

fn betpool_seed_vec() -> (r: Vec<u8>)
    ensures
        r@ == betpool_seed(),
{
    let mut r: Vec<u8> = Vec::new();
    r.push(98u8);
    r.push(101u8);
    r.push(116u8);
    r.push(112u8);
    r.push(111u8);
    r.push(111u8);
    r.push(108u8);
    proof {
        assert(r@ =~= betpool_seed());
    }
    r
}

/// The domain tag of a bet record.
pub open spec fn bet_seed() -> Seq<u8> {
    seq![98u8, 101u8, 116u8]  // "bet"
}

fn bet_seed_vec() -> (r: Vec<u8>)
    ensures
        r@ == bet_seed(),
{
    let mut r: Vec<u8> = Vec::new();
    r.push(98u8);
    r.push(101u8);
    r.push(116u8);
    proof {
        assert(r@ =~= bet_seed());
    }
    r
}

fn address_to_vec(a: &Address) -> (r: Vec<u8>)
    ensures
        r@ == a@,
{
    slice_to_vec(a.0.as_slice())
}

/// The address of the singleton store record of a given program.
pub open spec fn spec_store_address(program_id: Seq<u8>) -> Option<Seq<u8>> {
    derived_address(seq![store_seed()], program_id)
}

pub fn store_address(program_id: &Address) -> (r: Option<Address>)
    ensures
        r matches Some(a) ==> spec_store_address(program_id@) == Some(a@),
        r is None ==> spec_store_address(program_id@) is None,
{
    let mut seeds: Vec<Vec<u8>> = Vec::new();
    seeds.push(store_seed_vec());
    proof {
        assert(seeds.deep_view() =~~= seq![store_seed()]);
    }
    try_derive_address(&seeds, program_id)
}

/// The address of the peer record for a source chain, under a store.
pub open spec fn spec_peer_address(store: Seq<u8>, src_eid: u32, program_id: Seq<u8>) -> Option<
    Seq<u8>,
> {
    derived_address(seq![peer_seed(), store, spec_u32_to_be_bytes(src_eid)], program_id)
}

pub fn peer_address(store: &Address, src_eid: u32, program_id: &Address) -> (r: Option<Address>)
    ensures
        r matches Some(a) ==> spec_peer_address(store@, src_eid, program_id@) == Some(a@),
        r is None ==> spec_peer_address(store@, src_eid, program_id@) is None,
{
    let mut seeds: Vec<Vec<u8>> = Vec::new();
    seeds.push(peer_seed_vec());
    seeds.push(address_to_vec(store));
    seeds.push(u32_to_be_bytes_vec(src_eid));
    proof {
        assert(seeds.deep_view() =~~= seq![
            peer_seed(),
            store@,
            spec_u32_to_be_bytes(src_eid),
        ]);
    }
    try_derive_address(&seeds, program_id)
}

/// The address of the pool record with a given id, under a store.
pub open spec fn spec_pool_address(store: Seq<u8>, pool_id: u64, program_id: Seq<u8>) -> Option<
    Seq<u8>,
> {
    derived_address(seq![betpool_seed(), store, spec_u64_to_le_bytes(pool_id)], program_id)
}

pub fn pool_address(store: &Address, pool_id: u64, program_id: &Address) -> (r: Option<Address>)
    ensures
        r matches Some(a) ==> spec_pool_address(store@, pool_id, program_id@) == Some(a@),
        r is None ==> spec_pool_address(store@, pool_id, program_id@) is None,
{
    let mut seeds: Vec<Vec<u8>> = Vec::new();
    seeds.push(betpool_seed_vec());
    seeds.push(address_to_vec(store));
    seeds.push(u64_to_le_bytes(pool_id));
    proof {
        assert(seeds.deep_view() =~~= seq![
            betpool_seed(),
            store@,
            spec_u64_to_le_bytes(pool_id),
        ]);
    }
    try_derive_address(&seeds, program_id)
}

/// The address of the bet record of one owner in one pool.
pub open spec fn spec_bet_address(owner: Seq<u8>, pool: Seq<u8>, program_id: Seq<u8>) -> Option<
    Seq<u8>,
> {
    derived_address(seq![bet_seed(), owner, pool], program_id)
}

pub fn bet_address(owner: &Address, pool: &Address, program_id: &Address) -> (r: Option<Address>)
    ensures
        r matches Some(a) ==> spec_bet_address(owner@, pool@, program_id@) == Some(a@),
        r is None ==> spec_bet_address(owner@, pool@, program_id@) is None,
{
    let mut seeds: Vec<Vec<u8>> = Vec::new();
    seeds.push(bet_seed_vec());
    seeds.push(address_to_vec(owner));
    seeds.push(address_to_vec(pool));
    proof {
        assert(seeds.deep_view() =~~= seq![bet_seed(), owner@, pool@]);
    }
    try_derive_address(&seeds, program_id)
}

} // verus!
