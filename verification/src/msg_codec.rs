//! The wire format for market events.
//!
//! A message is a tagged union: one tag byte naming the variant, followed by
//! the variant's fields in declaration order. Fixed-width integers are
//! little-endian; strings are a little-endian `u32` byte length followed by
//! that many UTF-8 bytes; a string sequence is a little-endian `u32` count
//! followed by the strings. This layout is the bit-exact contract with the
//! remote chain's encoder, so [`message_bytes`] spells it out byte by byte and
//! both [`encode_betlify_message`] and [`decode_betlify_message`] are proved
//! against it.
//!
//! A second, independent legacy layout frames one plain string behind a
//! 32-byte header: 28 zero bytes, then a big-endian `u32` length, then the
//! UTF-8 payload. It exists for interop with minimal remote counterparts and
//! is produced by [`encode`].

use crate::bytes_util::{
    i64_to_le_bytes_vec, spec_i64_to_le_bytes, spec_u32_to_be_bytes, spec_u64_to_i64,
    u32_to_be_bytes_vec, u64_to_i64_wrap,
};
use vstd::bytes::{
    spec_u32_from_le_bytes, spec_u32_to_le_bytes, spec_u64_from_le_bytes, spec_u64_to_le_bytes,
    u32_from_le_bytes, u32_to_le_bytes, u64_from_le_bytes, u64_to_le_bytes,
};
use vstd::prelude::*;
use vstd::slice::{slice_subrange, slice_to_vec};
use vstd::utf8::{decode_utf8, encode_utf8, valid_utf8};

verus! {

/// Offset of the length word inside the legacy 32-byte header.
pub const LENGTH_OFFSET: usize = 0;

/// Offset of the string payload behind the legacy 32-byte header.
pub const STRING_OFFSET: usize = 32;

/// Why a buffer was rejected. [`decode_betlify_message`] folds every failure
/// into the single value `InvalidUtf8`; the other two variants describe
/// failures of the legacy string framing.
#[derive(Clone, Copy, PartialEq, Eq, Structural, Debug)]
pub enum MsgCodecError {
    /// Buffer too short to contain the legacy 32-byte header.
    InvalidLength,
    /// The header promises more payload bytes than the buffer holds.
    BodyTooShort,
    /// The payload is not a well-formed message.
    InvalidUtf8,
}

/// A market event, as carried on the wire.
#[derive(PartialEq, Debug)]
pub enum BetlifyMessage {
    CreatePool {
        question: String,
        options: Vec<String>,
        pool_id: u64,
        start_time: i64,
        lock_time: i64,
        end_time: i64,
    },
    PlaceBet { pool_id: u64, option: u8, amount: u64 },
    ResolveMarket { pool_id: u64, winning_option: u8 },
    ClaimWinnings { pool_id: u64 },
}

/// The mathematical image of a [`BetlifyMessage`].
pub ghost enum BetlifyMessageV {
    CreatePool {
        question: Seq<char>,
        options: Seq<Seq<char>>,
        pool_id: u64,
        start_time: i64,
        lock_time: i64,
        end_time: i64,
    },
    PlaceBet { pool_id: u64, option: u8, amount: u64 },
    ResolveMarket { pool_id: u64, winning_option: u8 },
    ClaimWinnings { pool_id: u64 },
}

impl View for BetlifyMessage {
    type V = BetlifyMessageV;

    open spec fn view(&self) -> BetlifyMessageV {
        match self {
            BetlifyMessage::CreatePool {
                question,
                options,
                pool_id,
                start_time,
                lock_time,
                end_time,
            } => BetlifyMessageV::CreatePool {
                question: question@,
                options: options.deep_view(),
                pool_id: *pool_id,
                start_time: *start_time,
                lock_time: *lock_time,
                end_time: *end_time,
            },
            BetlifyMessage::PlaceBet { pool_id, option, amount } => BetlifyMessageV::PlaceBet {
                pool_id: *pool_id,
                option: *option,
                amount: *amount,
            },
            BetlifyMessage::ResolveMarket { pool_id, winning_option } => {
                BetlifyMessageV::ResolveMarket {
                    pool_id: *pool_id,
                    winning_option: *winning_option,
                }
            },
            BetlifyMessage::ClaimWinnings { pool_id } => BetlifyMessageV::ClaimWinnings {
                pool_id: *pool_id,
            },
        }
    }
}

/// A string whose UTF-8 length fits the `u32` length prefix.
pub open spec fn spec_str_wf(s: Seq<char>) -> bool {
    encode_utf8(s).len() <= u32::MAX
}

/// The wire bytes of one length-prefixed string.
pub open spec fn spec_str_bytes(s: Seq<char>) -> Seq<u8> {
    spec_u32_to_le_bytes(encode_utf8(s).len() as u32) + encode_utf8(s)
}

/// The wire bytes of a string sequence, without its count prefix.
pub open spec fn spec_options_bytes(opts: Seq<Seq<char>>) -> Seq<u8>
    decreases opts.len(),
{
    if opts.len() == 0 {
        Seq::empty()
    } else {
        spec_str_bytes(opts.first()) + spec_options_bytes(opts.drop_first())
    }
}

/// Whether every variable-length field of `m` fits its `u32` prefix.
pub open spec fn message_wf(m: BetlifyMessageV) -> bool {
    match m {
        BetlifyMessageV::CreatePool { question, options, .. } => {
            &&& spec_str_wf(question)
            &&& options.len() <= u32::MAX
            &&& forall|k: int| 0 <= k < options.len() ==> spec_str_wf(#[trigger] options[k])
        },
        _ => true,
    }
}

/// The exact wire encoding of a market event.
pub open spec fn message_bytes(m: BetlifyMessageV) -> Seq<u8> {
    match m {
        BetlifyMessageV::CreatePool {
            question,
            options,
            pool_id,
            start_time,
            lock_time,
            end_time,
        } => seq![0u8] + spec_str_bytes(question) + spec_u32_to_le_bytes(options.len() as u32)
            + spec_options_bytes(options) + spec_u64_to_le_bytes(pool_id) + spec_i64_to_le_bytes(
            start_time,
        ) + spec_i64_to_le_bytes(lock_time) + spec_i64_to_le_bytes(end_time),
        BetlifyMessageV::PlaceBet { pool_id, option, amount } => seq![1u8] + spec_u64_to_le_bytes(
            pool_id,
        ) + seq![option] + spec_u64_to_le_bytes(amount),
        BetlifyMessageV::ResolveMarket { pool_id, winning_option } => seq![2u8]
            + spec_u64_to_le_bytes(pool_id) + seq![winning_option],
        BetlifyMessageV::ClaimWinnings { pool_id } => seq![3u8] + spec_u64_to_le_bytes(pool_id),
    }
}

fn push_u32_le(out: &mut Vec<u8>, x: u32)
    ensures
        final(out)@ == old(out)@ + spec_u32_to_le_bytes(x),
{
    let mut b = u32_to_le_bytes(x);
    out.append(&mut b);
}

fn push_u64_le(out: &mut Vec<u8>, x: u64)
    ensures
        final(out)@ == old(out)@ + spec_u64_to_le_bytes(x),
{
    let mut b = u64_to_le_bytes(x);
    out.append(&mut b);
}

fn push_i64_le(out: &mut Vec<u8>, x: i64)
    ensures
        final(out)@ == old(out)@ + spec_i64_to_le_bytes(x),
{
    let mut b = i64_to_le_bytes_vec(x);
    out.append(&mut b);
}

fn push_str(out: &mut Vec<u8>, s: &String)
    requires
        spec_str_wf(s@),
    ensures
        final(out)@ == old(out)@ + spec_str_bytes(s@),
{
    let b: &[u8] = s.as_str().as_bytes();
    push_u32_le(out, b.len() as u32);
    out.extend_from_slice(b);
    proof {
        assert(out@ =~= old(out)@ + spec_str_bytes(s@));
    }
}

/// Concatenating string sequences concatenates their wire bytes.
proof fn lemma_options_bytes_concat(a: Seq<Seq<char>>, b: Seq<Seq<char>>)
    ensures
        spec_options_bytes(a + b) == spec_options_bytes(a) + spec_options_bytes(b),
    decreases a.len(),
{
    if a.len() == 0 {
        assert(a + b =~= b);
        assert(spec_options_bytes(a) + spec_options_bytes(b) =~= spec_options_bytes(b));
    } else {
        assert((a + b).drop_first() =~= a.drop_first() + b);
        lemma_options_bytes_concat(a.drop_first(), b);
        assert(spec_options_bytes(a + b) =~= spec_options_bytes(a) + spec_options_bytes(b));
    }
}

proof fn lemma_options_bytes_snoc(opts: Seq<Seq<char>>, k: int)
    requires
        0 <= k < opts.len(),
    ensures
        spec_options_bytes(opts.subrange(0, k + 1)) == spec_options_bytes(opts.subrange(0, k))
            + spec_str_bytes(opts[k]),
{
    assert(opts.subrange(0, k + 1) =~= opts.subrange(0, k) + seq![opts[k]]);
    lemma_options_bytes_concat(opts.subrange(0, k), seq![opts[k]]);
    assert(seq![opts[k]].drop_first() =~= Seq::<Seq<char>>::empty());
    assert(spec_options_bytes(Seq::<Seq<char>>::empty()) == Seq::<u8>::empty());
    assert(seq![opts[k]].first() == opts[k]);
    assert(spec_options_bytes(seq![opts[k]]) =~= spec_str_bytes(opts[k]));
}

/// Serialize a market event into its wire bytes.
pub fn encode_betlify_message(msg: &BetlifyMessage) -> (r: Vec<u8>)
    requires
        message_wf(msg@),
    ensures
        r@ == message_bytes(msg@),
{
    let mut out: Vec<u8> = Vec::new();
    match msg {
        BetlifyMessage::CreatePool { question, options, pool_id, start_time, lock_time, end_time
        } => {
            out.push(0u8);
            push_str(&mut out, question);
            push_u32_le(&mut out, options.len() as u32);
            let ghost base = out@;
            let n = options.len();
            let mut k: usize = 0;
            while k < n
                invariant
                    n == options@.len(),
                    0 <= k <= n,
                    out@ == base + spec_options_bytes(options.deep_view().subrange(0, k as int)),
                    forall|j: int|
                        0 <= j < n ==> spec_str_wf(#[trigger] options.deep_view()[j]),
                decreases n - k,
            {
                proof {
                    assert(options.deep_view()[k as int] == options@[k as int]@);
                    lemma_options_bytes_snoc(options.deep_view(), k as int);
                }
                push_str(&mut out, &options[k]);
                k += 1;
            }
            proof {
                assert(options.deep_view().subrange(0, n as int) =~= options.deep_view());
            }
            push_u64_le(&mut out, *pool_id);
            push_i64_le(&mut out, *start_time);
            push_i64_le(&mut out, *lock_time);
            push_i64_le(&mut out, *end_time);
            proof {
                assert(out@ =~= message_bytes(msg@));
            }
        },
        BetlifyMessage::PlaceBet { pool_id, option, amount } => {
            out.push(1u8);
            push_u64_le(&mut out, *pool_id);
            out.push(*option);
            push_u64_le(&mut out, *amount);
            proof {
                assert(out@ =~= message_bytes(msg@));
            }
        },
        BetlifyMessage::ResolveMarket { pool_id, winning_option } => {
            out.push(2u8);
            push_u64_le(&mut out, *pool_id);
            out.push(*winning_option);
            proof {
                assert(out@ =~= message_bytes(msg@));
            }
        },
        BetlifyMessage::ClaimWinnings { pool_id } => {
            out.push(3u8);
            push_u64_le(&mut out, *pool_id);
            proof {
                assert(out@ =~= message_bytes(msg@));
            }
        },
    }
    out
}

/// The value and end position of the little-endian `u32` at `i`, if the
/// buffer holds four bytes there.
pub open spec fn parse_u32_at(b: Seq<u8>, i: int) -> Option<(u32, int)> {
    if 0 <= i && i + 4 <= b.len() {
        Some((spec_u32_from_le_bytes(b.subrange(i, i + 4)), i + 4))
    } else {
        None
    }
}

/// The value and end position of the little-endian `u64` at `i`.
pub open spec fn parse_u64_at(b: Seq<u8>, i: int) -> Option<(u64, int)> {
    if 0 <= i && i + 8 <= b.len() {
        Some((spec_u64_from_le_bytes(b.subrange(i, i + 8)), i + 8))
    } else {
        None
    }
}

/// The value and end position of the little-endian two's-complement `i64` at
/// `i`.
pub open spec fn parse_i64_at(b: Seq<u8>, i: int) -> Option<(i64, int)> {
    match parse_u64_at(b, i) {
        Some((w, j)) => Some((spec_u64_to_i64(w), j)),
        None => None,
    }
}

/// The byte at `i` and the following position.
pub open spec fn parse_u8_at(b: Seq<u8>, i: int) -> Option<(u8, int)> {
    if 0 <= i && i + 1 <= b.len() {
        Some((b[i], i + 1))
    } else {
        None
    }
}

/// The length-prefixed string starting at `i`: its characters and the first
/// position after it. `None` when the buffer is short or the payload is not
/// valid UTF-8.
pub open spec fn parse_str_at(b: Seq<u8>, i: int) -> Option<(Seq<char>, int)> {
    match parse_u32_at(b, i) {
        None => None,
        Some((n, j)) => {
            if j + n <= b.len() && valid_utf8(b.subrange(j, j + n)) {
                Some((decode_utf8(b.subrange(j, j + n)), j + n))
            } else {
                None
            }
        },
    }
}

/// `count` consecutive length-prefixed strings starting at `i`.
pub open spec fn parse_options_at(b: Seq<u8>, i: int, count: nat) -> Option<(Seq<Seq<char>>, int)>
    decreases count,
{
    if count == 0 {
        Some((Seq::empty(), i))
    } else {
        match parse_str_at(b, i) {
            None => None,
            Some((s, j)) => {
                match parse_options_at(b, j, (count - 1) as nat) {
                    None => None,
                    Some((rest, k)) => Some((seq![s] + rest, k)),
                }
            },
        }
    }
}

/// The event a buffer decodes to, or `None` if the buffer is not, in its
/// entirety, the encoding of one event.
pub open spec fn decode_message(b: Seq<u8>) -> Option<BetlifyMessageV> {
    match parse_u8_at(b, 0) {
        None => None,
        Some((tag, i0)) => {
            if tag == 0 {
                decode_create_pool(b, i0)
            } else if tag == 1 {
                decode_place_bet(b, i0)
            } else if tag == 2 {
                decode_resolve_market(b, i0)
            } else if tag == 3 {
                decode_claim_winnings(b, i0)
            } else {
                None
            }
        },
    }
}

pub open spec fn decode_create_pool(b: Seq<u8>, i0: int) -> Option<BetlifyMessageV> {
    match parse_str_at(b, i0) {
        None => None,
        Some((question, i1)) => match parse_u32_at(b, i1) {
            None => None,
            Some((count, i2)) => match parse_options_at(b, i2, count as nat) {
                None => None,
                Some((options, i3)) => match parse_u64_at(b, i3) {
                    None => None,
                    Some((pool_id, i4)) => match parse_i64_at(b, i4) {
                        None => None,
                        Some((start_time, i5)) => match parse_i64_at(b, i5) {
                            None => None,
                            Some((lock_time, i6)) => match parse_i64_at(b, i6) {
                                None => None,
                                Some((end_time, i7)) => {
                                    if i7 == b.len() {
                                        Some(
                                            BetlifyMessageV::CreatePool {
                                                question,
                                                options,
                                                pool_id,
                                                start_time,
                                                lock_time,
                                                end_time,
                                            },
                                        )
                                    } else {
                                        None
                                    }
                                },
                            },
                        },
                    },
                },
            },
        },
    }
}

pub open spec fn decode_place_bet(b: Seq<u8>, i0: int) -> Option<BetlifyMessageV> {
    match parse_u64_at(b, i0) {
        None => None,
        Some((pool_id, i1)) => match parse_u8_at(b, i1) {
            None => None,
            Some((option, i2)) => match parse_u64_at(b, i2) {
                None => None,
                Some((amount, i3)) => {
                    if i3 == b.len() {
                        Some(BetlifyMessageV::PlaceBet { pool_id, option, amount })
                    } else {
                        None
                    }
                },
            },
        },
    }
}

pub open spec fn decode_resolve_market(b: Seq<u8>, i0: int) -> Option<BetlifyMessageV> {
    match parse_u64_at(b, i0) {
        None => None,
        Some((pool_id, i1)) => match parse_u8_at(b, i1) {
            None => None,
            Some((winning_option, i2)) => {
                if i2 == b.len() {
                    Some(BetlifyMessageV::ResolveMarket { pool_id, winning_option })
                } else {
                    None
                }
            },
        },
    }
}

pub open spec fn decode_claim_winnings(b: Seq<u8>, i0: int) -> Option<BetlifyMessageV> {
    match parse_u64_at(b, i0) {
        None => None,
        Some((pool_id, i1)) => {
            if i1 == b.len() {
                Some(BetlifyMessageV::ClaimWinnings { pool_id })
            } else {
                None
            }
        },
    }
}

/// Relies on `String::from_utf8`: it succeeds exactly on the byte vectors
/// that are valid UTF-8, and the returned string is those very bytes.
#[verifier::external_body]
fn string_from_utf8(v: Vec<u8>) -> (r: Option<String>)
    ensures
        r matches Some(s) ==> valid_utf8(v@) && s@ == decode_utf8(v@),
        r is None ==> !valid_utf8(v@),
{
    String::from_utf8(v).ok()
}

fn read_u32_at(data: &[u8], i: usize) -> (r: Option<(u32, usize)>)
    ensures
        r matches Some(p) ==> parse_u32_at(data@, i as int) == Some(
            (p.0, p.1 as int),
        ) && i < p.1 <= data@.len(),
        r is None ==> parse_u32_at(data@, i as int) is None,
{
    if data.len() >= 4 && i <= data.len() - 4 {
        let v = u32_from_le_bytes(slice_subrange(data, i, i + 4));
        Some((v, i + 4))
    } else {
        None
    }
}

fn read_u64_at(data: &[u8], i: usize) -> (r: Option<(u64, usize)>)
    ensures
        r matches Some(p) ==> parse_u64_at(data@, i as int) == Some(
            (p.0, p.1 as int),
        ) && i < p.1 <= data@.len(),
        r is None ==> parse_u64_at(data@, i as int) is None,
{
    if data.len() >= 8 && i <= data.len() - 8 {
        let v = u64_from_le_bytes(slice_subrange(data, i, i + 8));
        Some((v, i + 8))
    } else {
        None
    }
}

fn read_i64_at(data: &[u8], i: usize) -> (r: Option<(i64, usize)>)
    ensures
        r matches Some(p) ==> parse_i64_at(data@, i as int) == Some(
            (p.0, p.1 as int),
        ) && i < p.1 <= data@.len(),
        r is None ==> parse_i64_at(data@, i as int) is None,
{
    match read_u64_at(data, i) {
        Some((w, j)) => Some((u64_to_i64_wrap(w), j)),
        None => None,
    }
}

fn read_u8_at(data: &[u8], i: usize) -> (r: Option<(u8, usize)>)
    ensures
        r matches Some(p) ==> parse_u8_at(data@, i as int) == Some(
            (p.0, p.1 as int),
        ) && i < p.1 <= data@.len(),
        r is None ==> parse_u8_at(data@, i as int) is None,
{
    if i < data.len() {
        Some((data[i], i + 1))
    } else {
        None
    }
}

fn read_str_at(data: &[u8], i: usize) -> (r: Option<(String, usize)>)
    ensures
        r matches Some(p) ==> parse_str_at(data@, i as int) == Some(
            (p.0@, p.1 as int),
        ) && i < p.1 <= data@.len(),
        r is None ==> parse_str_at(data@, i as int) is None,
{
    match read_u32_at(data, i) {
        None => None,
        Some((n32, j)) => {
            let n = n32 as usize;
            if n <= data.len() - j {
                let payload = slice_to_vec(slice_subrange(data, j, j + n));
                match string_from_utf8(payload) {
                    Some(s) => Some((s, j + n)),
                    None => None,
                }
            } else {
                None
            }
        },
    }
}

/// Deserialize a buffer into a market event, rejecting any buffer that is not
/// exactly the encoding of one event. This never panics: a malformed buffer
/// is reported as a [`MsgCodecError`] value.
pub fn decode_betlify_message(data: &[u8]) -> (r: Result<BetlifyMessage, MsgCodecError>)
    ensures
        r matches Ok(m) ==> decode_message(data@) == Some(m@),
        r is Err ==> decode_message(data@) is None && r == Err::<
            BetlifyMessage,
            MsgCodecError,
        >(MsgCodecError::InvalidUtf8),
{
    let tag = match read_u8_at(data, 0) {
        Some((t, i0)) => (t, i0),
        None => {
            return Err(MsgCodecError::InvalidUtf8);
        },
    };
    let i0 = tag.1;
    if tag.0 == 0 {
        let (question, i1) = match read_str_at(data, i0) {
            Some(p) => p,
            None => {
                return Err(MsgCodecError::InvalidUtf8);
            },
        };
        let (count, i2) = match read_u32_at(data, i1) {
            Some(p) => p,
            None => {
                return Err(MsgCodecError::InvalidUtf8);
            },
        };
        let mut options: Vec<String> = Vec::new();
        let mut left: u32 = count;
        let mut i: usize = i2;
        while left > 0
            invariant
                parse_u8_at(data@, 0) == Some((0u8, i0 as int)),
                parse_str_at(data@, i0 as int) == Some((question@, i1 as int)),
                parse_u32_at(data@, i1 as int) == Some((count, i2 as int)),
                i <= data@.len(),
                left <= count,
                options.deep_view().len() == count - left,
                parse_options_at(data@, i2 as int, count as nat) == (match parse_options_at(
                    data@,
                    i as int,
                    left as nat,
                ) {
                    None => None::<(Seq<Seq<char>>, int)>,
                    Some((rest, end)) => Some((options.deep_view() + rest, end)),
                }),
            decreases left,
        {
            let (s, j) = match read_str_at(data, i) {
                Some(p) => p,
                None => {
                    proof {
                        assert(parse_options_at(data@, i as int, left as nat) is None);
                        assert(decode_create_pool(data@, i0 as int) is None);
                    }
                    return Err(MsgCodecError::InvalidUtf8);
                },
            };
            let ghost old_options = options.deep_view();
            options.push(s);
            proof {
                assert(options.deep_view() =~~= old_options.push(s@));
                assert forall|rest: Seq<Seq<char>>|
                    true implies old_options + (seq![s@] + rest) =~= options.deep_view()
                    + rest by {
                    assert(old_options + (seq![s@] + rest) =~= old_options.push(s@) + rest);
                }
            }
            i = j;
            left = left - 1;
        }
        proof {
            assert(parse_options_at(data@, i as int, 0nat) == Some(
                (Seq::<Seq<char>>::empty(), i as int),
            ));
            assert(options.deep_view() + Seq::<Seq<char>>::empty() =~= options.deep_view());
            assert(parse_options_at(data@, i2 as int, count as nat) == Some(
                (options.deep_view(), i as int),
            ));
        }
        let (pool_id, i4) = match read_u64_at(data, i) {
            Some(p) => p,
            None => {
                return Err(MsgCodecError::InvalidUtf8);
            },
        };
        let (start_time, i5) = match read_i64_at(data, i4) {
            Some(p) => p,
            None => {
                return Err(MsgCodecError::InvalidUtf8);
            },
        };
        let (lock_time, i6) = match read_i64_at(data, i5) {
            Some(p) => p,
            None => {
                return Err(MsgCodecError::InvalidUtf8);
            },
        };
        let (end_time, i7) = match read_i64_at(data, i6) {
            Some(p) => p,
            None => {
                return Err(MsgCodecError::InvalidUtf8);
            },
        };
        if i7 != data.len() {
            return Err(MsgCodecError::InvalidUtf8);
        }
        Ok(
            BetlifyMessage::CreatePool {
                question,
                options,
                pool_id,
                start_time,
                lock_time,
                end_time,
            },
        )
    } else if tag.0 == 1 {
        let (pool_id, i1) = match read_u64_at(data, i0) {
            Some(p) => p,
            None => {
                return Err(MsgCodecError::InvalidUtf8);
            },
        };
        let (option, i2) = match read_u8_at(data, i1) {
            Some(p) => p,
            None => {
                return Err(MsgCodecError::InvalidUtf8);
            },
        };
        let (amount, i3) = match read_u64_at(data, i2) {
            Some(p) => p,
            None => {
                return Err(MsgCodecError::InvalidUtf8);
            },
        };
        if i3 != data.len() {
            return Err(MsgCodecError::InvalidUtf8);
        }
        Ok(BetlifyMessage::PlaceBet { pool_id, option, amount })
    } else if tag.0 == 2 {
        let (pool_id, i1) = match read_u64_at(data, i0) {
            Some(p) => p,
            None => {
                return Err(MsgCodecError::InvalidUtf8);
            },
        };
        let (winning_option, i2) = match read_u8_at(data, i1) {
            Some(p) => p,
            None => {
                return Err(MsgCodecError::InvalidUtf8);
            },
        };
        if i2 != data.len() {
            return Err(MsgCodecError::InvalidUtf8);
        }
        Ok(BetlifyMessage::ResolveMarket { pool_id, winning_option })
    } else if tag.0 == 3 {
        let (pool_id, i1) = match read_u64_at(data, i0) {
            Some(p) => p,
            None => {
                return Err(MsgCodecError::InvalidUtf8);
            },
        };
        if i1 != data.len() {
            return Err(MsgCodecError::InvalidUtf8);
        }
        Ok(BetlifyMessage::ClaimWinnings { pool_id })
    } else {
        Err(MsgCodecError::InvalidUtf8)
    }
}

proof fn lemma_parse_u32_of(b: Seq<u8>, i: int, x: u32)
    requires
        0 <= i,
        i + 4 <= b.len(),
        b.subrange(i, i + 4) == spec_u32_to_le_bytes(x),
    ensures
        parse_u32_at(b, i) == Some((x, i + 4)),
{
    vstd::bytes::lemma_auto_spec_u32_to_from_le_bytes();
    assert(spec_u32_to_le_bytes(x).len() == 4);
    assert(spec_u32_from_le_bytes(spec_u32_to_le_bytes(x)) == x);
}

proof fn lemma_parse_u64_of(b: Seq<u8>, i: int, x: u64)
    requires
        0 <= i,
        i + 8 <= b.len(),
        b.subrange(i, i + 8) == spec_u64_to_le_bytes(x),
    ensures
        parse_u64_at(b, i) == Some((x, i + 8)),
{
    vstd::bytes::lemma_auto_spec_u64_to_from_le_bytes();
}

proof fn lemma_parse_i64_of(b: Seq<u8>, i: int, x: i64)
    requires
        0 <= i,
        i + 8 <= b.len(),
        b.subrange(i, i + 8) == spec_i64_to_le_bytes(x),
    ensures
        parse_i64_at(b, i) == Some((x, i + 8)),
{
    vstd::bytes::lemma_auto_spec_u64_to_from_le_bytes();
    crate::bytes_util::lemma_i64_u64_round_trip(x);
}

proof fn lemma_parse_str_of(b: Seq<u8>, i: int, s: Seq<char>)
    requires
        spec_str_wf(s),
        0 <= i,
        i + spec_str_bytes(s).len() <= b.len(),
        b.subrange(i, i + spec_str_bytes(s).len()) == spec_str_bytes(s),
    ensures
        parse_str_at(b, i) == Some((s, i + spec_str_bytes(s).len())),
{
    broadcast use vstd::utf8::encode_utf8_valid_utf8, vstd::utf8::encode_utf8_decode_utf8;

    let u = encode_utf8(s);
    let n = u.len() as int;
    assert(spec_u32_to_le_bytes((n as u32)).len() == 4) by {
        vstd::bytes::lemma_auto_spec_u32_to_from_le_bytes();
    }
    let sb = b.subrange(i, i + spec_str_bytes(s).len());
    assert(b.subrange(i, i + 4) =~= sb.subrange(0, 4));
    assert(sb.subrange(0, 4) =~= spec_u32_to_le_bytes((n as u32)));
    lemma_parse_u32_of(b, i, n as u32);
    assert(b.subrange(i + 4, i + 4 + n) =~= sb.subrange(4, 4 + n));
    assert(sb.subrange(4, 4 + n) =~= u);
}

proof fn lemma_parse_options_of(b: Seq<u8>, i: int, opts: Seq<Seq<char>>)
    requires
        forall|k: int| 0 <= k < opts.len() ==> spec_str_wf(#[trigger] opts[k]),
        0 <= i,
        i + spec_options_bytes(opts).len() <= b.len(),
        b.subrange(i, i + spec_options_bytes(opts).len()) == spec_options_bytes(opts),
    ensures
        parse_options_at(b, i, opts.len() as nat) == Some(
            (opts, i + spec_options_bytes(opts).len()),
        ),
    decreases opts.len(),
{
    if opts.len() == 0 {
        assert(opts =~= Seq::<Seq<char>>::empty());
    } else {
        let s = opts.first();
        let rest = opts.drop_first();
        let slen = spec_str_bytes(s).len() as int;
        let total = spec_options_bytes(opts).len() as int;
        let sb = b.subrange(i, i + total);
        assert(b.subrange(i, i + slen) =~= sb.subrange(0, slen));
        assert(sb.subrange(0, slen) =~= spec_str_bytes(s));
        lemma_parse_str_of(b, i, s);
        assert(b.subrange(i + slen, i + total) =~= sb.subrange(slen, total));
        assert(sb.subrange(slen, total) =~= spec_options_bytes(rest));
        lemma_parse_options_of(b, i + slen, rest);
        assert(seq![s] + rest =~= opts);
    }
}

/// Round trip: decoding the encoding of any well-formed event yields exactly
/// that event.
pub proof fn lemma_message_round_trip(m: BetlifyMessageV)
    requires
        message_wf(m),
    ensures
        decode_message(message_bytes(m)) == Some(m),
{
    let b = message_bytes(m);
    match m {
        BetlifyMessageV::CreatePool {
            question,
            options,
            pool_id,
            start_time,
            lock_time,
            end_time,
        } => {
            let qlen = spec_str_bytes(question).len() as int;
            let olen = spec_options_bytes(options).len() as int;
            let i1 = 1 + qlen;
            let i2 = i1 + 4;
            let i3 = i2 + olen;
            let i4 = i3 + 8;
            let i5 = i4 + 8;
            let i6 = i5 + 8;
            let i7 = i6 + 8;
            assert(spec_u32_to_le_bytes((options.len() as u32)).len() == 4
                && spec_u64_to_le_bytes(pool_id).len() == 8) by {
                vstd::bytes::lemma_auto_spec_u32_to_from_le_bytes();
                vstd::bytes::lemma_auto_spec_u64_to_from_le_bytes();
            }
            assert(spec_i64_to_le_bytes(start_time).len() == 8 && spec_i64_to_le_bytes(lock_time).len()
                == 8 && spec_i64_to_le_bytes(end_time).len() == 8) by {
                vstd::bytes::lemma_auto_spec_u64_to_from_le_bytes();
            }
            assert(b.len() == i7);
            assert(b[0] == 0u8);
            assert(b.subrange(1, i1) =~= spec_str_bytes(question));
            lemma_parse_str_of(b, 1, question);
            assert(b.subrange(i1, i2) =~= spec_u32_to_le_bytes((options.len() as u32)));
            lemma_parse_u32_of(b, i1, options.len() as u32);
            assert(b.subrange(i2, i3) =~= spec_options_bytes(options));
            lemma_parse_options_of(b, i2, options);
            assert((options.len() as u32) as nat == options.len());
            assert(b.subrange(i3, i4) =~= spec_u64_to_le_bytes(pool_id));
            lemma_parse_u64_of(b, i3, pool_id);
            assert(b.subrange(i4, i5) =~= spec_i64_to_le_bytes(start_time));
            lemma_parse_i64_of(b, i4, start_time);
            assert(b.subrange(i5, i6) =~= spec_i64_to_le_bytes(lock_time));
            lemma_parse_i64_of(b, i5, lock_time);
            assert(b.subrange(i6, i7) =~= spec_i64_to_le_bytes(end_time));
            lemma_parse_i64_of(b, i6, end_time);
        },
        BetlifyMessageV::PlaceBet { pool_id, option, amount } => {
            assert(spec_u64_to_le_bytes(pool_id).len() == 8 && spec_u64_to_le_bytes(amount).len()
                == 8) by {
                vstd::bytes::lemma_auto_spec_u64_to_from_le_bytes();
            }
            assert(b[0] == 1u8);
            assert(b.len() == 18);
            assert(b.subrange(1, 9) =~= spec_u64_to_le_bytes(pool_id));
            lemma_parse_u64_of(b, 1, pool_id);
            assert(b[9] == option);
            assert(b.subrange(10, 18) =~= spec_u64_to_le_bytes(amount));
            lemma_parse_u64_of(b, 10, amount);
        },
        BetlifyMessageV::ResolveMarket { pool_id, winning_option } => {
            assert(spec_u64_to_le_bytes(pool_id).len() == 8) by {
                vstd::bytes::lemma_auto_spec_u64_to_from_le_bytes();
            }
            assert(b[0] == 2u8);
            assert(b.len() == 10);
            assert(b.subrange(1, 9) =~= spec_u64_to_le_bytes(pool_id));
            lemma_parse_u64_of(b, 1, pool_id);
            assert(b[9] == winning_option);
        },
        BetlifyMessageV::ClaimWinnings { pool_id } => {
            assert(spec_u64_to_le_bytes(pool_id).len() == 8) by {
                vstd::bytes::lemma_auto_spec_u64_to_from_le_bytes();
            }
            assert(b[0] == 3u8);
            assert(b.len() == 9);
            assert(b.subrange(1, 9) =~= spec_u64_to_le_bytes(pool_id));
            lemma_parse_u64_of(b, 1, pool_id);
        },
    }
}

proof fn lemma_parse_u32_sound(b: Seq<u8>, i: int, v: u32, j: int)
    requires
        parse_u32_at(b, i) == Some((v, j)),
    ensures
        j == i + 4 && i >= 0 && j <= b.len(),
        b.subrange(i, j) == spec_u32_to_le_bytes(v),
{
    vstd::bytes::lemma_auto_spec_u32_to_from_le_bytes();
}

proof fn lemma_parse_u64_sound(b: Seq<u8>, i: int, v: u64, j: int)
    requires
        parse_u64_at(b, i) == Some((v, j)),
    ensures
        j == i + 8 && i >= 0 && j <= b.len(),
        b.subrange(i, j) == spec_u64_to_le_bytes(v),
{
    vstd::bytes::lemma_auto_spec_u64_to_from_le_bytes();
}

proof fn lemma_parse_i64_sound(b: Seq<u8>, i: int, x: i64, j: int)
    requires
        parse_i64_at(b, i) == Some((x, j)),
    ensures
        j == i + 8 && i >= 0 && j <= b.len(),
        b.subrange(i, j) == spec_i64_to_le_bytes(x),
{
    vstd::bytes::lemma_auto_spec_u64_to_from_le_bytes();
    let w = spec_u64_from_le_bytes(b.subrange(i, i + 8));
    assert(crate::bytes_util::spec_i64_to_u64(spec_u64_to_i64(w)) == w);
}

proof fn lemma_parse_str_sound(b: Seq<u8>, i: int, s: Seq<char>, j: int)
    requires
        parse_str_at(b, i) == Some((s, j)),
    ensures
        spec_str_wf(s),
        i >= 0 && i + 4 <= j <= b.len(),
        j == i + spec_str_bytes(s).len(),
        b.subrange(i, j) == spec_str_bytes(s),
{
    broadcast use vstd::utf8::decode_utf8_encode_utf8;

    let (n, k) = parse_u32_at(b, i).unwrap();
    let payload = b.subrange(k, k + n);
    assert(encode_utf8(s) == payload);
    lemma_parse_u32_sound(b, i, n, k);
    assert(b.subrange(i, j) =~= b.subrange(i, k) + b.subrange(k, j));
}

proof fn lemma_parse_options_sound(b: Seq<u8>, i: int, count: nat, opts: Seq<Seq<char>>, j: int)
    requires
        parse_options_at(b, i, count) == Some((opts, j)),
        0 <= i <= b.len(),
    ensures
        opts.len() == count,
        i <= j <= b.len(),
        j == i + spec_options_bytes(opts).len(),
        b.subrange(i, j) == spec_options_bytes(opts),
        forall|k: int| 0 <= k < opts.len() ==> spec_str_wf(#[trigger] opts[k]),
    decreases count,
{
    if count == 0 {
        assert(b.subrange(i, j) =~= Seq::<u8>::empty());
    } else {
        let (s, j1) = parse_str_at(b, i).unwrap();
        let (rest, _) = parse_options_at(b, j1, (count - 1) as nat).unwrap();
        lemma_parse_str_sound(b, i, s, j1);
        lemma_parse_options_sound(b, j1, (count - 1) as nat, rest, j);
        assert(opts == seq![s] + rest);
        assert(opts.first() == s);
        assert(opts.drop_first() =~= rest);
        assert(b.subrange(i, j) =~= b.subrange(i, j1) + b.subrange(j1, j));
    }
}

/// Soundness: whatever a buffer decodes to is a well-formed event whose
/// encoding is that entire buffer.
pub proof fn lemma_decode_sound(b: Seq<u8>)
    ensures
        decode_message(b) matches Some(m) ==> message_wf(m) && message_bytes(m) == b,
{
    if decode_message(b) is Some {
        let m = decode_message(b).unwrap();
        let tag = b[0];
        assert(b.subrange(0, 1) =~= seq![tag]);
        match m {
            BetlifyMessageV::CreatePool {
                question,
                options,
                pool_id,
                start_time,
                lock_time,
                end_time,
            } => {
                let (q, i1) = parse_str_at(b, 1).unwrap();
                let (count, i2) = parse_u32_at(b, i1).unwrap();
                let (opts, i3) = parse_options_at(b, i2, count as nat).unwrap();
                let (pid, i4) = parse_u64_at(b, i3).unwrap();
                let (st, i5) = parse_i64_at(b, i4).unwrap();
                let (lt, i6) = parse_i64_at(b, i5).unwrap();
                let (et, i7) = parse_i64_at(b, i6).unwrap();
                lemma_parse_str_sound(b, 1, q, i1);
                lemma_parse_u32_sound(b, i1, count, i2);
                lemma_parse_options_sound(b, i2, count as nat, opts, i3);
                lemma_parse_u64_sound(b, i3, pid, i4);
                lemma_parse_i64_sound(b, i4, st, i5);
                lemma_parse_i64_sound(b, i5, lt, i6);
                lemma_parse_i64_sound(b, i6, et, i7);
                assert((opts.len() as u32) == count);
                assert(b =~= b.subrange(0, 1) + b.subrange(1, i1) + b.subrange(i1, i2)
                    + b.subrange(i2, i3) + b.subrange(i3, i4) + b.subrange(i4, i5) + b.subrange(
                    i5,
                    i6,
                ) + b.subrange(i6, i7));
            },
            BetlifyMessageV::PlaceBet { pool_id, option, amount } => {
                let (pid, i1) = parse_u64_at(b, 1).unwrap();
                let (opt, i2) = parse_u8_at(b, i1).unwrap();
                let (amt, i3) = parse_u64_at(b, i2).unwrap();
                lemma_parse_u64_sound(b, 1, pid, i1);
                lemma_parse_u64_sound(b, i2, amt, i3);
                assert(b.subrange(i1, i2) =~= seq![option]);
                assert(b =~= b.subrange(0, 1) + b.subrange(1, i1) + b.subrange(i1, i2)
                    + b.subrange(i2, i3));
            },
            BetlifyMessageV::ResolveMarket { pool_id, winning_option } => {
                let (pid, i1) = parse_u64_at(b, 1).unwrap();
                let (w, i2) = parse_u8_at(b, i1).unwrap();
                lemma_parse_u64_sound(b, 1, pid, i1);
                assert(b.subrange(i1, i2) =~= seq![winning_option]);
                assert(b =~= b.subrange(0, 1) + b.subrange(1, i1) + b.subrange(i1, i2));
            },
            BetlifyMessageV::ClaimWinnings { pool_id } => {
                let (pid, i1) = parse_u64_at(b, 1).unwrap();
                lemma_parse_u64_sound(b, 1, pid, i1);
                assert(b =~= b.subrange(0, 1) + b.subrange(1, i1));
            },
        }
    }
}

/// No two distinct well-formed events share an encoding.
pub proof fn lemma_message_bytes_injective(m1: BetlifyMessageV, m2: BetlifyMessageV)
    requires
        message_wf(m1),
        message_wf(m2),
        message_bytes(m1) == message_bytes(m2),
    ensures
        m1 == m2,
{
    lemma_message_round_trip(m1);
    lemma_message_round_trip(m2);
}

/// The legacy framing of one plain string: 28 zero bytes, a big-endian `u32`
/// byte length, then the UTF-8 payload.
pub open spec fn legacy_frame_bytes(s: Seq<char>) -> Seq<u8> {
    Seq::new(28, |k: int| 0u8) + spec_u32_to_be_bytes(encode_utf8(s).len() as u32) + encode_utf8(s)
}

/// Frame a plain string in the legacy 32-byte-header layout.
pub fn encode(string: &str) -> (r: Vec<u8>)
    requires
        spec_str_wf(string@),
    ensures
        r@ == legacy_frame_bytes(string@),
{
    let b: &[u8] = string.as_bytes();
    let mut out: Vec<u8> = Vec::new();
    let mut k: usize = 0;
    while k < 28
        invariant
            0 <= k <= 28,
            out@.len() == k,
            forall|j: int| 0 <= j < k ==> out@[j] == 0u8,
        decreases 28 - k,
    {
        out.push(0u8);
        k += 1;
    }
    proof {
        assert(out@ =~= Seq::new(28, |j: int| 0u8));
    }
    let mut len_bytes = u32_to_be_bytes_vec(b.len() as u32);
    out.append(&mut len_bytes);
    out.extend_from_slice(b);
    proof {
        assert(out@ =~= legacy_frame_bytes(string@));
    }
    out
}

} // verus!
