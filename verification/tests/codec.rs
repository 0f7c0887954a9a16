use betlify::msg_codec::{
    decode_betlify_message, encode, encode_betlify_message, BetlifyMessage, MsgCodecError,
};

fn round_trip(m: BetlifyMessage) {
    let bytes = encode_betlify_message(&m);
    let back = decode_betlify_message(&bytes).expect("round trip must decode");
    assert_eq!(back, m);
}

#[test]
fn round_trip_create_pool() {
    round_trip(BetlifyMessage::CreatePool {
        question: "Will it rain?".to_string(),
        options: vec!["Yes".to_string(), "No".to_string()],
        pool_id: 1,
        start_time: 100,
        lock_time: 200,
        end_time: 300,
    });
}

#[test]
fn round_trip_create_pool_empty_question_zero_options() {
    round_trip(BetlifyMessage::CreatePool {
        question: String::new(),
        options: vec![],
        pool_id: 0,
        start_time: i64::MIN,
        lock_time: 0,
        end_time: i64::MAX,
    });
}

#[test]
fn round_trip_create_pool_max_option_count() {
    let options: Vec<String> = (0..8).map(|i| format!("option-{}", i)).collect();
    round_trip(BetlifyMessage::CreatePool {
        question: "which of eight?".to_string(),
        options,
        pool_id: u64::MAX,
        start_time: -1,
        lock_time: -2,
        end_time: -3,
    });
}

#[test]
fn round_trip_create_pool_unicode() {
    round_trip(BetlifyMessage::CreatePool {
        question: "\u{00bf}Llover\u{00e1} ma\u{00f1}ana? \u{2614}".to_string(),
        options: vec!["s\u{00ed}".to_string(), String::new(), "\u{1f327}".to_string()],
        pool_id: 7,
        start_time: 1,
        lock_time: 2,
        end_time: 3,
    });
}

#[test]
fn round_trip_place_bet() {
    round_trip(BetlifyMessage::PlaceBet { pool_id: 5, option: 2, amount: 7 });
    round_trip(BetlifyMessage::PlaceBet { pool_id: u64::MAX, option: u8::MAX, amount: u64::MAX });
}

#[test]
fn round_trip_resolve_market() {
    round_trip(BetlifyMessage::ResolveMarket { pool_id: 1, winning_option: 0 });
    round_trip(BetlifyMessage::ResolveMarket { pool_id: 0, winning_option: 255 });
}

#[test]
fn round_trip_claim_winnings() {
    round_trip(BetlifyMessage::ClaimWinnings { pool_id: 42 });
}

#[test]
fn place_bet_wire_layout_is_exact() {
    let bytes = encode_betlify_message(&BetlifyMessage::PlaceBet {
        pool_id: 5,
        option: 2,
        amount: 7,
    });
    let mut expected = vec![1u8];
    expected.extend_from_slice(&5u64.to_le_bytes());
    expected.push(2u8);
    expected.extend_from_slice(&7u64.to_le_bytes());
    assert_eq!(bytes, expected);
}

#[test]
fn negative_times_use_twos_complement_little_endian() {
    let bytes = encode_betlify_message(&BetlifyMessage::CreatePool {
        question: String::new(),
        options: vec![],
        pool_id: 0,
        start_time: -1,
        lock_time: -2,
        end_time: i64::MIN,
    });
    let mut expected = vec![0u8];
    expected.extend_from_slice(&0u32.to_le_bytes()); // empty question
    expected.extend_from_slice(&0u32.to_le_bytes()); // zero options
    expected.extend_from_slice(&0u64.to_le_bytes()); // pool id
    expected.extend_from_slice(&(-1i64).to_le_bytes());
    expected.extend_from_slice(&(-2i64).to_le_bytes());
    expected.extend_from_slice(&i64::MIN.to_le_bytes());
    assert_eq!(bytes, expected);
}

#[test]
fn wire_layout_matches_borsh_create_pool() {
    let bytes = encode_betlify_message(&BetlifyMessage::CreatePool {
        question: "Will it rain?".to_string(),
        options: vec!["Yes".to_string(), "No".to_string()],
        pool_id: 1,
        start_time: 100,
        lock_time: 200,
        end_time: 300,
    });
    let reference = borsh::to_vec(&(
        0u8,
        "Will it rain?".to_string(),
        vec!["Yes".to_string(), "No".to_string()],
        1u64,
        100i64,
        200i64,
        300i64,
    ))
    .unwrap();
    assert_eq!(bytes, reference);
}

#[test]
fn wire_layout_matches_borsh_place_bet() {
    let bytes = encode_betlify_message(&BetlifyMessage::PlaceBet {
        pool_id: 9,
        option: 1,
        amount: 123456789,
    });
    let reference = borsh::to_vec(&(1u8, 9u64, 1u8, 123456789u64)).unwrap();
    assert_eq!(bytes, reference);
}

#[test]
fn wire_layout_matches_borsh_resolve_and_claim() {
    let resolve = encode_betlify_message(&BetlifyMessage::ResolveMarket {
        pool_id: 3,
        winning_option: 1,
    });
    assert_eq!(resolve, borsh::to_vec(&(2u8, 3u64, 1u8)).unwrap());
    let claim = encode_betlify_message(&BetlifyMessage::ClaimWinnings { pool_id: 3 });
    assert_eq!(claim, borsh::to_vec(&(3u8, 3u64)).unwrap());
}

#[test]
fn decode_rejects_empty_buffer() {
    assert_eq!(decode_betlify_message(&[]), Err(MsgCodecError::InvalidUtf8));
}

#[test]
fn decode_rejects_unknown_tag() {
    let mut bytes = vec![4u8];
    bytes.extend_from_slice(&1u64.to_le_bytes());
    assert_eq!(decode_betlify_message(&bytes), Err(MsgCodecError::InvalidUtf8));
}

#[test]
fn decode_rejects_truncated_buffer() {
    let full = encode_betlify_message(&BetlifyMessage::PlaceBet {
        pool_id: 5,
        option: 2,
        amount: 7,
    });
    for cut in 0..full.len() {
        assert!(decode_betlify_message(&full[..cut]).is_err(), "cut at {}", cut);
    }
}

#[test]
fn decode_rejects_trailing_bytes() {
    let mut bytes = encode_betlify_message(&BetlifyMessage::ClaimWinnings { pool_id: 1 });
    bytes.push(0);
    assert_eq!(decode_betlify_message(&bytes), Err(MsgCodecError::InvalidUtf8));
}

#[test]
fn decode_rejects_invalid_utf8_question() {
    let mut bytes = vec![0u8]; // create-pool tag
    bytes.extend_from_slice(&2u32.to_le_bytes());
    bytes.extend_from_slice(&[0xff, 0xfe]); // not UTF-8
    bytes.extend_from_slice(&0u32.to_le_bytes());
    bytes.extend_from_slice(&0u64.to_le_bytes());
    bytes.extend_from_slice(&0i64.to_le_bytes());
    bytes.extend_from_slice(&0i64.to_le_bytes());
    bytes.extend_from_slice(&0i64.to_le_bytes());
    assert_eq!(decode_betlify_message(&bytes), Err(MsgCodecError::InvalidUtf8));
}

#[test]
fn decode_rejects_option_count_beyond_buffer() {
    let mut bytes = vec![0u8];
    bytes.extend_from_slice(&0u32.to_le_bytes()); // empty question
    bytes.extend_from_slice(&1000u32.to_le_bytes()); // promises 1000 options
    assert_eq!(decode_betlify_message(&bytes), Err(MsgCodecError::InvalidUtf8));
}

#[test]
fn legacy_framing_is_exact() {
    let framed = encode("AB");
    let mut expected = vec![0u8; 28];
    expected.extend_from_slice(&2u32.to_be_bytes());
    expected.extend_from_slice(b"AB");
    assert_eq!(framed, expected);
    assert_eq!(framed.len(), 32 + 2);
}

#[test]
fn legacy_framing_empty_string() {
    let framed = encode("");
    assert_eq!(framed, vec![0u8; 32]);
}
