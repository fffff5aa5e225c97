use crowdfunding::codec::{
    decode_record, decode_request, encode_record, encode_request, CampaignRecord, Pubkey,
    WithdrawRequest,
};

fn sample() -> CampaignRecord {
    CampaignRecord {
        admin: Pubkey::new([7u8; 32]),
        name: String::from("Wells"),
        description: String::from("Clean water for the valley"),
        image_link: String::from("https://example.org/w.png"),
        amount_donated: 0x0102_0304_0506_0708,
    }
}

#[test]
fn it_works() {
    let result: i32 = 2 + 2;
    assert_eq!(result, 4);
}

#[test]
fn record_layout_matches_borsh() {
    let rec = sample();
    let expected = borsh::to_vec(&(
        [7u8; 32],
        String::from("Wells"),
        String::from("Clean water for the valley"),
        String::from("https://example.org/w.png"),
        0x0102_0304_0506_0708u64,
    ))
    .unwrap();
    assert_eq!(encode_record(&rec), expected);
}

#[test]
fn record_layout_exact_bytes() {
    let rec = CampaignRecord {
        admin: Pubkey::new([1u8; 32]),
        name: String::from("X"),
        description: String::new(),
        image_link: String::from("ab"),
        amount_donated: 500,
    };
    let mut expected = vec![1u8; 32];
    expected.extend_from_slice(&[1, 0, 0, 0, b'X']);
    expected.extend_from_slice(&[0, 0, 0, 0]);
    expected.extend_from_slice(&[2, 0, 0, 0, b'a', b'b']);
    expected.extend_from_slice(&[0xf4, 0x01, 0, 0, 0, 0, 0, 0]);
    assert_eq!(encode_record(&rec), expected);
}

#[test]
fn record_round_trip() {
    let rec = sample();
    let bytes = encode_record(&rec);
    let back = decode_record(&bytes).unwrap();
    assert_eq!(back, rec);
    assert_eq!(encode_record(&back), bytes);
}

#[test]
fn record_round_trip_non_ascii() {
    let rec = CampaignRecord {
        admin: Pubkey::new([3u8; 32]),
        name: String::from("Café ☕"),
        description: String::from("naïve"),
        image_link: String::new(),
        amount_donated: u64::MAX,
    };
    let bytes = encode_record(&rec);
    assert_eq!(decode_record(&bytes), Some(rec));
}

#[test]
fn record_decode_reads_string_contents() {
    let bytes = encode_record(&sample());
    let back = decode_record(&bytes).unwrap();
    assert_eq!(back.name, "Wells");
    assert_eq!(back.image_link, "https://example.org/w.png");
}

#[test]
fn record_rejects_trailing_byte() {
    let mut bytes = encode_record(&sample());
    bytes.push(0);
    assert_eq!(decode_record(&bytes), None);
}

#[test]
fn record_rejects_truncation() {
    let bytes = encode_record(&sample());
    for cut in 0..bytes.len() {
        assert_eq!(decode_record(&bytes[..cut]), None);
    }
}

#[test]
fn record_rejects_invalid_utf8() {
    let rec = CampaignRecord {
        admin: Pubkey::new([1u8; 32]),
        name: String::from("ab"),
        description: String::new(),
        image_link: String::new(),
        amount_donated: 0,
    };
    let mut bytes = encode_record(&rec);
    bytes[36] = 0xff;
    assert_eq!(decode_record(&bytes), None);
}

#[test]
fn record_rejects_oversized_count() {
    let mut bytes = encode_record(&sample());
    bytes[32] = 0xff;
    bytes[33] = 0xff;
    assert_eq!(decode_record(&bytes), None);
}

#[test]
fn request_round_trip() {
    let bytes = encode_request(&WithdrawRequest { amount: 500 });
    assert_eq!(bytes, vec![0xf4, 0x01, 0, 0, 0, 0, 0, 0]);
    assert_eq!(decode_request(&bytes), Some(WithdrawRequest { amount: 500 }));
}

#[test]
fn request_rejects_wrong_length() {
    assert_eq!(decode_request(&[1, 2, 3]), None);
    assert_eq!(decode_request(&[0u8; 9]), None);
    assert_eq!(decode_request(&[]), None);
}

#[test]
fn pubkey_comparison() {
    let a = Pubkey::new([1u8; 32]);
    let mut raw = [1u8; 32];
    assert!(a.same_as(&Pubkey::new(raw)));
    raw[31] = 2;
    assert!(!a.same_as(&Pubkey::new(raw)));
}
