use chia_vault_recover::address::{
    decode_address, encode_address, network_from_address_prefix, parse_receive_address,
    validate_receive_address,
};
use chia_vault_recover::error::Error;
use chia_vault_recover::network::Network;

#[test]
fn round_trip_xch() {
    let ph = [0xab; 32];
    let addr = encode_address(ph, "xch").unwrap();
    assert!(addr.starts_with("xch1"));
    let (hrp, decoded) = decode_address(&addr).unwrap();
    assert_eq!(hrp, "xch");
    assert_eq!(decoded, ph);
}

#[test]
fn receive_address_rejects_launcher_id() {
    let id = format!("0x{}", hex::encode([0x22; 32]));
    assert!(parse_receive_address(&id).is_err());
}

#[test]
fn receive_address_accepts_xch_and_txch() {
    let ph = [0xcd; 32];
    let mainnet = encode_address(ph, "xch").unwrap();
    let testnet = encode_address(ph, "txch").unwrap();
    assert_eq!(parse_receive_address(&mainnet).unwrap(), mainnet);
    assert_eq!(parse_receive_address(&testnet).unwrap(), testnet);
}

#[test]
fn launcher_id_is_not_a_receive_address() {
    let id = format!("0x{}", hex::encode([0x22; 32]));
    assert!(matches!(validate_receive_address(&id), Err(Error::NotReceiveAddress)));
    assert!(matches!(parse_receive_address(&id), Err(Error::NotReceiveAddress)));
}

#[test]
fn encode_address_layout() {
    // Prefix, separator, 52 data characters and the 6-character checksum.
    let addr = encode_address([0u8; 32], "xch").unwrap();
    assert_eq!(addr.len(), 62);
    assert!(addr.starts_with("xch1qqqqqqqqqqqqqqqqqqqqqqqqqqqqqqqqqqqqqqqqqqqqqqqqqqqq"));
}

#[test]
fn encode_address_lowercases_the_prefix() {
    let ph = [0x11; 32];
    let upper = encode_address(ph, "XCH").unwrap();
    let lower = encode_address(ph, "xch").unwrap();
    assert_eq!(upper, lower);
    let (hrp, decoded) = decode_address(&upper).unwrap();
    assert_eq!(hrp, "xch");
    assert_eq!(decoded, ph);
}

#[test]
fn encode_address_rejects_invalid_prefixes() {
    assert!(matches!(encode_address([0u8; 32], ""), Err(Error::InvalidAddressPrefix(_))));
    assert!(matches!(encode_address([0u8; 32], "xCh"), Err(Error::InvalidAddressPrefix(_))));
    assert!(matches!(encode_address([0u8; 32], "x ch"), Err(Error::InvalidAddressPrefix(_))));
    let long = "a".repeat(84);
    assert!(matches!(encode_address([0u8; 32], &long), Err(Error::InvalidAddressPrefix(_))));
    assert!(encode_address([0u8; 32], &"a".repeat(83)).is_ok());
}

#[test]
fn decode_address_trims_white_space() {
    let ph = [0x5a; 32];
    let addr = encode_address(ph, "txch").unwrap();
    let padded = format!(" \t{addr}\n ");
    let (hrp, decoded) = decode_address(&padded).unwrap();
    assert_eq!(hrp, "txch");
    assert_eq!(decoded, ph);
    assert_eq!(parse_receive_address(&padded).unwrap(), addr);
}

#[test]
fn decode_address_accepts_upper_case() {
    let ph = [0x42; 32];
    let addr = encode_address(ph, "xch").unwrap().to_uppercase();
    let (hrp, decoded) = decode_address(&addr).unwrap();
    assert_eq!(hrp, "xch");
    assert_eq!(decoded, ph);
    assert_eq!(parse_receive_address(&addr).unwrap(), addr);
}

#[test]
fn decode_address_rejects_bad_checksum() {
    let mut addr = encode_address([0x01; 32], "xch").unwrap();
    let last = addr.pop().unwrap();
    addr.push(if last == 'q' { 'p' } else { 'q' });
    assert!(matches!(decode_address(&addr), Err(Error::InvalidAddress(_))));
    assert!(matches!(validate_receive_address(&addr), Err(Error::InvalidAddress(_))));
}

#[test]
fn decode_address_rejects_short_payload() {
    let hrp = bech32::Hrp::parse("xch").unwrap();
    let addr = bech32::encode::<bech32::Bech32m>(hrp, &[7u8; 20]).unwrap();
    assert!(matches!(decode_address(&addr), Err(Error::NotPuzzleHash)));
    assert!(matches!(parse_receive_address(&addr), Err(Error::NotPuzzleHash)));
}

#[test]
fn receive_prefix_is_checked_before_decoding() {
    let addr = encode_address([0x33; 32], "abc").unwrap();
    assert!(decode_address(&addr).is_ok());
    assert!(matches!(validate_receive_address(&addr), Err(Error::NotReceiveAddress)));
}

#[test]
fn network_from_prefix() {
    assert_eq!(network_from_address_prefix("xch"), Some(Network::Mainnet));
    assert_eq!(network_from_address_prefix("txch"), Some(Network::Testnet11));
    assert_eq!(network_from_address_prefix("XCH"), None);
    assert_eq!(network_from_address_prefix("xch1"), None);
    assert_eq!(network_from_address_prefix(""), None);
}

#[test]
fn round_trip_names_the_network() {
    for (prefix, network) in [("xch", Network::Mainnet), ("txch", Network::Testnet11)] {
        let addr = encode_address([0x77; 32], prefix).unwrap();
        let (hrp, _) = decode_address(&addr).unwrap();
        assert_eq!(network_from_address_prefix(&hrp), Some(network));
    }
}

#[test]
fn error_messages() {
    assert_eq!(Error::InvalidAddress("bad".to_string()).message(), "invalid address: bad");
    assert_eq!(Error::NotPuzzleHash.message(), "address payload is not a 32-byte puzzle hash");
    assert_eq!(
        Error::InvalidAddressPrefix("empty".to_string()).message(),
        "invalid address prefix: empty"
    );
    assert_eq!(Error::EncodeAddress("long".to_string()).message(), "encode address: long");
    assert_eq!(
        Error::NotReceiveAddress.message(),
        "expected vault Receive address (xch1… for mainnet, or txch1… for testnet11)"
    );
}

#[test]
fn parse_receive_address_is_idempotent() {
    let addr = encode_address([0x19; 32], "xch").unwrap();
    let once = parse_receive_address(&format!("  {addr} ")).unwrap();
    let twice = parse_receive_address(&once).unwrap();
    assert_eq!(once, twice);
    assert_eq!(once, addr);
}

#[test]
fn receive_address_needs_an_exact_network_prefix() {
    let ph = [0x2c; 32];
    let addr = encode_address(ph, "xch1q").unwrap();
    assert!(addr.starts_with("xch1q1"));
    let (hrp, decoded) = decode_address(&addr).unwrap();
    assert_eq!(hrp, "xch1q");
    assert_eq!(decoded, ph);
    assert_eq!(network_from_address_prefix(&hrp), None);
    assert!(matches!(validate_receive_address(&addr), Err(Error::NotReceiveAddress)));
    assert!(matches!(parse_receive_address(&addr), Err(Error::NotReceiveAddress)));
}

#[test]
fn failures_carry_the_decoder_text() {
    let mut addr = encode_address([0x01; 32], "txch").unwrap();
    let last = addr.pop().unwrap();
    addr.push(if last == 'q' { 'p' } else { 'q' });
    let Err(Error::InvalidAddress(decoded)) = decode_address(&addr) else {
        panic!("expected a decoding error");
    };
    let Err(Error::InvalidAddress(validated)) = validate_receive_address(&addr) else {
        panic!("expected a decoding error");
    };
    let Err(Error::InvalidAddress(parsed)) = parse_receive_address(&addr) else {
        panic!("expected a decoding error");
    };
    assert_eq!(decoded, validated);
    assert_eq!(decoded, parsed);
    assert!(!decoded.is_empty());
}

#[test]
fn decoding_ignores_letter_case_and_padding() {
    let ph = [0x3c; 32];
    let addr = encode_address(ph, "txch").unwrap();
    let expected = decode_address(&addr).unwrap();
    assert_eq!(decode_address(&addr.to_ascii_uppercase()).unwrap(), expected);
    assert_eq!(decode_address(&format!(" \t{}\n", addr.to_ascii_uppercase())).unwrap(), expected);
    assert_eq!(expected.0, expected.0.to_lowercase());
    // Mixed case is not bech32.
    let mut mixed = addr.clone();
    mixed.replace_range(0..1, "T");
    assert!(matches!(decode_address(&mixed), Err(Error::InvalidAddress(_))));
}
