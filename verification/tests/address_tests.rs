use bitcoin_cash::{Address, AddressError, AddressType};

const ZERO_P2PKH: &str = "bitcoincash:qqqqqqqqqqqqqqqqqqqqqqqqqqqqqqqqqqfnhks603";

#[test]
fn cash_addr_of_zero_hash() {
    let address = Address::from_bytes(AddressType::P2PKH, [0u8; 20]);
    assert_eq!(address.cash_addr(), ZERO_P2PKH);
    assert_eq!(address.prefix(), "bitcoincash");
    assert_eq!(address.addr_type(), AddressType::P2PKH);
    assert_eq!(address.bytes(), &[0u8; 20]);
}

#[test]
fn cash_addr_decodes_to_what_was_encoded() {
    let address = Address::from_cash_addr(ZERO_P2PKH.to_string()).unwrap();
    assert_eq!(address.bytes(), &[0u8; 20]);
    assert_eq!(address.addr_type(), AddressType::P2PKH);
    assert_eq!(address.prefix(), "bitcoincash");
    assert_eq!(address.cash_addr(), ZERO_P2PKH);
}

#[test]
fn cash_addr_round_trip_for_other_hashes() {
    let mut bytes = [0u8; 20];
    for (i, b) in bytes.iter_mut().enumerate() {
        *b = (i * 13 + 7) as u8;
    }
    for addr_type in [AddressType::P2PKH, AddressType::P2SH] {
        for prefix in ["bitcoincash", "bchtest", "simpleledger"] {
            let address = Address::from_bytes_prefix(prefix, addr_type, bytes);
            assert!(address.cash_addr().starts_with(&format!("{}:", prefix)));
            assert_eq!(address.cash_addr().len(), prefix.len() + 1 + 42);
            let back = Address::from_cash_addr(address.cash_addr().to_string()).unwrap();
            assert_eq!(back.bytes(), &bytes);
            assert_eq!(back.addr_type(), addr_type);
            assert_eq!(back.prefix(), prefix);
            assert_eq!(back, address);
        }
    }
}

#[test]
fn cash_addr_known_address() {
    // test vector of the address format
    let hash = [
        0x76, 0xa0, 0x40, 0x53, 0xbd, 0xa0, 0xa8, 0x8b, 0xda, 0x51, 0x77, 0xb8, 0x6a, 0x15, 0xc3,
        0xb2, 0x9f, 0x55, 0x98, 0x73,
    ];
    let address = Address::from_bytes(AddressType::P2PKH, hash);
    assert_eq!(
        address.cash_addr(),
        "bitcoincash:qpm2qsznhks23z7629mms6s4cwef74vcwvy22gdx6a"
    );
    let address = Address::from_bytes(AddressType::P2SH, hash);
    assert_eq!(
        address.cash_addr(),
        "bitcoincash:ppm2qsznhks23z7629mms6s4cwef74vcwvn0h829pq"
    );
}

#[test]
fn cash_addr_upper_case_is_read() {
    let address = Address::from_cash_addr(ZERO_P2PKH.to_uppercase()).unwrap();
    assert_eq!(address.bytes(), &[0u8; 20]);
    assert_eq!(address.prefix(), "bitcoincash");
    assert_eq!(address.cash_addr(), ZERO_P2PKH.to_uppercase());
}

#[test]
fn any_changed_letter_breaks_the_checksum() {
    let charset = "qpzry9x8gf2tvdw0s3jn54khce6mua7l";
    let start = "bitcoincash:".len();
    for pos in start..ZERO_P2PKH.len() {
        let old = ZERO_P2PKH.as_bytes()[pos] as char;
        for c in charset.chars() {
            if c == old {
                continue;
            }
            let mut text = ZERO_P2PKH.to_string();
            text.replace_range(pos..pos + 1, &c.to_string());
            match Address::from_cash_addr(text) {
                Err(AddressError::InvalidChecksum) => {}
                other => panic!("{:?} at {} with {}", other, pos, c),
            }
        }
    }
}

#[test]
fn a_letter_outside_the_alphabet_is_named() {
    let mut text = ZERO_P2PKH.to_string();
    let pos = "bitcoincash:".len() + 3;
    text.replace_range(pos..pos + 1, "b");
    assert_eq!(
        Address::from_cash_addr(text).unwrap_err(),
        AddressError::InvalidBase32Letter(3, b'b')
    );
    assert_eq!(
        Address::from_cash_addr("bitcoincash:qq1".to_string()).unwrap_err(),
        AddressError::InvalidBase32Letter(2, b'1')
    );
}

#[test]
fn text_without_colon_is_rejected() {
    assert_eq!(
        Address::from_cash_addr("qqqqqqqqqqqqqqqqqqqqqqqqqqqqqqqqqqfnhks603".to_string()).unwrap_err(),
        AddressError::InvalidBase32Letter(0, b'b')
    );
}

#[test]
fn unknown_version_byte_is_rejected() {
    // a text with version byte 1, a hash of 20 zero bytes and fitting check letters
    assert_eq!(
        Address::from_cash_addr(version_one_text()).unwrap_err(),
        AddressError::InvalidAddressType(1)
    );
}

fn poly_mod(values: &[u8]) -> u64 {
    let mut c: u64 = 1;
    for value in values {
        let c0 = (c >> 35) as u8;
        c = ((c & 0x07_ffff_ffff) << 5) ^ (*value as u64);
        if c0 & 0x01 != 0 {
            c ^= 0x98_f2bc_8e61
        }
        if c0 & 0x02 != 0 {
            c ^= 0x79_b76d_99e2
        }
        if c0 & 0x04 != 0 {
            c ^= 0xf3_3e5f_b3c4
        }
        if c0 & 0x08 != 0 {
            c ^= 0xae_2eab_e2a8
        }
        if c0 & 0x10 != 0 {
            c ^= 0x1e_4f43_e470
        }
    }
    c ^ 1
}

fn text_of(version: u8, hash: &[u8]) -> String {
    let charset = b"qpzry9x8gf2tvdw0s3jn54khce6mua7l";
    // the version byte and the hash as groups of five bits, filled up with zeros
    let mut bits: Vec<bool> = Vec::new();
    for byte in std::iter::once(&version).chain(hash.iter()) {
        for i in (0..8).rev() {
            bits.push((byte >> i) & 1 == 1);
        }
    }
    while bits.len() % 5 != 0 {
        bits.push(false);
    }
    let payload: Vec<u8> =
        bits.chunks(5).map(|c| c.iter().fold(0u8, |v, b| (v << 1) | *b as u8)).collect();
    let mut values: Vec<u8> = "bitcoincash".bytes().map(|b| b & 0x1f).collect();
    values.push(0);
    values.extend(&payload);
    values.extend(&[0u8; 8]);
    let poly = poly_mod(&values);
    let mut text = String::from("bitcoincash:");
    for v in &payload {
        text.push(charset[*v as usize] as char);
    }
    for i in 0..8 {
        text.push(charset[((poly >> (5 * (7 - i))) & 0x1f) as usize] as char);
    }
    text
}

fn version_one_text() -> String {
    text_of(1, &[0u8; 20])
}

#[test]
fn helper_writes_what_the_library_writes() {
    assert_eq!(text_of(0, &[0u8; 20]), ZERO_P2PKH);
    assert_eq!(
        text_of(8, &[0x5a; 20]),
        Address::from_bytes(AddressType::P2SH, [0x5a; 20]).cash_addr()
    );
}

#[test]
fn other_sizes_of_hash_are_told_apart() {
    // a hash of 32 bytes with fitting check letters is no address of this library
    assert!(Address::try_from_cash_addr(text_of(3, &[0x11; 32])).is_none());
    assert!(Address::try_from_cash_addr(text_of(0, &[0x11; 19])).is_none());
    assert!(Address::try_from_cash_addr(text_of(0, &[0x11; 21])).is_none());
    let ok = Address::try_from_cash_addr(text_of(0, &[0x11; 20])).unwrap().unwrap();
    assert_eq!(ok.bytes(), &[0x11; 20]);
    assert_eq!(
        Address::try_from_cash_addr("bitcoincash:qq".to_string()).unwrap().unwrap_err(),
        AddressError::InvalidChecksum
    );
    assert_eq!(
        Address::try_from_cash_addr(version_one_text()).unwrap().unwrap_err(),
        AddressError::InvalidAddressType(1)
    );
}

#[test]
fn from_slice_wants_twenty_bytes() {
    assert!(Address::from_slice(AddressType::P2PKH, &[0u8; 19]).is_none());
    assert!(Address::from_slice(AddressType::P2PKH, &[0u8; 21]).is_none());
    let address = Address::from_slice(AddressType::P2PKH, &[0u8; 20]).unwrap();
    assert_eq!(address.cash_addr(), ZERO_P2PKH);
    assert!(Address::from_slice_prefix("bchtest", AddressType::P2SH, &[1u8; 20]).is_some());
    assert!(Address::from_slice_prefix("bchtest", AddressType::P2SH, &[]).is_none());
}

#[test]
fn with_prefix_keeps_hash_and_kind() {
    let address = Address::from_bytes(AddressType::P2SH, [0x11; 20]);
    let other = address.with_prefix("bchtest".to_string());
    assert_eq!(other.bytes(), address.bytes());
    assert_eq!(other.addr_type(), AddressType::P2SH);
    assert_eq!(other.prefix(), "bchtest");
    assert_eq!(
        other,
        Address::from_bytes_prefix("bchtest", AddressType::P2SH, [0x11; 20])
    );
    assert_ne!(other.cash_addr(), address.cash_addr());
}

#[test]
fn address_of_public_key() {
    let pub_key = [0x02u8; 33];
    let address = Address::from_serialized_pub_key("bitcoincash", AddressType::P2PKH, &pub_key);
    assert_eq!(address.bytes(), &bitcoin_cash::hash160(&pub_key));
}

#[test]
fn version_bytes() {
    assert_eq!(AddressType::P2PKH.version(), 0);
    assert_eq!(AddressType::P2SH.version(), 8);
}
