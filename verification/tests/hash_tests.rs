use bitcoin_cash::{double_sha256, hash160, single_sha256, tx_hash_to_hex, tx_hex_to_hash};

fn hex(bytes: &[u8]) -> String {
    let mut s = String::new();
    for b in bytes {
        s.push_str(&format!("{:02x}", b));
    }
    s
}

#[test]
fn sha256_of_known_inputs() {
    assert_eq!(
        hex(&single_sha256(b"")),
        "e3b0c44298fc1c149afbf4c8996fb92427ae41e4649b934ca495991b7852b855"
    );
    assert_eq!(
        hex(&single_sha256(b"abc")),
        "ba7816bf8f01cfea414140de5dae2223b00361a396177a9cb410ff61f20015ad"
    );
}

#[test]
fn double_sha256_of_known_inputs() {
    assert_eq!(
        hex(&double_sha256(b"")),
        "5df6e0e2761359d30a8275058e299fcc0381534545f55cf43e41983f5d4c9456"
    );
    assert_eq!(double_sha256(b"abc"), single_sha256(&single_sha256(b"abc")));
}

#[test]
fn hash160_of_known_inputs() {
    assert_eq!(hex(&hash160(b"")), "b472a266d0bd89c13706a4132ccfb16f7c3b9fcb");
    assert_ne!(hash160(b"a"), hash160(b"b"));
}

#[test]
fn transaction_hash_as_text() {
    let mut hash = [0u8; 32];
    for (i, b) in hash.iter_mut().enumerate() {
        *b = i as u8;
    }
    let text = tx_hash_to_hex(&hash);
    assert_eq!(
        text,
        "1f1e1d1c1b1a191817161514131211100f0e0d0c0b0a09080706050403020100"
    );
    assert_eq!(tx_hex_to_hash(&text), Some(hash));
    assert_eq!(tx_hex_to_hash(&text.to_uppercase()), Some(hash));
}

#[test]
fn transaction_hash_text_must_be_64_digits() {
    assert_eq!(tx_hex_to_hash(""), None);
    assert_eq!(tx_hex_to_hash("00"), None);
    assert_eq!(tx_hex_to_hash(&"0".repeat(63)), None);
    assert_eq!(tx_hex_to_hash(&"0".repeat(66)), None);
    assert_eq!(tx_hex_to_hash(&"g".repeat(64)), None);
    assert_eq!(tx_hex_to_hash(&"0".repeat(64)), Some([0u8; 32]));
}
