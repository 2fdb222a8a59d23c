use bitcoin_cash::{Address, AddressError, AddressType, Op, UtxoEntry, Wallet, DUST_AMOUNT};

fn wallet() -> Wallet {
    let address = Address::from_bytes(AddressType::P2PKH, [0x55; 20]);
    Wallet::from_cash_addr(address.cash_addr().to_string()).unwrap()
}

fn utxo(byte: u8, vout: u32, amount: u64) -> UtxoEntry {
    UtxoEntry { tx_id_hex: format!("{:02x}", byte).repeat(31) + "00", vout, amount }
}

#[test]
fn wallet_of_address() {
    let wallet = wallet();
    assert_eq!(wallet.address().bytes(), &[0x55; 20]);
    assert_eq!(wallet.dust_amount(), 546);
    assert_eq!(DUST_AMOUNT, 546);
    assert_eq!(
        Wallet::from_cash_addr("bitcoincash:qq".to_string()).err(),
        Some(AddressError::InvalidChecksum)
    );
}

#[test]
fn init_tx_spends_each_utxo() {
    let wallet = wallet();
    let tx = wallet.init_tx(&[utxo(0x11, 0, 1000), utxo(0x22, 3, 2000)]);
    let pre_images = tx.pre_images(0x41);
    assert_eq!(pre_images.len(), 2);
    let mut hash = [0x11; 32];
    hash[0] = 0;
    assert_eq!(pre_images[0].outpoint.tx_hash, hash);
    assert_eq!(pre_images[0].outpoint.vout, 0);
    assert_eq!(pre_images[0].value, 1000);
    assert_eq!(pre_images[0].sequence, 0xffff_ffff);
    assert_eq!(pre_images[1].outpoint.vout, 3);
    assert_eq!(pre_images[1].value, 2000);
    assert_eq!(pre_images[0].version, 1);
    assert_eq!(pre_images[0].lock_time, 0);
    let signed = tx.sign(vec![vec![1], vec![2]], vec![vec![3], vec![4]]);
    assert_eq!(signed.outputs().len(), 0);
    assert_eq!(
        signed.inputs()[1].script().ops(),
        &[Op::Push(vec![2, 0x41]), Op::Push(vec![4])]
    );
}

#[test]
fn send_to_address_adds_change() {
    let wallet = wallet();
    let receiver = Address::from_bytes(AddressType::P2PKH, [0xaa; 20]);
    let tx = wallet
        .send_to_address(receiver, 15_000, &[utxo(0x11, 0, 10_000), utxo(0x22, 1, 10_000)])
        .unwrap();
    let signed = tx.sign(vec![vec![0x30; 71]; 2], vec![vec![0x02; 33]; 2]);
    assert_eq!(signed.outputs().len(), 2);
    assert_eq!(signed.outputs()[0].value, 15_000);
    assert_eq!(signed.outputs()[1].value, 5000 - 378);
    let mut change_lock = vec![0x76, 0xa9, 0x14];
    change_lock.extend(&[0x55; 20]);
    change_lock.extend(&[0x88, 0xac]);
    assert_eq!(signed.outputs()[1].script().to_vec(), change_lock);
}

#[test]
fn send_to_address_reports_what_is_missing() {
    let wallet = wallet();
    let receiver = Address::from_bytes(AddressType::P2PKH, [0xaa; 20]);
    let result = wallet.send_to_address(receiver, 15_000, &[utxo(0x11, 0, 10_000)]);
    assert_eq!(result.err(), Some(5000 + 10 + 149 + 68 + 2));
}

#[test]
fn send_to_address_without_change() {
    let wallet = wallet();
    let receiver = Address::from_bytes(AddressType::P2PKH, [0xaa; 20]);
    let tx = wallet.send_to_address(receiver, 9_700, &[utxo(0x11, 0, 10_000)]).unwrap();
    let signed = tx.sign(vec![vec![0x30; 71]], vec![vec![0x02; 33]]);
    assert_eq!(signed.outputs().len(), 1);
}
