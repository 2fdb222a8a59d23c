use bitcoin_cash::serialize::var_int_to_vec;
use bitcoin_cash::{
    double_sha256, Address, AddressType, Op, Output, P2PKHOutput, PreImage, PreImageWriteFlags,
    Script, TxOutpoint, UnsignedInput, UnsignedTx, DUST_AMOUNT,
};

fn address(byte: u8) -> Address {
    Address::from_bytes(AddressType::P2PKH, [byte; 20])
}

fn p2pkh_input(hash_byte: u8, vout: u32, value: u64, sequence: u32) -> UnsignedInput {
    UnsignedInput {
        outpoint: TxOutpoint { tx_hash: [hash_byte; 32], vout },
        output: Output::P2PKH(P2PKHOutput { value, address: address(0x55) }),
        sequence,
    }
}

fn flags(on: [bool; 10]) -> PreImageWriteFlags {
    PreImageWriteFlags {
        version: on[0],
        hash_prevouts: on[1],
        hash_sequence: on[2],
        outpoint: on[3],
        script_code: on[4],
        value: on[5],
        sequence: on[6],
        hash_outputs: on[7],
        lock_time: on[8],
        sighash_type: on[9],
    }
}

fn sample_pre_image() -> PreImage {
    PreImage {
        version: 2,
        hash_prevouts: [0x01; 32],
        hash_sequence: [0x02; 32],
        outpoint: TxOutpoint { tx_hash: [0x03; 32], vout: 4 },
        script_code: Script::new(vec![Op::Push(vec![0xaa, 0xbb])]),
        value: 5,
        sequence: 6,
        hash_outputs: [0x07; 32],
        lock_time: 8,
        sighash_type: 0x41,
    }
}

#[test]
fn pre_image_full_layout() {
    let pre_image = sample_pre_image();
    let mut bytes = Vec::new();
    pre_image.write_to_stream(&mut bytes);
    let mut expected = vec![2, 0, 0, 0];
    expected.extend(&[0x01; 32]);
    expected.extend(&[0x02; 32]);
    expected.extend(&[0x03; 32]);
    expected.extend(&[4, 0, 0, 0]);
    expected.extend(&[3, 2, 0xaa, 0xbb]);
    expected.extend(&[5, 0, 0, 0, 0, 0, 0, 0]);
    expected.extend(&[6, 0, 0, 0]);
    expected.extend(&[0x07; 32]);
    expected.extend(&[8, 0, 0, 0]);
    expected.extend(&[0x41, 0, 0, 0]);
    assert_eq!(bytes, expected);
    assert_eq!(bytes.len(), 4 + 32 + 32 + 36 + 4 + 8 + 4 + 32 + 4 + 4);
}

#[test]
fn pre_image_chosen_fields() {
    let pre_image = sample_pre_image();
    let mut bytes = vec![0xee];
    pre_image.write_to_stream_flags(
        &mut bytes,
        flags([false, false, false, false, false, true, true, false, false, false]),
    );
    assert_eq!(bytes, vec![0xee, 5, 0, 0, 0, 0, 0, 0, 0, 6, 0, 0, 0]);
    let mut bytes = Vec::new();
    pre_image.write_to_stream_flags(
        &mut bytes,
        flags([false, false, false, false, false, false, false, false, true, true]),
    );
    assert_eq!(bytes, vec![8, 0, 0, 0, 0x41, 0, 0, 0]);
    let mut bytes = Vec::new();
    pre_image.write_to_stream_flags(&mut bytes, flags([false; 10]));
    assert_eq!(bytes, Vec::<u8>::new());
    let mut bytes = Vec::new();
    pre_image.write_to_stream_flags(
        &mut bytes,
        flags([true, false, false, true, true, false, false, false, false, false]),
    );
    let mut expected = vec![2, 0, 0, 0];
    expected.extend(&[0x03; 32]);
    expected.extend(&[4, 0, 0, 0]);
    expected.extend(&[3, 2, 0xaa, 0xbb]);
    assert_eq!(bytes, expected);
}

#[test]
fn pre_image_script_in_signed_form() {
    let mut pre_image = sample_pre_image();
    pre_image.script_code = Script::new(vec![
        Op::Push(vec![1]),
        Op::Code(bitcoin_cash::OpCodeType::OpCodeSeparator),
        Op::Code(bitcoin_cash::OpCodeType::OpDup),
    ]);
    let mut bytes = Vec::new();
    pre_image.write_to_stream_flags(
        &mut bytes,
        flags([false, false, false, false, true, false, false, false, false, false]),
    );
    assert_eq!(bytes, vec![1, 0x76]);
}

#[test]
fn empty_pre_image() {
    let pre_image = PreImage::empty(Script::new(vec![]));
    let mut bytes = Vec::new();
    pre_image.write_to_stream(&mut bytes);
    assert_eq!(bytes, vec![0u8; 4 + 32 + 32 + 36 + 1 + 8 + 4 + 32 + 4 + 4]);
}

#[test]
fn pre_images_share_the_hashes() {
    let mut tx = UnsignedTx::new_locktime(99);
    assert_eq!(tx.add_input(p2pkh_input(0x10, 1, 1000, 0xffff_fffe)), 0);
    assert_eq!(tx.add_input(p2pkh_input(0x20, 2, 2000, 0xffff_fffd)), 1);
    let out0 = P2PKHOutput { value: 700, address: address(0x01) }.to_output();
    let out1 = P2PKHOutput { value: 800, address: address(0x02) }.to_output();
    let mut outputs_wire = Vec::new();
    out0.write_to_stream(&mut outputs_wire);
    out1.write_to_stream(&mut outputs_wire);
    assert_eq!(tx.add_output(out0), 0);
    assert_eq!(tx.add_output(out1), 1);

    let pre_images = tx.pre_images(0x41);
    assert_eq!(pre_images.len(), 2);

    let mut prevouts = vec![0x10; 32];
    prevouts.extend(&[1, 0, 0, 0]);
    prevouts.extend(&[0x20; 32]);
    prevouts.extend(&[2, 0, 0, 0]);
    let sequences = vec![0xfe, 0xff, 0xff, 0xff, 0xfd, 0xff, 0xff, 0xff];
    for (i, pre_image) in pre_images.iter().enumerate() {
        assert_eq!(pre_image.version, 1);
        assert_eq!(pre_image.hash_prevouts, double_sha256(&prevouts));
        assert_eq!(pre_image.hash_sequence, double_sha256(&sequences));
        assert_eq!(pre_image.hash_outputs, double_sha256(&outputs_wire));
        assert_eq!(pre_image.lock_time, 99);
        assert_eq!(pre_image.sighash_type, 0x41);
        assert_eq!(pre_image.value, 1000 * (i as u64 + 1));
        assert_eq!(pre_image.outpoint.vout, i as u32 + 1);
        assert_eq!(
            pre_image.script_code.to_vec(),
            P2PKHOutput { value: 0, address: address(0x55) }.script().to_vec()
        );
    }
    assert_eq!(pre_images[0].sequence, 0xffff_fffe);
    assert_eq!(pre_images[1].sequence, 0xffff_fffd);
    assert_eq!(pre_images[0].outpoint.tx_hash, [0x10; 32]);
}

#[test]
fn editing_outputs_and_inputs() {
    let mut tx = UnsignedTx::new_simple();
    tx.add_input(p2pkh_input(1, 0, 10, 0));
    tx.replace_input(0, p2pkh_input(2, 5, 20, 1));
    let out = |v: u64| P2PKHOutput { value: v, address: address(0x09) }.to_output();
    tx.add_output(out(1));
    tx.add_output(out(3));
    tx.insert_output(1, out(2));
    tx.insert_output(3, out(4));
    tx.replace_output(0, out(10));
    tx.remove_output(2);
    let signed = tx.sign(vec![vec![1]], vec![vec![2]]);
    let values: Vec<u64> = signed.outputs().iter().map(|o| o.value).collect();
    assert_eq!(values, vec![10, 2, 4]);
    assert_eq!(signed.inputs().len(), 1);
    assert_eq!(signed.inputs()[0].outpoint.vout, 5);
    assert_eq!(signed.inputs()[0].sequence, 1);
}

#[test]
fn estimate_size_reckons_longest_signatures() {
    let mut tx = UnsignedTx::new_simple();
    assert_eq!(tx.estimate_size(), 4 + 1 + 1 + 4 + 2);
    tx.add_input(p2pkh_input(1, 0, 10_000, 0xffff_ffff));
    assert_eq!(tx.estimate_size(), 10 + 36 + 1 + 108 + 4 + 2);
    tx.add_output(P2PKHOutput { value: 1, address: address(3) }.to_output());
    assert_eq!(tx.estimate_size(), 10 + 149 + 34 + 2);
    for sig_len in [0usize, 1, 8, 70, 71, 72] {
        let signed = tx.sign(vec![vec![0x30; sig_len]], vec![vec![0x02; 33]]);
        let mut bytes = Vec::new();
        signed.write_to_stream(&mut bytes);
        assert!(bytes.len() <= tx.estimate_size());
    }
    let signed = tx.sign(vec![vec![0x30; 72]], vec![vec![0x02; 33]]);
    let mut bytes = Vec::new();
    signed.write_to_stream(&mut bytes);
    assert_eq!(bytes.len() + 2, tx.estimate_size());
}

#[test]
fn sign_puts_the_signature_kind_behind_each_signature() {
    let mut tx = UnsignedTx::new_simple();
    tx.add_input(p2pkh_input(1, 0, 10_000, 0xffff_ffff));
    tx.add_input(p2pkh_input(2, 0, 10_000, 0xffff_ffff));
    let signed = tx.sign(vec![vec![1, 2], vec![3]], vec![vec![4], vec![5, 6]]);
    assert_eq!(signed.inputs().len(), 2);
    assert_eq!(
        signed.inputs()[0].script().ops(),
        &[Op::Push(vec![1, 2, 0x41]), Op::Push(vec![4])]
    );
    assert_eq!(
        signed.inputs()[1].script().ops(),
        &[Op::Push(vec![3, 0x41]), Op::Push(vec![5, 6])]
    );
    // inputs without a signature are left out
    let signed = tx.sign(vec![vec![1, 2]], vec![vec![4], vec![5, 6]]);
    assert_eq!(signed.inputs().len(), 1);
}

#[test]
fn fee_aware_change() {
    let mut tx = UnsignedTx::new_simple();
    tx.add_input(p2pkh_input(1, 0, 10_000, 0xffff_ffff));
    tx.add_input(p2pkh_input(2, 1, 10_000, 0xffff_ffff));
    tx.add_output(P2PKHOutput { value: 15_000, address: address(0xaa) }.to_output());
    let result = tx.add_leftover_output(address(0x55), 1000, DUST_AMOUNT);
    assert_eq!(result, Ok(Some(1)));
    let tx_size = tx.estimate_size();
    assert_eq!(tx_size, 4 + 1 + 2 * 149 + 1 + 2 * 34 + 4 + 2);
    let signed = tx.sign(vec![vec![0x30; 71]; 2], vec![vec![0x02; 33]; 2]);
    assert_eq!(signed.outputs().len(), 2);
    assert_eq!(signed.outputs()[0].value, 15_000);
    assert_eq!(signed.outputs()[1].value, 20_000 - 15_000 - tx_size as u64);
    assert_eq!(signed.outputs()[1].value, 4622);
    assert_eq!(
        signed.outputs()[1].script().to_vec(),
        P2PKHOutput { value: 0, address: address(0x55) }.script().to_vec()
    );
    // what goes in is what comes out and the fee
    let spent: u64 = signed.outputs().iter().map(|o| o.value).sum();
    assert_eq!(20_000, spent + tx_size as u64 * 1000 / 1000);
    let mut bytes = Vec::new();
    signed.write_to_stream(&mut bytes);
    assert!(bytes.len() <= tx_size && tx_size <= bytes.len() + 2 + 2 * 2);
}

#[test]
fn change_at_a_chosen_place_and_rate() {
    let mut tx = UnsignedTx::new_simple();
    tx.add_input(p2pkh_input(1, 0, 100_000, 0xffff_ffff));
    tx.add_output(P2PKHOutput { value: 50_000, address: address(0xaa) }.to_output());
    let result = tx.insert_leftover_output(0, address(0x55), 2500, DUST_AMOUNT);
    assert_eq!(result, Ok(Some(0)));
    let size = (10 + 149 + 2 * 34 + 2) as u64;
    let signed = tx.sign(vec![vec![0x30; 71]], vec![vec![0x02; 33]]);
    assert_eq!(signed.outputs()[0].value, 100_000 - 50_000 - size * 2500 / 1000);
    assert_eq!(signed.outputs()[1].value, 50_000);
}

#[test]
fn shortfall_is_reported_and_nothing_changes() {
    let mut tx = UnsignedTx::new_simple();
    tx.add_input(p2pkh_input(1, 0, 10_000, 0xffff_ffff));
    tx.add_output(P2PKHOutput { value: 10_000, address: address(0xaa) }.to_output());
    let size_with = (10 + 149 + 2 * 34 + 2) as u64;
    let result = tx.add_leftover_output(address(0x55), 1000, DUST_AMOUNT);
    assert_eq!(result, Err(size_with));
    let signed = tx.sign(vec![vec![1]], vec![vec![2]]);
    assert_eq!(signed.outputs().len(), 1);
    let mut tx = UnsignedTx::new_simple();
    tx.add_input(p2pkh_input(1, 0, 10_000, 0xffff_ffff));
    tx.add_output(P2PKHOutput { value: 30_000, address: address(0xaa) }.to_output());
    assert_eq!(
        tx.add_leftover_output(address(0x55), 1000, DUST_AMOUNT),
        Err(20_000 + size_with)
    );
}

#[test]
fn change_below_dust_is_left_out() {
    let mut tx = UnsignedTx::new_simple();
    tx.add_input(p2pkh_input(1, 0, 10_000, 0xffff_ffff));
    let size_without = (10 + 149 + 34 + 2) as u64;
    tx.add_output(
        P2PKHOutput { value: 10_000 - size_without - 545, address: address(0xaa) }.to_output(),
    );
    assert_eq!(tx.add_leftover_output(address(0x55), 1000, DUST_AMOUNT), Ok(None));
    assert_eq!(tx.sign(vec![vec![1]], vec![vec![2]]).outputs().len(), 1);
    // exactly the dust limit is kept
    let mut tx = UnsignedTx::new_simple();
    tx.add_input(p2pkh_input(1, 0, 10_000, 0xffff_ffff));
    tx.add_output(
        P2PKHOutput { value: 10_000 - size_without - 546, address: address(0xaa) }.to_output(),
    );
    assert_eq!(tx.add_leftover_output(address(0x55), 1000, DUST_AMOUNT), Ok(Some(1)));
    let signed = tx.sign(vec![vec![1]], vec![vec![2]]);
    assert_eq!(signed.outputs()[1].value, 546 - 34);
}

#[test]
fn compact_size_of_script_length_is_in_the_prefix() {
    // the script length as it stands in a pre-image
    assert_eq!(var_int_to_vec(25), vec![25]);
    assert_eq!(var_int_to_vec(300), vec![0xfd, 0x2c, 0x01]);
}
