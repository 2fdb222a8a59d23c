use bitcoin_cash::{
    double_sha256, Address, AddressType, InvalidData, Op, OpCodeType, Output, P2PKHOutput,
    Script, Tx, TxInput, TxOutpoint, TxOutput, UnsignedInput, UnsignedTx,
};

fn sample_tx() -> Tx {
    let input = TxInput::new(
        TxOutpoint { tx_hash: [0x11; 32], vout: 2 },
        Script::new(vec![Op::Push(vec![0xaa; 3]), Op::Push(vec![0xbb; 2])]),
        0xffff_fffe,
    );
    let output = TxOutput::new(
        0x0102_0304_0506_0708,
        Script::new(vec![Op::Code(OpCodeType::OpDup), Op::Push(vec![0xcc; 2])]),
    );
    Tx::new(1, vec![input], vec![output], 0x0a0b0c0d)
}

fn sample_bytes() -> Vec<u8> {
    let mut bytes = vec![0x01, 0x00, 0x00, 0x00]; // version
    bytes.push(0x01); // one input
    bytes.extend(&[0x11; 32]);
    bytes.extend(&[0x02, 0x00, 0x00, 0x00]);
    bytes.push(0x07);
    bytes.extend(&[0x03, 0xaa, 0xaa, 0xaa, 0x02, 0xbb, 0xbb]);
    bytes.extend(&[0xfe, 0xff, 0xff, 0xff]);
    bytes.push(0x01); // one output
    bytes.extend(&[0x08, 0x07, 0x06, 0x05, 0x04, 0x03, 0x02, 0x01]);
    bytes.push(0x04);
    bytes.extend(&[0x76, 0x02, 0xcc, 0xcc]);
    bytes.extend(&[0x0d, 0x0c, 0x0b, 0x0a]); // lock time
    bytes
}

#[test]
fn outpoint_bytes() {
    let outpoint = TxOutpoint { tx_hash: [0x22; 32], vout: 0x01020304 };
    let bytes = outpoint.bytes();
    assert_eq!(&bytes[..32], &[0x22; 32]);
    assert_eq!(&bytes[32..], &[0x04, 0x03, 0x02, 0x01]);
}

#[test]
fn wire_format() {
    let mut bytes = Vec::new();
    sample_tx().write_to_stream(&mut bytes);
    assert_eq!(bytes, sample_bytes());
}

#[test]
fn negative_version() {
    let tx = Tx::new(-2, vec![], vec![], 0);
    let mut bytes = Vec::new();
    tx.write_to_stream(&mut bytes);
    assert_eq!(bytes, vec![0xfe, 0xff, 0xff, 0xff, 0, 0, 0, 0, 0, 0]);
    let (back, end) = Tx::read_from_stream(&bytes, 0).unwrap();
    assert_eq!(end, 10);
    let mut again = Vec::new();
    back.write_to_stream(&mut again);
    assert_eq!(again, bytes);
}

#[test]
fn hash_is_double_sha256_of_wire_form() {
    assert_eq!(sample_tx().hash(), double_sha256(&sample_bytes()));
}

#[test]
fn read_gives_back_what_was_written() {
    let mut bytes = sample_bytes();
    bytes.extend(&[0xde, 0xad]);
    let (tx, end) = Tx::read_from_stream(&bytes, 0).unwrap();
    assert_eq!(end, sample_bytes().len());
    assert_eq!(tx.inputs().len(), 1);
    assert_eq!(tx.outputs().len(), 1);
    assert_eq!(tx.inputs()[0].outpoint.tx_hash, [0x11; 32]);
    assert_eq!(tx.inputs()[0].outpoint.vout, 2);
    assert_eq!(tx.inputs()[0].sequence, 0xffff_fffe);
    assert_eq!(
        tx.inputs()[0].script().ops(),
        &[Op::Push(vec![0xaa; 3]), Op::Push(vec![0xbb; 2])]
    );
    assert_eq!(tx.outputs()[0].value, 0x0102_0304_0506_0708);
    assert_eq!(tx.outputs()[0].script().to_vec(), vec![0x76, 0x02, 0xcc, 0xcc]);
    let mut again = Vec::new();
    tx.write_to_stream(&mut again);
    assert_eq!(again, sample_bytes());
}

#[test]
fn read_at_a_position() {
    let mut bytes = vec![0x00, 0x01, 0x02];
    bytes.extend(sample_bytes());
    let (tx, end) = Tx::read_from_stream(&bytes, 3).unwrap();
    assert_eq!(end, bytes.len());
    assert_eq!(tx.hash(), sample_tx().hash());
}

#[test]
fn every_truncation_is_reported() {
    let bytes = sample_bytes();
    for len in 0..bytes.len() {
        match Tx::read_from_stream(&bytes[..len], 0) {
            Err(InvalidData::Truncated) => {}
            other => panic!("{:?} at {}", other.map(|(_, end)| end), len),
        }
    }
}

#[test]
fn a_script_cut_inside_a_push_is_reported() {
    let mut bytes = vec![0x01, 0x00, 0x00, 0x00, 0x00, 0x01];
    bytes.extend(&[0u8; 8]);
    bytes.extend(&[0x02, 0x05, 0x01]); // a script that pushes five bytes and holds one
    bytes.extend(&[0u8; 4]);
    match Tx::read_from_stream(&bytes, 0) {
        Err(InvalidData::BadScript) => {}
        other => panic!("{:?}", other.map(|(_, end)| end)),
    }
    let mut bytes = vec![0x01, 0x00, 0x00, 0x00, 0x01];
    bytes.extend(&[0u8; 36]);
    bytes.extend(&[0x01, 0x4c]);
    bytes.extend(&[0u8; 4]);
    bytes.push(0x00);
    bytes.extend(&[0u8; 4]);
    match Tx::read_from_stream(&bytes, 0) {
        Err(InvalidData::BadScript) => {}
        other => panic!("{:?}", other.map(|(_, end)| end)),
    }
}

#[test]
fn input_and_output_alone() {
    let input = TxInput::new(
        TxOutpoint { tx_hash: [0x33; 32], vout: 1 },
        Script::new(vec![Op::Push(vec![0x05])]),
        7,
    );
    let mut bytes = Vec::new();
    input.write_to_stream(&mut bytes);
    let mut expected = vec![0x33; 32];
    expected.extend(&[1, 0, 0, 0, 1, 0x55, 7, 0, 0, 0]);
    assert_eq!(bytes, expected);
    let (back, end) = TxInput::read_from_stream(&bytes, 0).unwrap();
    assert_eq!(end, bytes.len());
    assert_eq!(back.script().ops(), &[Op::Code(OpCodeType::Op5)]);
    assert_eq!(back.sequence, 7);

    let output = TxOutput::new(546, Script::new(vec![Op::Code(OpCodeType::OpReturn)]));
    let mut bytes = Vec::new();
    output.write_to_stream(&mut bytes);
    assert_eq!(bytes, vec![0x22, 0x02, 0, 0, 0, 0, 0, 0, 1, 0x6a]);
    let (back, end) = TxOutput::read_from_stream(&bytes, 0).unwrap();
    assert_eq!(end, 10);
    assert_eq!(back.value, 546);
    assert_eq!(back.script().to_vec(), vec![0x6a]);
}

#[test]
fn p2pkh_round_trip() {
    let mut tx_build = UnsignedTx::new_simple();
    let owner = Address::from_bytes(AddressType::P2PKH, [0x55; 20]);
    tx_build.add_input(UnsignedInput {
        outpoint: TxOutpoint { tx_hash: [0x77; 32], vout: 0 },
        output: Output::P2PKH(P2PKHOutput { value: 20_000, address: owner }),
        sequence: 0xffff_ffff,
    });
    let receiver = Address::from_bytes(AddressType::P2PKH, [0xaa; 20]);
    tx_build.add_output(P2PKHOutput { value: 10_000, address: receiver }.to_output());
    let sig = vec![0x30u8; 71];
    let pub_key = vec![0x02u8; 33];
    let tx = tx_build.sign(vec![sig.clone()], vec![pub_key.clone()]);
    let mut bytes = Vec::new();
    tx.write_to_stream(&mut bytes);

    let mut expected = vec![0x01, 0x00, 0x00, 0x00, 0x01];
    expected.extend(&[0x77; 32]);
    expected.extend(&[0, 0, 0, 0]);
    expected.push(1 + 72 + 1 + 33);
    expected.push(72);
    expected.extend(&sig);
    expected.push(0x41);
    expected.push(33);
    expected.extend(&pub_key);
    expected.extend(&[0xff; 4]);
    expected.push(0x01);
    expected.extend(&[0x10, 0x27, 0, 0, 0, 0, 0, 0]);
    expected.push(25);
    expected.extend(&[0x76, 0xa9, 0x14]);
    expected.extend(&[0xaa; 20]);
    expected.extend(&[0x88, 0xac]);
    expected.extend(&[0, 0, 0, 0]);
    assert_eq!(bytes, expected);

    let (back, end) = Tx::read_from_stream(&bytes, 0).unwrap();
    assert_eq!(end, bytes.len());
    let mut again = Vec::new();
    back.write_to_stream(&mut again);
    assert_eq!(again, bytes);
    assert_eq!(back.hash(), tx.hash());
    assert_eq!(back.inputs().len(), 1);
    assert_eq!(back.outputs().len(), 1);
    assert_eq!(back.outputs()[0].value, 10_000);
    assert_eq!(back.inputs()[0].outpoint.tx_hash, [0x77; 32]);
    assert_eq!(back.inputs()[0].script().ops(), tx.inputs()[0].script().ops());
    assert_eq!(back.outputs()[0].script().ops(), tx.outputs()[0].script().ops());
    assert!(bytes.len() + 2 <= tx_build.estimate_size());
}
