use bitcoin_cash::{
    hash160, Address, AddressType, Op, OpCodeType, OpReturnOutput, Output, P2PKHOutput,
    P2SHOutput, PreImage, SLPGenesis, SLPSend, Script,
};

fn address(byte: u8) -> Address {
    Address::from_bytes(AddressType::P2PKH, [byte; 20])
}

#[test]
fn p2pkh_scripts() {
    let output = P2PKHOutput { value: 1234, address: address(0xaa) };
    assert_eq!(output.value(), 1234);
    let mut expected = vec![0x76, 0xa9, 0x14];
    expected.extend(&[0xaa; 20]);
    expected.extend(&[0x88, 0xac]);
    assert_eq!(output.script().to_vec(), expected);
    assert_eq!(output.script_code().to_vec(), expected);
    let pre_image = PreImage::empty(output.script_code());
    let sig_script = output.sig_script(vec![1, 2, 3], vec![4, 5], &pre_image, &[]);
    assert_eq!(sig_script.ops(), &[Op::Push(vec![1, 2, 3]), Op::Push(vec![4, 5])]);
    let tx_output = output.to_output();
    assert_eq!(tx_output.value, 1234);
    assert_eq!(tx_output.script().to_vec(), expected);
}

#[test]
fn p2sh_scripts() {
    let inner = P2PKHOutput { value: 777, address: address(0x11) };
    let inner_script = inner.script().to_vec();
    let output = P2SHOutput { output: Box::new(Output::P2PKH(inner)) };
    assert_eq!(output.value(), 777);
    let mut expected = vec![0xa9, 0x14];
    expected.extend(&hash160(&inner_script));
    expected.push(0x87);
    assert_eq!(output.script().to_vec(), expected);
    assert_eq!(output.script_code().to_vec(), inner_script);
    let pre_image = PreImage::empty(output.script_code());
    let sig_script = output.sig_script(vec![9; 70], vec![8; 33], &pre_image, &[]);
    assert_eq!(
        sig_script.ops(),
        &[Op::Push(vec![9; 70]), Op::Push(vec![8; 33]), Op::Push(inner_script.clone())]
    );
    let as_output = Output::P2SH(output);
    assert_eq!(as_output.value(), 777);
    assert_eq!(as_output.script().to_vec(), expected);
    assert_eq!(as_output.script_code().to_vec(), inner_script);
    assert_eq!(as_output.to_output().value, 777);
}

#[test]
fn op_return_scripts() {
    let output = OpReturnOutput { pushes: vec![vec![], vec![1], vec![2, 3]], is_minimal_push: true };
    assert_eq!(output.value(), 0);
    assert_eq!(output.script().to_vec(), vec![0x6a, 0x00, 0x51, 0x02, 2, 3]);
    let output =
        OpReturnOutput { pushes: vec![vec![], vec![1], vec![2, 3]], is_minimal_push: false };
    assert_eq!(output.script().to_vec(), vec![0x6a, 0x4c, 0x00, 0x01, 1, 0x02, 2, 3]);
    assert_eq!(output.to_output().value, 0);
    assert_eq!(
        output.script().ops(),
        &[
            Op::Code(OpCodeType::OpReturn),
            Op::Push(vec![]),
            Op::Push(vec![1]),
            Op::Push(vec![2, 3]),
        ]
    );
}

#[test]
fn slp_send_layout() {
    let send = SLPSend { token_type: 1, token_id: [0xaa; 32], output_quantities: vec![100, 50] };
    let mut token_id = [0u8; 32];
    for (i, b) in token_id.iter_mut().enumerate() {
        *b = i as u8;
    }
    let output = send.into_output();
    assert!(!output.is_minimal_push);
    let mut payload: Vec<u8> = Vec::new();
    for push in &output.pushes {
        payload.extend(push);
    }
    let mut expected = b"SLP\0".to_vec();
    expected.push(0x01);
    expected.extend(b"SEND");
    expected.extend(&[0xaa; 32]);
    expected.extend(&100u64.to_be_bytes());
    expected.extend(&50u64.to_be_bytes());
    assert_eq!(payload, expected);

    let mut wire = vec![0x6a, 0x04];
    wire.extend(b"SLP\0");
    wire.extend(&[0x01, 0x01]);
    wire.push(0x04);
    wire.extend(b"SEND");
    wire.push(0x20);
    wire.extend(&[0xaa; 32]);
    wire.push(0x08);
    wire.extend(&[0, 0, 0, 0, 0, 0, 0, 100]);
    wire.push(0x08);
    wire.extend(&[0, 0, 0, 0, 0, 0, 0, 50]);
    assert_eq!(output.script().to_vec(), wire);

    let send = SLPSend { token_type: 1, token_id, output_quantities: vec![] };
    let output = send.into_output();
    let mut reversed = token_id;
    reversed.reverse();
    assert_eq!(output.pushes[3], reversed.to_vec());
    assert_eq!(output.pushes.len(), 4);
    assert_eq!(output.script().to_vec().len(), 46);
}

#[test]
fn slp_genesis_layout() {
    let genesis = SLPGenesis {
        token_type: 1,
        token_ticker: b"TOK".to_vec(),
        token_name: vec![],
        token_document_url: b"example.org".to_vec(),
        token_document_hash: vec![],
        decimals: 2,
        mint_baton_vout: Some(2),
        initial_token_mint_quantity: 0x0102_0304_0506_0708,
    };
    let output = genesis.into_output();
    assert!(!output.is_minimal_push);
    assert_eq!(
        output.pushes,
        vec![
            b"SLP\0".to_vec(),
            vec![1],
            b"GENESIS".to_vec(),
            b"TOK".to_vec(),
            vec![],
            b"example.org".to_vec(),
            vec![],
            vec![2],
            vec![2],
            vec![1, 2, 3, 4, 5, 6, 7, 8],
        ]
    );
    let wire = output.script().to_vec();
    // the empty name is written as a push of nothing with a length byte, not as OP_0
    let name_at = 1 + 5 + 2 + 8 + 4;
    assert_eq!(&wire[name_at..name_at + 2], &[0x4c, 0x00]);
    assert!(Script::from_serialized(&wire).unwrap().is_slp_safe());

    let genesis = SLPGenesis {
        token_type: 1,
        token_ticker: vec![],
        token_name: vec![],
        token_document_url: vec![],
        token_document_hash: vec![],
        decimals: 0,
        mint_baton_vout: None,
        initial_token_mint_quantity: 1,
    };
    let output = genesis.into_output();
    assert_eq!(output.pushes[8], Vec::<u8>::new());
    assert_eq!(output.pushes[9], vec![0, 0, 0, 0, 0, 0, 0, 1]);
}

#[test]
fn output_union_dispatches() {
    let p2pkh = P2PKHOutput { value: 5, address: address(1) };
    let script = p2pkh.script().to_vec();
    let output = Output::P2PKH(p2pkh);
    assert_eq!(output.value(), 5);
    assert_eq!(output.script().to_vec(), script);
    assert_eq!(output.script_code().to_vec(), script);
    let pre_image = PreImage::empty(output.script_code());
    assert_eq!(
        output.sig_script(vec![1], vec![2], &pre_image, &[]).ops(),
        &[Op::Push(vec![1]), Op::Push(vec![2])]
    );
    let op_return = Output::OpReturn(OpReturnOutput { pushes: vec![], is_minimal_push: true });
    assert_eq!(op_return.value(), 0);
    assert_eq!(op_return.script().to_vec(), vec![0x6a]);
}
