use bitcoin_cash::serialize::{encode_int, encode_int_n, var_int_to_vec};
use bitcoin_cash::{
    hash160, Address, AddressType, AdvancedTradeOffer, AdvancedTradeOfferSpendParams, Op,
    OpCodeType, Output, P2AscendingNonce, P2AscendingNonceSpendParams, P2PKHDropNOutput,
    P2PKHOutput, P2SHOutput, PreImage, PreImageWriteFlags, SLPSend, Script, TxOutpoint,
    TxOutput, UnsignedInput, UnsignedTx,
};

fn address(byte: u8) -> Address {
    Address::from_bytes(AddressType::P2PKH, [byte; 20])
}

fn offer(spend_params: Option<AdvancedTradeOfferSpendParams>) -> AdvancedTradeOffer {
    AdvancedTradeOffer {
        value: 546,
        lokad_id: b"EXCH".to_vec(),
        version: 2,
        power: 0,
        is_inverted: false,
        token_id: [0xaa; 32],
        token_type: 1,
        sell_amount_token: 1000,
        price: 2,
        dust_amount: 546,
        address: address(0x55),
        fee_address: None,
        fee_divisor: None,
        spend_params,
    }
}

fn pushes(script: &Script) -> Vec<Vec<u8>> {
    script
        .ops()
        .iter()
        .map(|op| match op {
            Op::Push(data) => data.clone(),
            Op::Code(code) => panic!("{:?}", code),
        })
        .collect()
}

fn wire(outputs: &[TxOutput]) -> Vec<u8> {
    let mut bytes = Vec::new();
    for output in outputs {
        output.write_to_stream(&mut bytes);
    }
    bytes
}

fn pre_image_for(script_code: Script) -> PreImage {
    PreImage {
        version: 1,
        hash_prevouts: [0x01; 32],
        hash_sequence: [0x02; 32],
        outpoint: TxOutpoint { tx_hash: [0x03; 32], vout: 7 },
        script_code,
        value: 546,
        sequence: 0xffff_ffff,
        hash_outputs: [0x04; 32],
        lock_time: 0,
        sighash_type: 0x41,
    }
}

fn prefix_of(pre_image: &PreImage) -> Vec<u8> {
    let mut bytes = Vec::new();
    pre_image.write_to_stream_flags(
        &mut bytes,
        PreImageWriteFlags {
            version: true,
            hash_prevouts: true,
            hash_sequence: true,
            outpoint: true,
            script_code: false,
            value: false,
            sequence: false,
            hash_outputs: false,
            lock_time: false,
            sighash_type: false,
        },
    );
    bytes
}

#[test]
fn trade_offer_script_starts_with_the_amount_on_sale() {
    let offer = offer(None);
    let script = offer.script();
    let ops = script.ops();
    assert_eq!(ops[0], Op::Push(vec![0xe8, 0x03, 0x00, 0x00]));
    assert_eq!(ops[1], Op::Code(OpCodeType::OpCodeSeparator));
    assert_eq!(ops[2], Op::Push(vec![0x55; 20]));
    assert_eq!(ops[3], Op::Code(OpCodeType::OpRot));
    assert_eq!(ops[4], Op::Code(OpCodeType::OpIf));
    assert_eq!(ops[ops.len() - 1], Op::Code(OpCodeType::OpEndIf));
    assert_eq!(ops[ops.len() - 2], Op::Code(OpCodeType::OpCheckSig));
    let bytes = script.to_vec();
    assert_eq!(&bytes[..6], &[0x04, 0xe8, 0x03, 0x00, 0x00, 0xab]);
    // the form that is signed starts behind the separator
    assert_eq!(script.to_vec_sig(), bytes[6..].to_vec());
    assert_eq!(offer.script_code().to_vec(), bytes);
    assert_eq!(offer.value(), 546);
    assert_eq!(offer.to_output().value, 546);
}

#[test]
fn trade_offer_script_differs_only_in_the_amount() {
    let mut a = offer(None);
    let mut b = offer(None);
    a.sell_amount_token = 1000;
    b.sell_amount_token = 250;
    let wire_a = a.script().to_vec();
    let wire_b = b.script().to_vec();
    assert_eq!(wire_a.len(), wire_b.len());
    assert_eq!(&wire_b[..5], &[0x04, 250, 0, 0, 0]);
    assert_eq!(wire_a[5..], wire_b[5..]);
}

#[test]
fn trade_offer_script_holds_its_parameters() {
    let offer = offer(None);
    let ops = offer.script().ops().to_vec();
    let n = ops.len();
    // ... <price> OP_EQUALVERIFY <power> OP_EQUALVERIFY <version> OP_EQUALVERIFY <lokad> OP_EQUAL
    // OP_ELSE OP_NIP OP_OVER OP_HASH160 OP_EQUALVERIFY OP_CHECKSIG OP_ENDIF
    assert_eq!(ops[n - 9], Op::Push(b"EXCH".to_vec()));
    assert_eq!(ops[n - 8], Op::Code(OpCodeType::OpEqual));
    assert_eq!(ops[n - 11], Op::Push(vec![2]));
    assert_eq!(ops[n - 13], Op::Push(vec![0]));
    assert_eq!(ops[n - 15], Op::Push(vec![0, 0, 0, 2]));
    assert_eq!(ops[n - 7], Op::Code(OpCodeType::OpElse));
    let slp2 = SLPSend { token_type: 1, token_id: [0xaa; 32], output_quantities: vec![0, 0] }
        .into_output()
        .script()
        .to_vec();
    assert!(ops.contains(&Op::Push(var_int_to_vec(slp2.len() as u64))));
    assert!(ops.contains(&Op::Push(var_int_to_vec(slp2.len() as u64 + 9))));
    assert!(ops.contains(&Op::Push(encode_int(546))));
    assert!(ops.contains(&Op::Push(vec![25, 0x76, 0xa9, 20])));
    assert!(ops.contains(&Op::Push(vec![0x88, 0xac])));
    assert!(ops.contains(&Op::Push(vec![23, 0xa9, 20])));
}

#[test]
fn trade_offer_inverted_and_fee_change_the_script() {
    let plain = offer(None).script().ops().len();
    let mut inverted = offer(None);
    inverted.is_inverted = true;
    let ops = inverted.script().ops().to_vec();
    assert_eq!(ops.len(), plain - 11 + 9 + 6);
    assert!(ops.contains(&Op::Code(OpCodeType::OpMod)));
    assert!(ops.contains(&Op::Push(vec![0, 1])));
    let mut with_fee = offer(None);
    with_fee.fee_address = Some(address(0x66));
    with_fee.fee_divisor = Some(500);
    let ops = with_fee.script().ops().to_vec();
    assert_eq!(ops.len(), plain + 1 + 12 - 2);
    assert!(ops.contains(&Op::Code(OpCodeType::OpMax)));
    assert!(ops.contains(&Op::Push(encode_int(500))));
    let mut fee_lock = vec![25];
    fee_lock.extend(P2PKHOutput { value: 0, address: address(0x66) }.script().to_vec());
    assert!(ops.contains(&Op::Push(fee_lock)));
}

#[test]
fn trade_offer_cancel() {
    let offer = offer(Some(AdvancedTradeOfferSpendParams::Cancel));
    let pre_image = pre_image_for(offer.script_code());
    let script = offer.sig_script(vec![1, 2, 0x41], vec![3; 33], &pre_image, &[]);
    assert_eq!(pushes(&script), vec![vec![1, 2, 0x41], vec![3; 33], vec![]]);
}

#[test]
fn trade_offer_full_accept() {
    let offer = offer(Some(AdvancedTradeOfferSpendParams::AcceptFully));
    let slp = SLPSend { token_type: 1, token_id: [0xaa; 32], output_quantities: vec![0, 1000] }
        .into_output()
        .to_output();
    let seller = P2PKHOutput { value: 2000, address: address(0x55) }.to_output();
    let buyer = P2PKHOutput { value: 546, address: address(0x77) }.to_output();
    let change = P2PKHOutput { value: 12345, address: address(0x88) }.to_output();
    let tail = wire(&[buyer.clone(), change.clone()]);
    let outputs = vec![slp, seller, buyer, change];
    let pre_image = pre_image_for(offer.script_code());
    let script = offer.sig_script(vec![0x30, 0x44, 0x41], vec![0x02; 33], &pre_image, &outputs);
    let script_code = offer.script_code().to_vec_sig();
    let mut prefix = prefix_of(&pre_image);
    assert_eq!(prefix.len(), 104);
    prefix.extend(var_int_to_vec(script_code.len() as u64));
    let mut middle = vec![0x22, 0x02, 0, 0, 0, 0, 0, 0];
    middle.extend(&[0xff; 4]);
    assert_eq!(
        pushes(&script),
        vec![
            b"EXCH".to_vec(),
            vec![2],
            vec![0],
            vec![0, 0, 0, 2],
            vec![0x55; 20],
            vec![0x02; 33],
            vec![0x30, 0x44],
            prefix,
            script_code,
            middle,
            vec![0, 0, 0, 0, 0x41, 0, 0, 0],
            tail,
            encode_int(2000),
            vec![1],
        ]
    );
}

#[test]
fn trade_offer_partial_accept_skips_the_successor() {
    let offer = offer(Some(AdvancedTradeOfferSpendParams::AcceptPartially { buy_amount: 500 }));
    let out = |v: u64, a: u8| P2PKHOutput { value: v, address: address(a) }.to_output();
    let outputs = vec![out(0, 1), out(1, 2), out(2, 3), out(3, 4), out(4, 5)];
    let pre_image = pre_image_for(offer.script_code());
    let script = offer.sig_script(vec![9, 0x41], vec![0x02; 33], &pre_image, &outputs);
    let all = pushes(&script);
    assert_eq!(all[11], wire(&outputs[3..]));
    assert_eq!(all[12], encode_int(500));
    // a partial amount that is the full amount counts as full
    let offer = offer_with(AdvancedTradeOfferSpendParams::AcceptPartially { buy_amount: 2000 });
    let script = offer.sig_script(vec![9, 0x41], vec![0x02; 33], &pre_image, &outputs);
    assert_eq!(pushes(&script)[11], wire(&outputs[2..]));
}

fn offer_with(params: AdvancedTradeOfferSpendParams) -> AdvancedTradeOffer {
    offer(Some(params))
}

#[test]
fn trade_offer_fee_output_is_left_out_of_the_tail() {
    let mut offer = offer(Some(AdvancedTradeOfferSpendParams::AcceptFully));
    offer.fee_address = Some(address(0x66));
    offer.fee_divisor = Some(500);
    let out = |v: u64, a: u8| P2PKHOutput { value: v, address: address(a) }.to_output();
    let outputs = vec![out(0, 1), out(1, 2), out(2, 3), out(3, 4)];
    let pre_image = pre_image_for(offer.script_code());
    let script = offer.sig_script(vec![9, 0x41], vec![0x02; 33], &pre_image, &outputs);
    assert_eq!(pushes(&script)[11], wire(&outputs[2..3]));
    let mut inverted = offer_with(AdvancedTradeOfferSpendParams::AcceptFully);
    inverted.is_inverted = true;
    let script = inverted.sig_script(vec![9, 0x41], vec![0x02; 33], &pre_image, &outputs);
    let all = pushes(&script);
    assert_eq!(all[2], vec![0, 1]);
    assert_eq!(all[12], encode_int(1000));
}

#[test]
fn trade_offer_in_a_transaction() {
    let covenant = offer(Some(AdvancedTradeOfferSpendParams::AcceptFully));
    let script = covenant.script().to_vec();
    let mut tx = UnsignedTx::new_simple();
    tx.add_input(UnsignedInput {
        outpoint: TxOutpoint { tx_hash: [0x09; 32], vout: 1 },
        output: Output::P2SH(P2SHOutput { output: Box::new(Output::TradeOffer(covenant)) }),
        sequence: 0xffff_ffff,
    });
    tx.add_output(
        SLPSend { token_type: 1, token_id: [0xaa; 32], output_quantities: vec![0, 1000] }
            .into_output()
            .to_output(),
    );
    tx.add_output(P2PKHOutput { value: 2000, address: address(0x55) }.to_output());
    tx.add_output(P2PKHOutput { value: 546, address: address(0x77) }.to_output());
    let pre_images = tx.pre_images(0x41);
    assert_eq!(pre_images[0].script_code.to_vec(), script);
    assert_eq!(pre_images[0].value, 546);
    let estimate = tx.estimate_size();
    let signed = tx.sign(vec![vec![0x30; 71]], vec![vec![0x02; 33]]);
    let ops = signed.inputs()[0].script().ops().to_vec();
    assert_eq!(ops.len(), 15);
    assert_eq!(ops[14], Op::Push(script));
    assert_eq!(ops[6], Op::Push(vec![0x30; 71]));
    let mut bytes = Vec::new();
    signed.write_to_stream(&mut bytes);
    assert!(bytes.len() <= estimate);
    // the outputs are those of a full accept: two quantities, no successor
    assert_eq!(signed.outputs().len(), 3);
    assert_eq!(signed.outputs()[1].value, 2000);
}

fn nonce(spend_params: Option<P2AscendingNonceSpendParams>) -> P2AscendingNonce {
    P2AscendingNonce {
        lokad_id: b"NNCE".to_vec(),
        old_value: 100_000,
        owner_pk: vec![0x03; 33],
        old_nonce: 5,
        dust_limit: 546,
        spend_params,
    }
}

#[test]
fn nonce_script_starts_with_nonce_and_key() {
    let covenant = nonce(None);
    let script = covenant.script();
    let ops = script.ops();
    assert_eq!(ops.len(), 113);
    assert_eq!(ops[0], Op::Push(encode_int_n(5, 8)));
    assert_eq!(ops[0], Op::Push(vec![5, 0, 0, 0, 0, 0, 0, 0]));
    assert_eq!(ops[1], Op::Push(vec![0x03; 33]));
    assert_eq!(ops[2], Op::Code(OpCodeType::OpRot));
    assert_eq!(ops[3], Op::Code(OpCodeType::OpIf));
    assert_eq!(ops[110], Op::Code(OpCodeType::OpNip));
    assert_eq!(ops[111], Op::Code(OpCodeType::OpCheckSig));
    assert_eq!(ops[112], Op::Code(OpCodeType::OpEndIf));
    assert!(ops.contains(&Op::Push(encode_int(114))));
    assert!(ops.contains(&Op::Push(vec![0xff; 4])));
    assert!(ops.contains(&Op::Push(b"NNCE".to_vec())));
    assert!(ops.contains(&Op::Push(encode_int(546))));
    let bytes = script.to_vec();
    assert_eq!(&bytes[..9], &[8, 5, 0, 0, 0, 0, 0, 0, 0]);
    assert_eq!(bytes[9], 33);
    assert_eq!(&bytes[10..43], &[0x03; 33]);
    assert_eq!(script.to_vec_sig(), bytes);
    assert_eq!(covenant.value(), 100_000);
    let mut negative = nonce(None);
    negative.old_nonce = -5;
    assert_eq!(negative.script().ops()[0], Op::Push(vec![5, 0, 0, 0, 0, 0, 0, 0x80]));
}

#[test]
fn nonce_redeem() {
    let covenant = nonce(Some(P2AscendingNonceSpendParams::NonceRedeem {
        payment_amount: 30_000,
        new_nonce: 3,
        owner_sig: vec![0x0a; 70],
        is_terminal: false,
    }));
    // the successor keeps the rest under the same script with the new nonce
    let mut next = nonce(None);
    next.old_value = 70_000;
    next.old_nonce = 3;
    let old_script = covenant.script().to_vec();
    let next_script = next.script().to_vec();
    assert_eq!(&next_script[..9], &[8, 3, 0, 0, 0, 0, 0, 0, 0]);
    assert_eq!(&next_script[1..9], &encode_int_n(3, 8)[..]);
    assert_eq!(next_script[9..], old_script[9..]);
    let successor = Output::P2SH(P2SHOutput { output: Box::new(Output::AscendingNonce(next)) });
    assert_eq!(successor.value(), 70_000);
    let mut lock = vec![0xa9, 20];
    lock.extend(&hash160(&next_script));
    lock.push(0x87);
    assert_eq!(successor.script().to_vec(), lock);
    let payment = P2PKHOutput {
        value: 30_000,
        address: Address::from_serialized_pub_key("bitcoincash", AddressType::P2PKH, &[0x03; 33]),
    };
    assert_eq!(payment.address.bytes(), &hash160(&[0x03; 33]));
    let outputs = vec![successor.to_output(), payment.to_output()];

    let pre_image = pre_image_for(covenant.script_code());
    let script = covenant.sig_script(vec![0x30, 0x45, 0x41], vec![0x02; 33], &pre_image, &outputs);
    let mut prefix = prefix_of(&pre_image);
    prefix.extend(var_int_to_vec(old_script.len() as u64));
    prefix.extend(&old_script[..9]);
    assert_eq!(prefix.len(), 114);
    assert_eq!(
        pushes(&script),
        vec![
            b"NNCE".to_vec(),
            vec![0x0a; 70],
            wire(&outputs[1..]),
            vec![0x02; 33],
            vec![0x30, 0x45],
            prefix,
            vec![0, 0, 0, 0, 0x41, 0, 0, 0],
            encode_int(30_000),
            encode_int(100_000),
            old_script[9..43].to_vec(),
            old_script[43..].to_vec(),
            encode_int(3),
            vec![1],
        ]
    );
}

#[test]
fn nonce_terminal_redeem_keeps_all_outputs() {
    let covenant = nonce(Some(P2AscendingNonceSpendParams::NonceRedeem {
        payment_amount: 99_900,
        new_nonce: 4,
        owner_sig: vec![0x0a; 70],
        is_terminal: true,
    }));
    let outputs = vec![P2PKHOutput { value: 99_900, address: address(1) }.to_output()];
    let pre_image = pre_image_for(covenant.script_code());
    let script = covenant.sig_script(vec![0x30, 0x41], vec![0x02; 33], &pre_image, &outputs);
    assert_eq!(pushes(&script)[2], wire(&outputs));
}

#[test]
fn nonce_refill_keeps_the_nonce() {
    let covenant = nonce(Some(P2AscendingNonceSpendParams::NonceRefill { payment_amount: -5000 }));
    let out = |v: u64, a: u8| P2PKHOutput { value: v, address: address(a) }.to_output();
    let outputs = vec![out(105_000, 1), out(7, 2)];
    let pre_image = pre_image_for(covenant.script_code());
    let script = covenant.sig_script(vec![0x30, 0x41], vec![0x02; 33], &pre_image, &outputs);
    let all = pushes(&script);
    assert_eq!(all.len(), 13);
    assert_eq!(all[1], Vec::<u8>::new());
    assert_eq!(all[2], wire(&outputs[1..]));
    assert_eq!(all[7], encode_int(-5000));
    assert_eq!(all[11], encode_int(5));
    assert_eq!(all[12], vec![1]);
}

#[test]
fn nonce_plain_signature() {
    let covenant = nonce(Some(P2AscendingNonceSpendParams::P2pk));
    let pre_image = pre_image_for(covenant.script_code());
    let script = covenant.sig_script(vec![0x30, 0x41], vec![0x02; 33], &pre_image, &[]);
    assert_eq!(pushes(&script), vec![vec![0x30, 0x41], vec![]]);
    assert_eq!(script.to_vec(), vec![0x02, 0x30, 0x41, 0x00]);
}

#[test]
fn nonce_spend_params_clone_and_compare() {
    let params = P2AscendingNonceSpendParams::NonceRedeem {
        payment_amount: 1,
        new_nonce: 2,
        owner_sig: vec![3],
        is_terminal: true,
    };
    assert_eq!(params.clone(), params);
    assert_ne!(params, P2AscendingNonceSpendParams::P2pk);
    assert_eq!(
        P2AscendingNonceSpendParams::NonceRefill { payment_amount: 4 }.clone(),
        P2AscendingNonceSpendParams::NonceRefill { payment_amount: 4 }
    );
}

#[test]
fn drop_n_output() {
    let output = P2PKHDropNOutput {
        value: 900,
        address: address(0x42),
        drop_number: 3,
        push_data: Some(vec![vec![1], vec![2, 2], vec![]]),
    };
    assert_eq!(output.value(), 900);
    let mut expected = P2PKHOutput { value: 0, address: address(0x42) }.script().to_vec();
    expected.extend(&[0x77, 0x77, 0x77]);
    assert_eq!(output.script().to_vec(), expected);
    assert_eq!(output.script_code().to_vec(), expected);
    let pre_image = pre_image_for(output.script_code());
    let script = output.sig_script(vec![7, 0x41], vec![8; 33], &pre_image, &[]);
    assert_eq!(
        pushes(&script),
        vec![vec![1], vec![2, 2], vec![], vec![7, 0x41], vec![8; 33]]
    );
    assert_eq!(output.to_output().value, 900);
    let none = P2PKHDropNOutput { value: 1, address: address(1), drop_number: 0, push_data: Some(vec![]) };
    assert_eq!(
        none.script().to_vec(),
        P2PKHOutput { value: 0, address: address(1) }.script().to_vec()
    );
}
