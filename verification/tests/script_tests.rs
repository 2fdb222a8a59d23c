use bitcoin_cash::{Op, OpCodeType, Script};

#[test]
fn opcode_bytes() {
    assert_eq!(OpCodeType::Op0.to_u8(), 0x00);
    assert_eq!(OpCodeType::OpPushData1.to_u8(), 0x4c);
    assert_eq!(OpCodeType::Op1.to_u8(), 0x51);
    assert_eq!(OpCodeType::Op16.to_u8(), 0x60);
    assert_eq!(OpCodeType::OpReturn.to_u8(), 0x6a);
    assert_eq!(OpCodeType::OpDup.to_u8(), 0x76);
    assert_eq!(OpCodeType::OpCat.to_u8(), 0x7e);
    assert_eq!(OpCodeType::OpSplit.to_u8(), 0x7f);
    assert_eq!(OpCodeType::OpNum2Bin.to_u8(), 0x80);
    assert_eq!(OpCodeType::OpBin2Num.to_u8(), 0x81);
    assert_eq!(OpCodeType::OpEqual.to_u8(), 0x87);
    assert_eq!(OpCodeType::OpEqualVerify.to_u8(), 0x88);
    assert_eq!(OpCodeType::OpDiv.to_u8(), 0x96);
    assert_eq!(OpCodeType::OpMod.to_u8(), 0x97);
    assert_eq!(OpCodeType::OpHash160.to_u8(), 0xa9);
    assert_eq!(OpCodeType::OpCodeSeparator.to_u8(), 0xab);
    assert_eq!(OpCodeType::OpCheckSig.to_u8(), 0xac);
    assert_eq!(OpCodeType::OpCheckDataSig.to_u8(), 0xba);
    assert_eq!(OpCodeType::OpCheckDataSigVerify.to_u8(), 0xbb);
    assert_eq!(OpCodeType::FirstUndefinedOpCode.to_u8(), 0xbc);
    assert_eq!(OpCodeType::OpInvalidOpcode.to_u8(), 0xff);
}

#[test]
fn opcode_of_byte_round_trip() {
    let mut known = 0;
    for b in 0..=255u8 {
        if let Some(code) = OpCodeType::from_u8(b) {
            assert_eq!(code.to_u8(), b);
            known += 1;
        }
    }
    assert_eq!(known, 121);
    assert_eq!(OpCodeType::from_u8(0x01), None);
    assert_eq!(OpCodeType::from_u8(0xbd), None);
    assert_eq!(OpCodeType::from_u8(0xab), Some(OpCodeType::OpCodeSeparator));
}

#[test]
fn push_encodings_with_minimal_push() {
    let script = |v: Vec<u8>| Script::new(vec![Op::Push(v)]).to_vec();
    assert_eq!(script(vec![]), vec![0x00]);
    assert_eq!(script(vec![0x00]), vec![0x01, 0x00]);
    assert_eq!(script(vec![0x01]), vec![0x51]);
    assert_eq!(script(vec![0x10]), vec![0x60]);
    assert_eq!(script(vec![0x11]), vec![0x01, 0x11]);
    assert_eq!(script(vec![0x01, 0x02]), vec![0x02, 0x01, 0x02]);
    let v = vec![7u8; 0x4b];
    let mut expected = vec![0x4b];
    expected.extend(&v);
    assert_eq!(script(v), expected);
    let v = vec![7u8; 0x4c];
    let mut expected = vec![0x4c, 0x4c];
    expected.extend(&v);
    assert_eq!(script(v), expected);
    let v = vec![7u8; 0xff];
    let mut expected = vec![0x4c, 0xff];
    expected.extend(&v);
    assert_eq!(script(v), expected);
    let v = vec![7u8; 0x100];
    let mut expected = vec![0x4d, 0x00, 0x01];
    expected.extend(&v);
    assert_eq!(script(v), expected);
    let v = vec![7u8; 0x10000];
    let mut expected = vec![0x4e, 0x00, 0x00, 0x01, 0x00];
    expected.extend(&v);
    assert_eq!(script(v), expected);
}

#[test]
fn push_encodings_without_minimal_push() {
    let script = |v: Vec<u8>| Script::new_non_minimal_push(vec![Op::Push(v)]).to_vec();
    assert_eq!(script(vec![]), vec![0x4c, 0x00]);
    assert_eq!(script(vec![0x01]), vec![0x01, 0x01]);
    assert_eq!(script(vec![0x10]), vec![0x01, 0x10]);
    assert_eq!(script(vec![0x01, 0x02]), vec![0x02, 0x01, 0x02]);
}

#[test]
fn op_code_of_pushes() {
    assert_eq!(Op::Push(vec![]).code(), 0);
    assert_eq!(Op::Push(vec![1; 0x4b]).code(), 0x4b);
    assert_eq!(Op::Push(vec![1; 0x4c]).code(), 0x4c);
    assert_eq!(Op::Push(vec![1; 0x100]).code(), 0x4d);
    assert_eq!(Op::Push(vec![1; 0x10000]).code(), 0x4e);
    assert_eq!(Op::Code(OpCodeType::OpDup).code(), 0x76);
}

#[test]
fn op_write_to_stream_appends() {
    let mut buf = vec![0xee];
    Op::Code(OpCodeType::OpDup).write_to_stream(&mut buf, true);
    Op::Push(vec![0xab, 0xcd]).write_to_stream(&mut buf, true);
    assert_eq!(buf, vec![0xee, 0x76, 0x02, 0xab, 0xcd]);
}

#[test]
fn parse_keeps_bytes() {
    let bytes = vec![0x76, 0xa9, 0x02, 0x01, 0x02, 0x88, 0xac];
    let script = Script::from_serialized(&bytes).unwrap();
    assert_eq!(script.to_vec(), bytes);
    assert_eq!(
        script.ops(),
        &[
            Op::Code(OpCodeType::OpDup),
            Op::Code(OpCodeType::OpHash160),
            Op::Push(vec![0x01, 0x02]),
            Op::Code(OpCodeType::OpEqualVerify),
            Op::Code(OpCodeType::OpCheckSig),
        ]
    );
}

#[test]
fn parse_push_data_forms() {
    let script = Script::from_serialized(&[0x4c, 0x02, 0xaa, 0xbb, 0x51]).unwrap();
    assert_eq!(
        script.ops(),
        &[Op::Push(vec![0xaa, 0xbb]), Op::Code(OpCodeType::Op1)]
    );
    let script = Script::from_serialized(&[0x4d, 0x01, 0x00, 0xcc]).unwrap();
    assert_eq!(script.ops(), &[Op::Push(vec![0xcc])]);
    let script = Script::from_serialized(&[0x4e, 0x01, 0x00, 0x00, 0x00, 0xdd]).unwrap();
    assert_eq!(script.ops(), &[Op::Push(vec![0xdd])]);
    let script = Script::from_serialized(&[0x4c, 0x00]).unwrap();
    assert_eq!(script.ops(), &[Op::Push(vec![])]);
    assert_eq!(script.to_vec(), vec![0x4c, 0x00]);
}

#[test]
fn parse_non_canonical_push_round_trips() {
    let bytes = vec![0x4c, 0x01, 0x05];
    let script = Script::from_serialized(&bytes).unwrap();
    assert_eq!(script.to_vec(), bytes);
    // the form that is signed is written from the elements
    assert_eq!(script.to_vec_sig(), vec![0x55]);
}

#[test]
fn parse_truncated_is_rejected() {
    assert!(Script::from_serialized(&[0x02, 0x01]).is_none());
    assert!(Script::from_serialized(&[0x4c]).is_none());
    assert!(Script::from_serialized(&[0x4c, 0x02, 0x01]).is_none());
    assert!(Script::from_serialized(&[0x4d, 0x01]).is_none());
    assert!(Script::from_serialized(&[0x4d, 0x02, 0x00, 0x01]).is_none());
    assert!(Script::from_serialized(&[0x4e, 0x01, 0x00, 0x00]).is_none());
    assert!(Script::from_serialized(&[0x4e, 0x01, 0x00, 0x00, 0x00]).is_none());
    assert!(Script::from_serialized(&[]).is_some());
}

#[test]
fn parse_unknown_opcode() {
    let script = Script::from_serialized(&[0xbd, 0xf1]).unwrap();
    assert_eq!(
        script.ops(),
        &[
            Op::Code(OpCodeType::OpInvalidOpcode),
            Op::Code(OpCodeType::OpInvalidOpcode),
        ]
    );
    assert_eq!(script.to_vec(), vec![0xbd, 0xf1]);
}

#[test]
fn slp_safe_flag() {
    assert!(Script::empty().is_slp_safe());
    assert!(!Script::new(vec![]).is_slp_safe());
    // OP_RETURN and pushes only
    assert!(Script::from_serialized(&[0x6a, 0x02, 0x01, 0x02, 0x4c, 0x00])
        .unwrap()
        .is_slp_safe());
    // any opcode at the very start
    assert!(Script::from_serialized(&[0x76, 0x01, 0x02]).unwrap().is_slp_safe());
    // OP_RETURN later on
    assert!(Script::from_serialized(&[0x6a, 0x6a]).unwrap().is_slp_safe());
    // another opcode later on
    assert!(!Script::from_serialized(&[0x6a, 0x76]).unwrap().is_slp_safe());
    // a bare OP_0
    assert!(!Script::from_serialized(&[0x6a, 0x00]).unwrap().is_slp_safe());
    assert!(!Script::from_serialized(&[0x00]).unwrap().is_slp_safe());
}

#[test]
fn sig_form_without_separator_is_whole_script() {
    let script = Script::new(vec![
        Op::Code(OpCodeType::OpDup),
        Op::Push(vec![1, 2, 3]),
        Op::Code(OpCodeType::OpCheckSig),
    ]);
    assert_eq!(script.to_vec_sig(), script.to_vec());
}

#[test]
fn sig_form_starts_behind_last_separator() {
    let script = Script::new(vec![
        Op::Push(vec![9, 9]),
        Op::Code(OpCodeType::OpCodeSeparator),
        Op::Code(OpCodeType::OpDup),
        Op::Code(OpCodeType::OpCodeSeparator),
        Op::Push(vec![1, 2, 3]),
        Op::Code(OpCodeType::OpCheckSig),
    ]);
    assert_eq!(script.to_vec_sig(), vec![0x03, 1, 2, 3, 0xac]);
    let script = Script::new(vec![
        Op::Code(OpCodeType::OpDup),
        Op::Code(OpCodeType::OpCodeSeparator),
    ]);
    assert_eq!(script.to_vec_sig(), Vec::<u8>::new());
    // a push of the separator's byte is no separator
    let script = Script::new(vec![Op::Push(vec![0xab]), Op::Code(OpCodeType::OpDup)]);
    assert_eq!(script.to_vec_sig(), vec![0x01, 0xab, 0x76]);
}

#[test]
fn add_op_and_extend() {
    let mut script = Script::new(vec![Op::Code(OpCodeType::OpDup)]);
    script.add_op(Op::Push(vec![5, 6]));
    let other = Script::new(vec![Op::Code(OpCodeType::OpCheckSig)]);
    script.extend(other);
    assert_eq!(script.to_vec(), vec![0x76, 0x02, 5, 6, 0xac]);
    assert_eq!(script.ops().len(), 3);
}

#[test]
fn editing_a_parsed_script_drops_kept_bytes() {
    let mut script = Script::from_serialized(&[0x4c, 0x01, 0x05]).unwrap();
    script.add_op(Op::Code(OpCodeType::OpDup));
    assert_eq!(script.to_vec(), vec![0x55, 0x76]);
}

#[test]
fn clone_keeps_the_script() {
    let script = Script::new(vec![Op::Push(vec![1, 2]), Op::Code(OpCodeType::OpNip)]);
    let copy = script.clone();
    assert_eq!(copy.to_vec(), script.to_vec());
    assert_eq!(copy.ops(), script.ops());
}
