//! The script model: opcodes, pushes, and scripts with their wire form.

use crate::serialize::{get_u16_le, get_u32_le, le_bytes, le_value, put_u16_le, put_u32_le};
use vstd::prelude::*;

verus! {

/// The opcodes of the script language, each with its byte.
#[derive(Clone, Copy, Debug, PartialEq, Eq, Structural, PartialOrd, Ord)]
pub enum OpCodeType {
    // push value
    Op0,
    OpPushData1,
    OpPushData2,
    OpPushData4,
    Op1Negate,
    OpReserved,
    Op1,
    Op2,
    Op3,
    Op4,
    Op5,
    Op6,
    Op7,
    Op8,
    Op9,
    Op10,
    Op11,
    Op12,
    Op13,
    Op14,
    Op15,
    Op16,
    // control
    OpNop,
    OpVer,
    OpIf,
    OpNotIf,
    OpVerIf,
    OpVerNotIf,
    OpElse,
    OpEndIf,
    OpVerify,
    OpReturn,
    // stack ops
    OpToAltStack,
    OpFromAltStack,
    Op2Drop,
    Op2Dup,
    Op3Dup,
    Op2Over,
    Op2Rot,
    Op2Swap,
    OpIfDup,
    OpDepth,
    OpDrop,
    OpDup,
    OpNip,
    OpOver,
    OpPick,
    OpRoll,
    OpRot,
    OpSwap,
    OpTuck,
    // splice ops
    OpCat,
    OpSplit,
    OpNum2Bin,
    OpBin2Num,
    OpSize,
    // bit logic
    OpInvert,
    OpAnd,
    OpOr,
    OpXor,
    OpEqual,
    OpEqualVerify,
    OpReserved1,
    OpReserved2,
    // numeric
    Op1Add,
    Op1Sub,
    Op2Mul,
    Op2Div,
    OpNegate,
    OpAbs,
    OpNot,
    Op0NotEqual,
    OpAdd,
    OpSub,
    OpMul,
    OpDiv,
    OpMod,
    OpLShift,
    OpRShift,
    OpBoolAnd,
    OpBoolOr,
    OpNumEqual,
    OpNumEqualVerify,
    OpNumNotEqual,
    OpLessThan,
    OpGreaterThan,
    OpLessThanOrEqual,
    OpGreaterThanOrEqual,
    OpMin,
    OpMax,
    OpWithin,
    // crypto
    OpRipemd160,
    OpSha1,
    OpSha256,
    OpHash160,
    OpHash256,
    OpCodeSeparator,
    OpCheckSig,
    OpCheckSigVerify,
    OpCheckMultiSig,
    OpCheckMultiSigVerify,
    // expansion
    OpNop1,
    OpCheckLockTimeVerify,
    OpCheckSequenceVerify,
    OpNop4,
    OpNop5,
    OpNop6,
    OpNop7,
    OpNop8,
    OpNop9,
    OpNop10,
    // data signatures
    OpCheckDataSig,
    OpCheckDataSigVerify,
    /// The first byte behind all defined opcodes.
    FirstUndefinedOpCode,
    // multi-byte opcodes
    OpPrefixBegin,
    OpPrefixEnd,
    // template matching params
    OpSmallInteger,
    OpPubKeys,
    OpPubKeyHash,
    OpPubkey,
    OpInvalidOpcode,
}

impl OpCodeType {
    /// The byte of the opcode.
    pub open spec fn spec_to_u8(self) -> u8 {
        match self {
            OpCodeType::Op0 => 0x00,
            OpCodeType::OpPushData1 => 0x4c,
            OpCodeType::OpPushData2 => 0x4d,
            OpCodeType::OpPushData4 => 0x4e,
            OpCodeType::Op1Negate => 0x4f,
            OpCodeType::OpReserved => 0x50,
            OpCodeType::Op1 => 0x51,
            OpCodeType::Op2 => 0x52,
            OpCodeType::Op3 => 0x53,
            OpCodeType::Op4 => 0x54,
            OpCodeType::Op5 => 0x55,
            OpCodeType::Op6 => 0x56,
            OpCodeType::Op7 => 0x57,
            OpCodeType::Op8 => 0x58,
            OpCodeType::Op9 => 0x59,
            OpCodeType::Op10 => 0x5a,
            OpCodeType::Op11 => 0x5b,
            OpCodeType::Op12 => 0x5c,
            OpCodeType::Op13 => 0x5d,
            OpCodeType::Op14 => 0x5e,
            OpCodeType::Op15 => 0x5f,
            OpCodeType::Op16 => 0x60,
            OpCodeType::OpNop => 0x61,
            OpCodeType::OpVer => 0x62,
            OpCodeType::OpIf => 0x63,
            OpCodeType::OpNotIf => 0x64,
            OpCodeType::OpVerIf => 0x65,
            OpCodeType::OpVerNotIf => 0x66,
            OpCodeType::OpElse => 0x67,
            OpCodeType::OpEndIf => 0x68,
            OpCodeType::OpVerify => 0x69,
            OpCodeType::OpReturn => 0x6a,
            OpCodeType::OpToAltStack => 0x6b,
            OpCodeType::OpFromAltStack => 0x6c,
            OpCodeType::Op2Drop => 0x6d,
            OpCodeType::Op2Dup => 0x6e,
            OpCodeType::Op3Dup => 0x6f,
            OpCodeType::Op2Over => 0x70,
            OpCodeType::Op2Rot => 0x71,
            OpCodeType::Op2Swap => 0x72,
            OpCodeType::OpIfDup => 0x73,
            OpCodeType::OpDepth => 0x74,
            OpCodeType::OpDrop => 0x75,
            OpCodeType::OpDup => 0x76,
            OpCodeType::OpNip => 0x77,
            OpCodeType::OpOver => 0x78,
            OpCodeType::OpPick => 0x79,
            OpCodeType::OpRoll => 0x7a,
            OpCodeType::OpRot => 0x7b,
            OpCodeType::OpSwap => 0x7c,
            OpCodeType::OpTuck => 0x7d,
            OpCodeType::OpCat => 0x7e,
            OpCodeType::OpSplit => 0x7f,
            OpCodeType::OpNum2Bin => 0x80,
            OpCodeType::OpBin2Num => 0x81,
            OpCodeType::OpSize => 0x82,
            OpCodeType::OpInvert => 0x83,
            OpCodeType::OpAnd => 0x84,
            OpCodeType::OpOr => 0x85,
            OpCodeType::OpXor => 0x86,
            OpCodeType::OpEqual => 0x87,
            OpCodeType::OpEqualVerify => 0x88,
            OpCodeType::OpReserved1 => 0x89,
            OpCodeType::OpReserved2 => 0x8a,
            OpCodeType::Op1Add => 0x8b,
            OpCodeType::Op1Sub => 0x8c,
            OpCodeType::Op2Mul => 0x8d,
            OpCodeType::Op2Div => 0x8e,
            OpCodeType::OpNegate => 0x8f,
            OpCodeType::OpAbs => 0x90,
            OpCodeType::OpNot => 0x91,
            OpCodeType::Op0NotEqual => 0x92,
            OpCodeType::OpAdd => 0x93,
            OpCodeType::OpSub => 0x94,
            OpCodeType::OpMul => 0x95,
            OpCodeType::OpDiv => 0x96,
            OpCodeType::OpMod => 0x97,
            OpCodeType::OpLShift => 0x98,
            OpCodeType::OpRShift => 0x99,
            OpCodeType::OpBoolAnd => 0x9a,
            OpCodeType::OpBoolOr => 0x9b,
            OpCodeType::OpNumEqual => 0x9c,
            OpCodeType::OpNumEqualVerify => 0x9d,
            OpCodeType::OpNumNotEqual => 0x9e,
            OpCodeType::OpLessThan => 0x9f,
            OpCodeType::OpGreaterThan => 0xa0,
            OpCodeType::OpLessThanOrEqual => 0xa1,
            OpCodeType::OpGreaterThanOrEqual => 0xa2,
            OpCodeType::OpMin => 0xa3,
            OpCodeType::OpMax => 0xa4,
            OpCodeType::OpWithin => 0xa5,
            OpCodeType::OpRipemd160 => 0xa6,
            OpCodeType::OpSha1 => 0xa7,
            OpCodeType::OpSha256 => 0xa8,
            OpCodeType::OpHash160 => 0xa9,
            OpCodeType::OpHash256 => 0xaa,
            OpCodeType::OpCodeSeparator => 0xab,
            OpCodeType::OpCheckSig => 0xac,
            OpCodeType::OpCheckSigVerify => 0xad,
            OpCodeType::OpCheckMultiSig => 0xae,
            OpCodeType::OpCheckMultiSigVerify => 0xaf,
            OpCodeType::OpNop1 => 0xb0,
            OpCodeType::OpCheckLockTimeVerify => 0xb1,
            OpCodeType::OpCheckSequenceVerify => 0xb2,
            OpCodeType::OpNop4 => 0xb3,
            OpCodeType::OpNop5 => 0xb4,
            OpCodeType::OpNop6 => 0xb5,
            OpCodeType::OpNop7 => 0xb6,
            OpCodeType::OpNop8 => 0xb7,
            OpCodeType::OpNop9 => 0xb8,
            OpCodeType::OpNop10 => 0xb9,
            OpCodeType::OpCheckDataSig => 0xba,
            OpCodeType::OpCheckDataSigVerify => 0xbb,
            OpCodeType::FirstUndefinedOpCode => 0xbc,
            OpCodeType::OpPrefixBegin => 0xf0,
            OpCodeType::OpPrefixEnd => 0xf7,
            OpCodeType::OpSmallInteger => 0xfa,
            OpCodeType::OpPubKeys => 0xfb,
            OpCodeType::OpPubKeyHash => 0xfd,
            OpCodeType::OpPubkey => 0xfe,
            OpCodeType::OpInvalidOpcode => 0xff,
        }
    }

    /// The opcode of a byte, if the byte is one.
    pub open spec fn spec_from_u8(code: u8) -> Option<OpCodeType> {
        if code == 0x00 {
            Some(OpCodeType::Op0)
        } else if code == 0x4c {
            Some(OpCodeType::OpPushData1)
        } else if code == 0x4d {
            Some(OpCodeType::OpPushData2)
        } else if code == 0x4e {
            Some(OpCodeType::OpPushData4)
        } else if code == 0x4f {
            Some(OpCodeType::Op1Negate)
        } else if code == 0x50 {
            Some(OpCodeType::OpReserved)
        } else if code == 0x51 {
            Some(OpCodeType::Op1)
        } else if code == 0x52 {
            Some(OpCodeType::Op2)
        } else if code == 0x53 {
            Some(OpCodeType::Op3)
        } else if code == 0x54 {
            Some(OpCodeType::Op4)
        } else if code == 0x55 {
            Some(OpCodeType::Op5)
        } else if code == 0x56 {
            Some(OpCodeType::Op6)
        } else if code == 0x57 {
            Some(OpCodeType::Op7)
        } else if code == 0x58 {
            Some(OpCodeType::Op8)
        } else if code == 0x59 {
            Some(OpCodeType::Op9)
        } else if code == 0x5a {
            Some(OpCodeType::Op10)
        } else if code == 0x5b {
            Some(OpCodeType::Op11)
        } else if code == 0x5c {
            Some(OpCodeType::Op12)
        } else if code == 0x5d {
            Some(OpCodeType::Op13)
        } else if code == 0x5e {
            Some(OpCodeType::Op14)
        } else if code == 0x5f {
            Some(OpCodeType::Op15)
        } else if code == 0x60 {
            Some(OpCodeType::Op16)
        } else if code == 0x61 {
            Some(OpCodeType::OpNop)
        } else if code == 0x62 {
            Some(OpCodeType::OpVer)
        } else if code == 0x63 {
            Some(OpCodeType::OpIf)
        } else if code == 0x64 {
            Some(OpCodeType::OpNotIf)
        } else if code == 0x65 {
            Some(OpCodeType::OpVerIf)
        } else if code == 0x66 {
            Some(OpCodeType::OpVerNotIf)
        } else if code == 0x67 {
            Some(OpCodeType::OpElse)
        } else if code == 0x68 {
            Some(OpCodeType::OpEndIf)
        } else if code == 0x69 {
            Some(OpCodeType::OpVerify)
        } else if code == 0x6a {
            Some(OpCodeType::OpReturn)
        } else if code == 0x6b {
            Some(OpCodeType::OpToAltStack)
        } else if code == 0x6c {
            Some(OpCodeType::OpFromAltStack)
        } else if code == 0x6d {
            Some(OpCodeType::Op2Drop)
        } else if code == 0x6e {
            Some(OpCodeType::Op2Dup)
        } else if code == 0x6f {
            Some(OpCodeType::Op3Dup)
        } else if code == 0x70 {
            Some(OpCodeType::Op2Over)
        } else if code == 0x71 {
            Some(OpCodeType::Op2Rot)
        } else if code == 0x72 {
            Some(OpCodeType::Op2Swap)
        } else if code == 0x73 {
            Some(OpCodeType::OpIfDup)
        } else if code == 0x74 {
            Some(OpCodeType::OpDepth)
        } else if code == 0x75 {
            Some(OpCodeType::OpDrop)
        } else if code == 0x76 {
            Some(OpCodeType::OpDup)
        } else if code == 0x77 {
            Some(OpCodeType::OpNip)
        } else if code == 0x78 {
            Some(OpCodeType::OpOver)
        } else if code == 0x79 {
            Some(OpCodeType::OpPick)
        } else if code == 0x7a {
            Some(OpCodeType::OpRoll)
        } else if code == 0x7b {
            Some(OpCodeType::OpRot)
        } else if code == 0x7c {
            Some(OpCodeType::OpSwap)
        } else if code == 0x7d {
            Some(OpCodeType::OpTuck)
        } else if code == 0x7e {
            Some(OpCodeType::OpCat)
        } else if code == 0x7f {
            Some(OpCodeType::OpSplit)
        } else if code == 0x80 {
            Some(OpCodeType::OpNum2Bin)
        } else if code == 0x81 {
            Some(OpCodeType::OpBin2Num)
        } else if code == 0x82 {
            Some(OpCodeType::OpSize)
        } else if code == 0x83 {
            Some(OpCodeType::OpInvert)
        } else if code == 0x84 {
            Some(OpCodeType::OpAnd)
        } else if code == 0x85 {
            Some(OpCodeType::OpOr)
        } else if code == 0x86 {
            Some(OpCodeType::OpXor)
        } else if code == 0x87 {
            Some(OpCodeType::OpEqual)
        } else if code == 0x88 {
            Some(OpCodeType::OpEqualVerify)
        } else if code == 0x89 {
            Some(OpCodeType::OpReserved1)
        } else if code == 0x8a {
            Some(OpCodeType::OpReserved2)
        } else if code == 0x8b {
            Some(OpCodeType::Op1Add)
        } else if code == 0x8c {
            Some(OpCodeType::Op1Sub)
        } else if code == 0x8d {
            Some(OpCodeType::Op2Mul)
        } else if code == 0x8e {
            Some(OpCodeType::Op2Div)
        } else if code == 0x8f {
            Some(OpCodeType::OpNegate)
        } else if code == 0x90 {
            Some(OpCodeType::OpAbs)
        } else if code == 0x91 {
            Some(OpCodeType::OpNot)
        } else if code == 0x92 {
            Some(OpCodeType::Op0NotEqual)
        } else if code == 0x93 {
            Some(OpCodeType::OpAdd)
        } else if code == 0x94 {
            Some(OpCodeType::OpSub)
        } else if code == 0x95 {
            Some(OpCodeType::OpMul)
        } else if code == 0x96 {
            Some(OpCodeType::OpDiv)
        } else if code == 0x97 {
            Some(OpCodeType::OpMod)
        } else if code == 0x98 {
            Some(OpCodeType::OpLShift)
        } else if code == 0x99 {
            Some(OpCodeType::OpRShift)
        } else if code == 0x9a {
            Some(OpCodeType::OpBoolAnd)
        } else if code == 0x9b {
            Some(OpCodeType::OpBoolOr)
        } else if code == 0x9c {
            Some(OpCodeType::OpNumEqual)
        } else if code == 0x9d {
            Some(OpCodeType::OpNumEqualVerify)
        } else if code == 0x9e {
            Some(OpCodeType::OpNumNotEqual)
        } else if code == 0x9f {
            Some(OpCodeType::OpLessThan)
        } else if code == 0xa0 {
            Some(OpCodeType::OpGreaterThan)
        } else if code == 0xa1 {
            Some(OpCodeType::OpLessThanOrEqual)
        } else if code == 0xa2 {
            Some(OpCodeType::OpGreaterThanOrEqual)
        } else if code == 0xa3 {
            Some(OpCodeType::OpMin)
        } else if code == 0xa4 {
            Some(OpCodeType::OpMax)
        } else if code == 0xa5 {
            Some(OpCodeType::OpWithin)
        } else if code == 0xa6 {
            Some(OpCodeType::OpRipemd160)
        } else if code == 0xa7 {
            Some(OpCodeType::OpSha1)
        } else if code == 0xa8 {
            Some(OpCodeType::OpSha256)
        } else if code == 0xa9 {
            Some(OpCodeType::OpHash160)
        } else if code == 0xaa {
            Some(OpCodeType::OpHash256)
        } else if code == 0xab {
            Some(OpCodeType::OpCodeSeparator)
        } else if code == 0xac {
            Some(OpCodeType::OpCheckSig)
        } else if code == 0xad {
            Some(OpCodeType::OpCheckSigVerify)
        } else if code == 0xae {
            Some(OpCodeType::OpCheckMultiSig)
        } else if code == 0xaf {
            Some(OpCodeType::OpCheckMultiSigVerify)
        } else if code == 0xb0 {
            Some(OpCodeType::OpNop1)
        } else if code == 0xb1 {
            Some(OpCodeType::OpCheckLockTimeVerify)
        } else if code == 0xb2 {
            Some(OpCodeType::OpCheckSequenceVerify)
        } else if code == 0xb3 {
            Some(OpCodeType::OpNop4)
        } else if code == 0xb4 {
            Some(OpCodeType::OpNop5)
        } else if code == 0xb5 {
            Some(OpCodeType::OpNop6)
        } else if code == 0xb6 {
            Some(OpCodeType::OpNop7)
        } else if code == 0xb7 {
            Some(OpCodeType::OpNop8)
        } else if code == 0xb8 {
            Some(OpCodeType::OpNop9)
        } else if code == 0xb9 {
            Some(OpCodeType::OpNop10)
        } else if code == 0xba {
            Some(OpCodeType::OpCheckDataSig)
        } else if code == 0xbb {
            Some(OpCodeType::OpCheckDataSigVerify)
        } else if code == 0xbc {
            Some(OpCodeType::FirstUndefinedOpCode)
        } else if code == 0xf0 {
            Some(OpCodeType::OpPrefixBegin)
        } else if code == 0xf7 {
            Some(OpCodeType::OpPrefixEnd)
        } else if code == 0xfa {
            Some(OpCodeType::OpSmallInteger)
        } else if code == 0xfb {
            Some(OpCodeType::OpPubKeys)
        } else if code == 0xfd {
            Some(OpCodeType::OpPubKeyHash)
        } else if code == 0xfe {
            Some(OpCodeType::OpPubkey)
        } else if code == 0xff {
            Some(OpCodeType::OpInvalidOpcode)
        } else {
            None
        }
    }

    /// The byte of the opcode.
    pub fn to_u8(self) -> (code: u8)
        ensures
            code == self.spec_to_u8(),
    {
        match self {
            OpCodeType::Op0 => 0x00,
            OpCodeType::OpPushData1 => 0x4c,
            OpCodeType::OpPushData2 => 0x4d,
            OpCodeType::OpPushData4 => 0x4e,
            OpCodeType::Op1Negate => 0x4f,
            OpCodeType::OpReserved => 0x50,
            OpCodeType::Op1 => 0x51,
            OpCodeType::Op2 => 0x52,
            OpCodeType::Op3 => 0x53,
            OpCodeType::Op4 => 0x54,
            OpCodeType::Op5 => 0x55,
            OpCodeType::Op6 => 0x56,
            OpCodeType::Op7 => 0x57,
            OpCodeType::Op8 => 0x58,
            OpCodeType::Op9 => 0x59,
            OpCodeType::Op10 => 0x5a,
            OpCodeType::Op11 => 0x5b,
            OpCodeType::Op12 => 0x5c,
            OpCodeType::Op13 => 0x5d,
            OpCodeType::Op14 => 0x5e,
            OpCodeType::Op15 => 0x5f,
            OpCodeType::Op16 => 0x60,
            OpCodeType::OpNop => 0x61,
            OpCodeType::OpVer => 0x62,
            OpCodeType::OpIf => 0x63,
            OpCodeType::OpNotIf => 0x64,
            OpCodeType::OpVerIf => 0x65,
            OpCodeType::OpVerNotIf => 0x66,
            OpCodeType::OpElse => 0x67,
            OpCodeType::OpEndIf => 0x68,
            OpCodeType::OpVerify => 0x69,
            OpCodeType::OpReturn => 0x6a,
            OpCodeType::OpToAltStack => 0x6b,
            OpCodeType::OpFromAltStack => 0x6c,
            OpCodeType::Op2Drop => 0x6d,
            OpCodeType::Op2Dup => 0x6e,
            OpCodeType::Op3Dup => 0x6f,
            OpCodeType::Op2Over => 0x70,
            OpCodeType::Op2Rot => 0x71,
            OpCodeType::Op2Swap => 0x72,
            OpCodeType::OpIfDup => 0x73,
            OpCodeType::OpDepth => 0x74,
            OpCodeType::OpDrop => 0x75,
            OpCodeType::OpDup => 0x76,
            OpCodeType::OpNip => 0x77,
            OpCodeType::OpOver => 0x78,
            OpCodeType::OpPick => 0x79,
            OpCodeType::OpRoll => 0x7a,
            OpCodeType::OpRot => 0x7b,
            OpCodeType::OpSwap => 0x7c,
            OpCodeType::OpTuck => 0x7d,
            OpCodeType::OpCat => 0x7e,
            OpCodeType::OpSplit => 0x7f,
            OpCodeType::OpNum2Bin => 0x80,
            OpCodeType::OpBin2Num => 0x81,
            OpCodeType::OpSize => 0x82,
            OpCodeType::OpInvert => 0x83,
            OpCodeType::OpAnd => 0x84,
            OpCodeType::OpOr => 0x85,
            OpCodeType::OpXor => 0x86,
            OpCodeType::OpEqual => 0x87,
            OpCodeType::OpEqualVerify => 0x88,
            OpCodeType::OpReserved1 => 0x89,
            OpCodeType::OpReserved2 => 0x8a,
            OpCodeType::Op1Add => 0x8b,
            OpCodeType::Op1Sub => 0x8c,
            OpCodeType::Op2Mul => 0x8d,
            OpCodeType::Op2Div => 0x8e,
            OpCodeType::OpNegate => 0x8f,
            OpCodeType::OpAbs => 0x90,
            OpCodeType::OpNot => 0x91,
            OpCodeType::Op0NotEqual => 0x92,
            OpCodeType::OpAdd => 0x93,
            OpCodeType::OpSub => 0x94,
            OpCodeType::OpMul => 0x95,
            OpCodeType::OpDiv => 0x96,
            OpCodeType::OpMod => 0x97,
            OpCodeType::OpLShift => 0x98,
            OpCodeType::OpRShift => 0x99,
            OpCodeType::OpBoolAnd => 0x9a,
            OpCodeType::OpBoolOr => 0x9b,
            OpCodeType::OpNumEqual => 0x9c,
            OpCodeType::OpNumEqualVerify => 0x9d,
            OpCodeType::OpNumNotEqual => 0x9e,
            OpCodeType::OpLessThan => 0x9f,
            OpCodeType::OpGreaterThan => 0xa0,
            OpCodeType::OpLessThanOrEqual => 0xa1,
            OpCodeType::OpGreaterThanOrEqual => 0xa2,
            OpCodeType::OpMin => 0xa3,
            OpCodeType::OpMax => 0xa4,
            OpCodeType::OpWithin => 0xa5,
            OpCodeType::OpRipemd160 => 0xa6,
            OpCodeType::OpSha1 => 0xa7,
            OpCodeType::OpSha256 => 0xa8,
            OpCodeType::OpHash160 => 0xa9,
            OpCodeType::OpHash256 => 0xaa,
            OpCodeType::OpCodeSeparator => 0xab,
            OpCodeType::OpCheckSig => 0xac,
            OpCodeType::OpCheckSigVerify => 0xad,
            OpCodeType::OpCheckMultiSig => 0xae,
            OpCodeType::OpCheckMultiSigVerify => 0xaf,
            OpCodeType::OpNop1 => 0xb0,
            OpCodeType::OpCheckLockTimeVerify => 0xb1,
            OpCodeType::OpCheckSequenceVerify => 0xb2,
            OpCodeType::OpNop4 => 0xb3,
            OpCodeType::OpNop5 => 0xb4,
            OpCodeType::OpNop6 => 0xb5,
            OpCodeType::OpNop7 => 0xb6,
            OpCodeType::OpNop8 => 0xb7,
            OpCodeType::OpNop9 => 0xb8,
            OpCodeType::OpNop10 => 0xb9,
            OpCodeType::OpCheckDataSig => 0xba,
            OpCodeType::OpCheckDataSigVerify => 0xbb,
            OpCodeType::FirstUndefinedOpCode => 0xbc,
            OpCodeType::OpPrefixBegin => 0xf0,
            OpCodeType::OpPrefixEnd => 0xf7,
            OpCodeType::OpSmallInteger => 0xfa,
            OpCodeType::OpPubKeys => 0xfb,
            OpCodeType::OpPubKeyHash => 0xfd,
            OpCodeType::OpPubkey => 0xfe,
            OpCodeType::OpInvalidOpcode => 0xff,
        }
    }

    /// The opcode of a byte; `None` for a byte that is no opcode.
    pub fn from_u8(code: u8) -> (op: Option<OpCodeType>)
        ensures
            op == Self::spec_from_u8(code),
    {
        match code {
            0x00 => Some(OpCodeType::Op0),
            0x4c => Some(OpCodeType::OpPushData1),
            0x4d => Some(OpCodeType::OpPushData2),
            0x4e => Some(OpCodeType::OpPushData4),
            0x4f => Some(OpCodeType::Op1Negate),
            0x50 => Some(OpCodeType::OpReserved),
            0x51 => Some(OpCodeType::Op1),
            0x52 => Some(OpCodeType::Op2),
            0x53 => Some(OpCodeType::Op3),
            0x54 => Some(OpCodeType::Op4),
            0x55 => Some(OpCodeType::Op5),
            0x56 => Some(OpCodeType::Op6),
            0x57 => Some(OpCodeType::Op7),
            0x58 => Some(OpCodeType::Op8),
            0x59 => Some(OpCodeType::Op9),
            0x5a => Some(OpCodeType::Op10),
            0x5b => Some(OpCodeType::Op11),
            0x5c => Some(OpCodeType::Op12),
            0x5d => Some(OpCodeType::Op13),
            0x5e => Some(OpCodeType::Op14),
            0x5f => Some(OpCodeType::Op15),
            0x60 => Some(OpCodeType::Op16),
            0x61 => Some(OpCodeType::OpNop),
            0x62 => Some(OpCodeType::OpVer),
            0x63 => Some(OpCodeType::OpIf),
            0x64 => Some(OpCodeType::OpNotIf),
            0x65 => Some(OpCodeType::OpVerIf),
            0x66 => Some(OpCodeType::OpVerNotIf),
            0x67 => Some(OpCodeType::OpElse),
            0x68 => Some(OpCodeType::OpEndIf),
            0x69 => Some(OpCodeType::OpVerify),
            0x6a => Some(OpCodeType::OpReturn),
            0x6b => Some(OpCodeType::OpToAltStack),
            0x6c => Some(OpCodeType::OpFromAltStack),
            0x6d => Some(OpCodeType::Op2Drop),
            0x6e => Some(OpCodeType::Op2Dup),
            0x6f => Some(OpCodeType::Op3Dup),
            0x70 => Some(OpCodeType::Op2Over),
            0x71 => Some(OpCodeType::Op2Rot),
            0x72 => Some(OpCodeType::Op2Swap),
            0x73 => Some(OpCodeType::OpIfDup),
            0x74 => Some(OpCodeType::OpDepth),
            0x75 => Some(OpCodeType::OpDrop),
            0x76 => Some(OpCodeType::OpDup),
            0x77 => Some(OpCodeType::OpNip),
            0x78 => Some(OpCodeType::OpOver),
            0x79 => Some(OpCodeType::OpPick),
            0x7a => Some(OpCodeType::OpRoll),
            0x7b => Some(OpCodeType::OpRot),
            0x7c => Some(OpCodeType::OpSwap),
            0x7d => Some(OpCodeType::OpTuck),
            0x7e => Some(OpCodeType::OpCat),
            0x7f => Some(OpCodeType::OpSplit),
            0x80 => Some(OpCodeType::OpNum2Bin),
            0x81 => Some(OpCodeType::OpBin2Num),
            0x82 => Some(OpCodeType::OpSize),
            0x83 => Some(OpCodeType::OpInvert),
            0x84 => Some(OpCodeType::OpAnd),
            0x85 => Some(OpCodeType::OpOr),
            0x86 => Some(OpCodeType::OpXor),
            0x87 => Some(OpCodeType::OpEqual),
            0x88 => Some(OpCodeType::OpEqualVerify),
            0x89 => Some(OpCodeType::OpReserved1),
            0x8a => Some(OpCodeType::OpReserved2),
            0x8b => Some(OpCodeType::Op1Add),
            0x8c => Some(OpCodeType::Op1Sub),
            0x8d => Some(OpCodeType::Op2Mul),
            0x8e => Some(OpCodeType::Op2Div),
            0x8f => Some(OpCodeType::OpNegate),
            0x90 => Some(OpCodeType::OpAbs),
            0x91 => Some(OpCodeType::OpNot),
            0x92 => Some(OpCodeType::Op0NotEqual),
            0x93 => Some(OpCodeType::OpAdd),
            0x94 => Some(OpCodeType::OpSub),
            0x95 => Some(OpCodeType::OpMul),
            0x96 => Some(OpCodeType::OpDiv),
            0x97 => Some(OpCodeType::OpMod),
            0x98 => Some(OpCodeType::OpLShift),
            0x99 => Some(OpCodeType::OpRShift),
            0x9a => Some(OpCodeType::OpBoolAnd),
            0x9b => Some(OpCodeType::OpBoolOr),
            0x9c => Some(OpCodeType::OpNumEqual),
            0x9d => Some(OpCodeType::OpNumEqualVerify),
            0x9e => Some(OpCodeType::OpNumNotEqual),
            0x9f => Some(OpCodeType::OpLessThan),
            0xa0 => Some(OpCodeType::OpGreaterThan),
            0xa1 => Some(OpCodeType::OpLessThanOrEqual),
            0xa2 => Some(OpCodeType::OpGreaterThanOrEqual),
            0xa3 => Some(OpCodeType::OpMin),
            0xa4 => Some(OpCodeType::OpMax),
            0xa5 => Some(OpCodeType::OpWithin),
            0xa6 => Some(OpCodeType::OpRipemd160),
            0xa7 => Some(OpCodeType::OpSha1),
            0xa8 => Some(OpCodeType::OpSha256),
            0xa9 => Some(OpCodeType::OpHash160),
            0xaa => Some(OpCodeType::OpHash256),
            0xab => Some(OpCodeType::OpCodeSeparator),
            0xac => Some(OpCodeType::OpCheckSig),
            0xad => Some(OpCodeType::OpCheckSigVerify),
            0xae => Some(OpCodeType::OpCheckMultiSig),
            0xaf => Some(OpCodeType::OpCheckMultiSigVerify),
            0xb0 => Some(OpCodeType::OpNop1),
            0xb1 => Some(OpCodeType::OpCheckLockTimeVerify),
            0xb2 => Some(OpCodeType::OpCheckSequenceVerify),
            0xb3 => Some(OpCodeType::OpNop4),
            0xb4 => Some(OpCodeType::OpNop5),
            0xb5 => Some(OpCodeType::OpNop6),
            0xb6 => Some(OpCodeType::OpNop7),
            0xb7 => Some(OpCodeType::OpNop8),
            0xb8 => Some(OpCodeType::OpNop9),
            0xb9 => Some(OpCodeType::OpNop10),
            0xba => Some(OpCodeType::OpCheckDataSig),
            0xbb => Some(OpCodeType::OpCheckDataSigVerify),
            0xbc => Some(OpCodeType::FirstUndefinedOpCode),
            0xf0 => Some(OpCodeType::OpPrefixBegin),
            0xf7 => Some(OpCodeType::OpPrefixEnd),
            0xfa => Some(OpCodeType::OpSmallInteger),
            0xfb => Some(OpCodeType::OpPubKeys),
            0xfd => Some(OpCodeType::OpPubKeyHash),
            0xfe => Some(OpCodeType::OpPubkey),
            0xff => Some(OpCodeType::OpInvalidOpcode),
            _ => None,
        }
    }

    /// Every opcode is the opcode of its byte, and of no other byte.
    pub proof fn lemma_byte_round_trip(self, code: u8)
        ensures
            Self::spec_from_u8(self.spec_to_u8()) == Some(self),
            Self::spec_from_u8(code) == Some(self) <==> self.spec_to_u8() == code,
    {
    }
}

/// What an [`Op`] is: a push of bytes or an opcode.
pub enum OpView {
    Push(Seq<u8>),
    Code(OpCodeType),
}

/// One element of a script: a push of bytes or an opcode.
#[derive(Debug, PartialEq, Eq)]
pub enum Op {
    Push(Vec<u8>),
    Code(OpCodeType),
}

impl View for Op {
    type V = OpView;

    open spec fn view(&self) -> OpView {
        match self {
            Op::Push(vec) => OpView::Push(vec@),
            Op::Code(code) => OpView::Code(*code),
        }
    }
}

impl Clone for Op {
    fn clone(&self) -> (op: Self)
        ensures
            op@ == self@,
    {
        match self {
            Op::Push(vec) => Op::Push(vec.clone()),
            Op::Code(code) => Op::Code(*code),
        }
    }
}

impl OpView {
    /// Whether the element has a wire form: a push must have a length of 32 bits.
    pub open spec fn encodable(self) -> bool {
        self matches OpView::Push(v) ==> v.len() <= 0xffff_ffff
    }

    /// The first byte of the wire form of a push that is not shortened, or the
    /// byte of the opcode.
    pub open spec fn code(self) -> u8 {
        match self {
            OpView::Push(v) => if v.len() <= 0x4b {
                v.len() as u8
            } else if v.len() <= 0xff {
                0x4c
            } else if v.len() <= 0xffff {
                0x4d
            } else {
                0x4e
            },
            OpView::Code(code) => code.spec_to_u8(),
        }
    }

    /// The wire form. With minimal pushes a single byte from 1 to 16 becomes
    /// the opcode of that number; without them the empty push is written as
    /// a one-byte-length push of nothing.
    pub open spec fn wire(self, is_minimal_push: bool) -> Seq<u8> {
        match self {
            OpView::Code(code) => seq![code.spec_to_u8()],
            OpView::Push(v) => if v.len() == 0 && !is_minimal_push {
                seq![0x4cu8, 0u8]
            } else if v.len() == 1 && is_minimal_push && 1 <= v[0] <= 16 {
                seq![(v[0] + 0x50) as u8]
            } else if v.len() <= 0x4b {
                seq![v.len() as u8] + v
            } else if v.len() <= 0xff {
                seq![0x4cu8, v.len() as u8] + v
            } else if v.len() <= 0xffff {
                seq![0x4du8] + le_bytes(v.len(), 2) + v
            } else {
                seq![0x4eu8] + le_bytes(v.len(), 4) + v
            },
        }
    }
}

/// The elements of a script as what they are.
pub open spec fn view_ops(ops: Seq<Op>) -> Seq<OpView> {
    Seq::new(ops.len(), |i: int| ops[i]@)
}

/// Whether every element has a wire form.
pub open spec fn ops_encodable(ops: Seq<OpView>) -> bool {
    forall|i: int| 0 <= i < ops.len() ==> (#[trigger] ops[i]).encodable()
}

/// Whether no element is `OP_CODESEPARATOR`.
pub open spec fn no_separator(ops: Seq<OpView>) -> bool {
    forall|i: int| 0 <= i < ops.len() ==> (#[trigger] ops[i]) != OpView::Code(
        OpCodeType::OpCodeSeparator,
    )
}

/// The wire forms of the elements, one behind the other.
pub open spec fn ops_wire(ops: Seq<OpView>, is_minimal_push: bool) -> Seq<u8>
    decreases ops.len(),
{
    if ops.len() == 0 {
        Seq::empty()
    } else {
        ops_wire(ops.drop_last(), is_minimal_push) + ops.last().wire(is_minimal_push)
    }
}

/// The elements strictly behind the rightmost `OP_CODESEPARATOR`; all of them
/// where there is none.
pub open spec fn after_last_separator(ops: Seq<OpView>) -> Seq<OpView>
    decreases ops.len(),
{
    if ops.len() == 0 {
        ops
    } else if ops.last() == OpView::Code(OpCodeType::OpCodeSeparator) {
        Seq::empty()
    } else {
        after_last_separator(ops.drop_last()).push(ops.last())
    }
}

/// The element at the start of `s`, which is not empty, and the count of bytes
/// it takes; `None` when `s` ends inside a push. A byte that is no opcode reads
/// as `OP_INVALIDOPCODE`.
pub open spec fn parse_op(s: Seq<u8>) -> Option<(OpView, nat)> {
    let first = s[0];
    if first <= 0x4b {
        if s.len() < 1 + first {
            None
        } else {
            Some((OpView::Push(s.subrange(1, 1 + first)), (1 + first) as nat))
        }
    } else if first <= 0x4e {
        let width: int = if first == 0x4c {
            1
        } else if first == 0x4d {
            2
        } else {
            4
        };
        if s.len() < 1 + width {
            None
        } else {
            let n = le_value(s.subrange(1, 1 + width));
            if s.len() < 1 + width + n {
                None
            } else {
                Some(
                    (
                        OpView::Push(s.subrange(1 + width, 1 + width + n)),
                        (1 + width + n) as nat,
                    ),
                )
            }
        }
    } else {
        Some(
            (
                OpView::Code(
                    match OpCodeType::spec_from_u8(first) {
                        Some(code) => code,
                        None => OpCodeType::OpInvalidOpcode,
                    },
                ),
                1nat,
            ),
        )
    }
}

/// The elements that the bytes `s` hold; `None` when `s` ends inside a push.
pub open spec fn parse_ops(s: Seq<u8>) -> Option<Seq<OpView>>
    decreases s.len(),
{
    if s.len() == 0 {
        Some(Seq::empty())
    } else {
        match parse_op(s) {
            None => None,
            Some((op, used)) => match parse_ops(s.skip(used as int)) {
                None => None,
                Some(rest) => Some(seq![op] + rest),
            },
        }
    }
}

/// Whether the bytes `s` could be the data of a token message: no byte 0 stands
/// where an element starts, and every opcode but the one at the very start is
/// `OP_RETURN`. `at_start` says whether `s` starts at the start of the script.
pub open spec fn parsed_slp_safe(s: Seq<u8>, at_start: bool) -> bool
    decreases s.len(),
{
    if s.len() == 0 {
        true
    } else {
        match parse_op(s) {
            None => true,
            Some((op, used)) => {
                &&& s[0] != 0
                &&& op is Code ==> at_start || op == OpView::Code(OpCodeType::OpReturn)
                &&& parsed_slp_safe(s.skip(used as int), false)
            },
        }
    }
}

/// What a [`Script`] is.
#[verifier::ext_equal]
pub struct ScriptView {
    /// The elements.
    pub ops: Seq<OpView>,
    /// The bytes the script was read from, kept to be written out again.
    pub serialized: Option<Seq<u8>>,
    pub is_minimal_push: bool,
    pub is_slp_safe: bool,
}

impl ScriptView {
    /// The script of `ops` as it is made new, written with minimal pushes.
    pub open spec fn new(ops: Seq<OpView>) -> ScriptView {
        ScriptView { ops, serialized: None, is_minimal_push: true, is_slp_safe: false }
    }

    /// The script of `ops` as it is made new, written without minimal pushes.
    pub open spec fn new_non_minimal_push(ops: Seq<OpView>) -> ScriptView {
        ScriptView { ops, serialized: None, is_minimal_push: false, is_slp_safe: false }
    }

    /// Whether every element has a wire form.
    pub open spec fn encodable(self) -> bool {
        ops_encodable(self.ops)
    }

    /// Whether the script has a wire form: it keeps the bytes it was read
    /// from, or every element has one.
    pub open spec fn writable(self) -> bool {
        self.serialized is Some || self.encodable()
    }

    /// The wire form: the bytes the script was read from, or else the wire
    /// forms of its elements.
    pub open spec fn wire(self) -> Seq<u8> {
        match self.serialized {
            Some(bytes) => bytes,
            None => ops_wire(self.ops, self.is_minimal_push),
        }
    }

    /// The form that is signed: the wire forms of the elements behind the
    /// rightmost `OP_CODESEPARATOR`.
    pub open spec fn sig_wire(self) -> Seq<u8> {
        ops_wire(after_last_separator(self.ops), self.is_minimal_push)
    }
}

/// The script that the bytes `s` hold, as reading gives it: it keeps the
/// bytes, and its pushes count as minimal.
pub open spec fn parse_script(s: Seq<u8>) -> Option<ScriptView> {
    match parse_ops(s) {
        Some(ops) => Some(
            ScriptView {
                ops,
                serialized: Some(s),
                is_minimal_push: true,
                is_slp_safe: parsed_slp_safe(s, true),
            },
        ),
        None => None,
    }
}

/// A sequence of elements, with the choice of how pushes are written.
#[derive(Debug)]
pub struct Script {
    ops: Vec<Op>,
    serialized: Option<Vec<u8>>,
    is_minimal_push: bool,
    is_slp_safe: bool,
}

impl View for Script {
    type V = ScriptView;

    closed spec fn view(&self) -> ScriptView {
        ScriptView {
            ops: view_ops(self.ops@),
            serialized: match self.serialized {
                Some(bytes) => Some(bytes@),
                None => None,
            },
            is_minimal_push: self.is_minimal_push,
            is_slp_safe: self.is_slp_safe,
        }
    }
}

/// One more element adds its wire form at the end.
pub proof fn lemma_ops_wire_push(ops: Seq<OpView>, op: OpView, is_minimal_push: bool)
    ensures
        ops_wire(ops.push(op), is_minimal_push) == ops_wire(ops, is_minimal_push) + op.wire(
            is_minimal_push,
        ),
{
    assert(ops.push(op).drop_last() =~= ops);
}

/// The wire form of two runs of elements is the wire form of the first and
/// then that of the second.
pub proof fn lemma_ops_wire_concat(a: Seq<OpView>, b: Seq<OpView>, is_minimal_push: bool)
    ensures
        ops_wire(a + b, is_minimal_push) == ops_wire(a, is_minimal_push) + ops_wire(
            b,
            is_minimal_push,
        ),
    decreases b.len(),
{
    if b.len() == 0 {
        assert(a + b =~= a);
        assert(ops_wire(a, is_minimal_push) + ops_wire(b, is_minimal_push) =~= ops_wire(
            a,
            is_minimal_push,
        ));
    } else {
        lemma_ops_wire_concat(a, b.drop_last(), is_minimal_push);
        assert((a + b).drop_last() =~= a + b.drop_last());
        assert((a + b).last() == b.last());
        assert(ops_wire(a + b, is_minimal_push) =~= ops_wire(a, is_minimal_push) + ops_wire(
            b,
            is_minimal_push,
        ));
    }
}

/// Two runs of elements without an `OP_CODESEPARATOR` make one without.
pub proof fn lemma_no_separator_concat(a: Seq<OpView>, b: Seq<OpView>)
    requires
        no_separator(a),
        no_separator(b),
    ensures
        no_separator(a + b),
{
    assert forall|i: int| 0 <= i < (a + b).len() implies (#[trigger] (a + b)[i]) != OpView::Code(
        OpCodeType::OpCodeSeparator,
    ) by {
        if i < a.len() {
            assert((a + b)[i] == a[i]);
        } else {
            assert((a + b)[i] == b[i - a.len()]);
        }
    }
}

/// Where `k` is behind the rightmost `OP_CODESEPARATOR`, or 0 with none at
/// all, the elements behind it are those from `k` on.
pub proof fn lemma_after_last_separator(ops: Seq<OpView>, k: int)
    requires
        0 <= k <= ops.len(),
        forall|i: int| k <= i < ops.len() ==> ops[i] != OpView::Code(OpCodeType::OpCodeSeparator),
        k == 0 || ops[k - 1] == OpView::Code(OpCodeType::OpCodeSeparator),
    ensures
        after_last_separator(ops) == ops.skip(k),
    decreases ops.len(),
{
    if ops.len() == k {
        assert(ops.skip(k) =~= Seq::<OpView>::empty());
    } else {
        lemma_after_last_separator(ops.drop_last(), k);
        assert(ops.drop_last().skip(k).push(ops.last()) =~= ops.skip(k));
    }
}

/// The wire form of elements has at least one byte for each.
pub proof fn lemma_ops_wire_len(ops: Seq<OpView>, is_minimal_push: bool)
    ensures
        ops_wire(ops, is_minimal_push).len() >= ops.len(),
    decreases ops.len(),
{
    if ops.len() > 0 {
        lemma_ops_wire_len(ops.drop_last(), is_minimal_push);
        crate::serialize::lemma_le_bytes_len(ops.last()->Push_0.len(), 2);
        crate::serialize::lemma_le_bytes_len(ops.last()->Push_0.len(), 4);
    }
}

/// Without an `OP_CODESEPARATOR`, and without bytes kept from reading, the
/// form that is signed is the wire form.
pub proof fn lemma_sig_wire_without_separator(script: ScriptView)
    requires
        forall|i: int|
            0 <= i < script.ops.len() ==> script.ops[i] != OpView::Code(
                OpCodeType::OpCodeSeparator,
            ),
        script.serialized is None,
    ensures
        script.sig_wire() == script.wire(),
{
    lemma_after_last_separator(script.ops, 0);
    assert(script.ops.skip(0) =~= script.ops);
}

impl Op {
    /// The first byte of the wire form of a push that is not shortened, or the
    /// byte of the opcode.
    pub fn code(&self) -> (code: u8)
        requires
            self@.encodable(),
        ensures
            code == self@.code(),
    {
        match self {
            Op::Push(vec) => {
                let len = vec.len();
                if len <= 0x4b {
                    len as u8
                } else if len <= 0xff {
                    0x4c
                } else if len <= 0xffff {
                    0x4d
                } else {
                    0x4e
                }
            },
            Op::Code(code) => code.to_u8(),
        }
    }

    /// Appends the wire form to `write`.
    pub fn write_to_stream(&self, write: &mut Vec<u8>, is_minimal_push: bool)
        requires
            self@.encodable(),
        ensures
            final(write)@ == old(write)@ + self@.wire(is_minimal_push),
    {
        match self {
            Op::Push(vec) => {
                let len = vec.len();
                if len == 0 && !is_minimal_push {
                    write.push(0x4c);
                    write.push(0);
                    assert(write@ =~= old(write)@ + self@.wire(is_minimal_push));
                    return ;
                }
                if len == 1 && is_minimal_push && vec[0] > 0 && vec[0] <= 16 {
                    write.push(vec[0] + 0x50);
                    assert(write@ =~= old(write)@ + self@.wire(is_minimal_push));
                    return ;
                }
                write.push(self.code());
                if len <= 0x4b {
                } else if len <= 0xff {
                    write.push(len as u8);
                } else if len <= 0xffff {
                    put_u16_le(write, len as u16);
                } else {
                    put_u32_le(write, len as u32);
                }
                write.extend_from_slice(vec.as_slice());
                assert(write@ =~= old(write)@ + self@.wire(is_minimal_push));
            },
            Op::Code(code) => {
                write.push(code.to_u8());
                assert(write@ =~= old(write)@ + self@.wire(is_minimal_push));
            },
        }
    }
}

/// Appends the wire forms of `ops[from..]` to a new vector.
fn ops_to_vec(ops: &Vec<Op>, from: usize, is_minimal_push: bool) -> (vec: Vec<u8>)
    requires
        from <= ops.len(),
        ops_encodable(view_ops(ops@)),
    ensures
        vec@ == ops_wire(view_ops(ops@).skip(from as int), is_minimal_push),
{
    let mut vec = Vec::new();
    let ghost all = view_ops(ops@);
    let mut idx = from;
    proof {
        assert(all.subrange(from as int, from as int) =~= Seq::<OpView>::empty());
    }
    while idx < ops.len()
        invariant
            from <= idx <= ops.len(),
            all == view_ops(ops@),
            ops_encodable(all),
            vec@ == ops_wire(all.subrange(from as int, idx as int), is_minimal_push),
        decreases ops.len() - idx,
    {
        proof {
            assert(all[idx as int].encodable());
            assert(all.subrange(from as int, idx + 1) =~= all.subrange(
                from as int,
                idx as int,
            ).push(all[idx as int]));
            lemma_ops_wire_push(
                all.subrange(from as int, idx as int),
                all[idx as int],
                is_minimal_push,
            );
        }
        ops[idx].write_to_stream(&mut vec, is_minimal_push);
        idx += 1;
    }
    proof {
        assert(all.subrange(from as int, idx as int) =~= all.skip(from as int));
    }
    vec
}

/// Reads the element that starts at `idx`; gives it and the position behind it,
/// or `None` when the bytes end inside a push.
fn read_op(data: &[u8], idx: usize) -> (r: Option<(Op, usize)>)
    requires
        idx < data.len(),
    ensures
        match parse_op(data@.skip(idx as int)) {
            Some((op, used)) => r matches Some((o, next)) && o@ == op && next == idx + used
                && used >= 1 && next <= data.len() && (o is Push ==> data[idx as int] <= 0x4e),
            None => r is None,
        },
{
    let ghost s = data@.skip(idx as int);
    let first = data[idx];
    assert(s[0] == first);
    let offset = idx + 1;
    if first <= 0x4b {
        let n_bytes = first as usize;
        if n_bytes > data.len() - offset {
            return None;
        }
        let payload = vstd::slice::slice_to_vec(
            vstd::slice::slice_subrange(data, offset, offset + n_bytes),
        );
        assert(payload@ =~= s.subrange(1, 1 + first));
        Some((Op::Push(payload), offset + n_bytes))
    } else if first <= 0x4e {
        let start: usize;
        let n_bytes: usize;
        if first == 0x4c {
            if offset >= data.len() {
                return None;
            }
            proof {
                reveal_with_fuel(le_value, 2);
                assert(s.subrange(1, 2).drop_first() =~= Seq::<u8>::empty());
            }
            n_bytes = data[offset] as usize;
            start = offset + 1;
        } else if first == 0x4d {
            proof {
                if s.len() >= 3 {
                    assert(s.subrange(1, 3) =~= data@.subrange(offset as int, offset + 2));
                }
            }
            match get_u16_le(data, offset) {
                None => {
                    return None;
                },
                Some(n) => {
                    n_bytes = n as usize;
                },
            }
            start = offset + 2;
        } else {
            proof {
                if s.len() >= 5 {
                    assert(s.subrange(1, 5) =~= data@.subrange(offset as int, offset + 4));
                }
            }
            match get_u32_le(data, offset) {
                None => {
                    return None;
                },
                Some(n) => {
                    n_bytes = n as usize;
                },
            }
            start = offset + 4;
        }
        if n_bytes > data.len() - start {
            return None;
        }
        let payload = vstd::slice::slice_to_vec(
            vstd::slice::slice_subrange(data, start, start + n_bytes),
        );
        assert(payload@ =~= s.subrange(start - idx, start - idx + n_bytes));
        Some((Op::Push(payload), start + n_bytes))
    } else {
        let code = match OpCodeType::from_u8(first) {
            Some(code) => code,
            None => OpCodeType::OpInvalidOpcode,
        };
        Some((Op::Code(code), offset))
    }
}

impl Clone for Script {
    fn clone(&self) -> (script: Self)
        ensures
            script@ == self@,
    {
        let mut ops: Vec<Op> = Vec::new();
        let mut idx: usize = 0;
        while idx < self.ops.len()
            invariant
                idx <= self.ops.len(),
                ops.len() == idx,
                forall|i: int| 0 <= i < idx ==> ops[i]@ == self.ops[i]@,
            decreases self.ops.len() - idx,
        {
            ops.push(self.ops[idx].clone());
            idx += 1;
        }
        let serialized = match &self.serialized {
            Some(bytes) => Some(bytes.clone()),
            None => None,
        };
        let script = Script {
            ops,
            serialized,
            is_minimal_push: self.is_minimal_push,
            is_slp_safe: self.is_slp_safe,
        };
        assert(script@.ops =~= self@.ops);
        script
    }
}

impl Script {
    /// The script without elements.
    pub fn empty() -> (script: Self)
        ensures
            script@ == (ScriptView {
                ops: Seq::empty(),
                serialized: None,
                is_minimal_push: true,
                is_slp_safe: true,
            }),
    {
        let script = Script {
            ops: Vec::new(),
            is_minimal_push: true,
            is_slp_safe: true,
            serialized: None,
        };
        assert(script@.ops =~= Seq::<OpView>::empty());
        script
    }

    /// The script of `ops`, written with minimal pushes.
    pub fn new(ops: Vec<Op>) -> (script: Self)
        ensures
            script@ == ScriptView::new(view_ops(ops@)),
    {
        Script { ops, is_minimal_push: true, is_slp_safe: false, serialized: None }
    }

    /// The script of `ops`, written without minimal pushes.
    pub fn new_non_minimal_push(ops: Vec<Op>) -> (script: Self)
        ensures
            script@ == ScriptView::new_non_minimal_push(view_ops(ops@)),
    {
        Script { ops, is_minimal_push: false, is_slp_safe: false, serialized: None }
    }

    /// Reads a script from its wire form and keeps the bytes; `None` when the
    /// bytes end inside a push.
    pub fn from_serialized(data: &[u8]) -> (parsed: Option<Self>)
        ensures
            match parse_script(data@) {
                Some(script) => parsed matches Some(p) && p@ == script && p@.wire() == data@,
                None => parsed is None,
            },
    {
        let mut ops: Vec<Op> = Vec::new();
        let mut idx: usize = 0;
        let mut is_slp_safe = true;
        proof {
            assert(data@.skip(0) =~= data@);
            assert(view_ops(ops@) =~= Seq::<OpView>::empty());
            match parse_ops(data@) {
                Some(rest) => {
                    assert(view_ops(ops@) + rest =~= rest);
                },
                None => {},
            }
        }
        while idx < data.len()
            invariant
                idx <= data.len(),
                parse_ops(data@) == match parse_ops(data@.skip(idx as int)) {
                    Some(rest) => Some(view_ops(ops@) + rest),
                    None => None,
                },
                parsed_slp_safe(data@, true) == (is_slp_safe && parsed_slp_safe(
                    data@.skip(idx as int),
                    idx == 0,
                )),
            decreases data.len() - idx,
        {
            let ghost s = data@.skip(idx as int);
            let ghost before = view_ops(ops@);
            let (op, next) = match read_op(data, idx) {
                Some(read) => read,
                None => {
                    return None;
                },
            };
            assert(s[0] == data[idx as int]);
            match &op {
                Op::Push(_) => {
                    if data[idx] == 0 {
                        is_slp_safe = false;
                    }
                },
                Op::Code(code) => {
                    let is_return = match code {
                        OpCodeType::OpReturn => true,
                        _ => false,
                    };
                    if idx != 0 && !is_return {
                        is_slp_safe = false;
                    }
                },
            }
            proof {
                assert(s.skip(next - idx) =~= data@.skip(next as int));
                match parse_ops(data@.skip(next as int)) {
                    Some(rest) => {
                        assert(before + (seq![op@] + rest) =~= before.push(op@) + rest);
                    },
                    None => {},
                }
            }
            ops.push(op);
            assert(view_ops(ops@) =~= before.push(op@));
            idx = next;
        }
        proof {
            assert(data@.skip(idx as int) =~= Seq::<u8>::empty());
            assert(view_ops(ops@) + Seq::<OpView>::empty() =~= view_ops(ops@));
        }
        Some(
            Script {
                ops,
                is_minimal_push: true,
                is_slp_safe,
                serialized: Some(vstd::slice::slice_to_vec(data)),
            },
        )
    }

    /// The wire form.
    pub fn to_vec(&self) -> (vec: Vec<u8>)
        requires
            self@.writable(),
        ensures
            vec@ == self@.wire(),
    {
        if let Some(vec) = &self.serialized {
            return vec.clone();
        }
        proof {
            assert(view_ops(self.ops@).skip(0) =~= view_ops(self.ops@));
        }
        ops_to_vec(&self.ops, 0, self.is_minimal_push)
    }

    /// The form that is signed: the wire forms of the elements strictly behind
    /// the rightmost `OP_CODESEPARATOR`, of all elements where there is none.
    pub fn to_vec_sig(&self) -> (vec: Vec<u8>)
        requires
            self@.encodable(),
        ensures
            vec@ == self@.sig_wire(),
    {
        let mut start = self.ops.len();
        let mut found = false;
        while start > 0 && !found
            invariant
                start <= self.ops.len(),
                found ==> start > 0 && view_ops(self.ops@)[start - 1] == OpView::Code(
                    OpCodeType::OpCodeSeparator,
                ),
                forall|i: int|
                    start <= i < self.ops.len() ==> view_ops(self.ops@)[i] != OpView::Code(
                        OpCodeType::OpCodeSeparator,
                    ),
            decreases start - (if found { 1int } else { 0int }),
        {
            let is_separator = match &self.ops[start - 1] {
                Op::Code(OpCodeType::OpCodeSeparator) => true,
                _ => false,
            };
            if is_separator {
                found = true;
            } else {
                start -= 1;
            }
        }
        proof {
            lemma_after_last_separator(view_ops(self.ops@), start as int);
        }
        ops_to_vec(&self.ops, start, self.is_minimal_push)
    }

    /// Appends an element. Bytes kept from reading are dropped.
    pub fn add_op(&mut self, op: Op)
        ensures
            final(self)@ == (ScriptView {
                ops: old(self)@.ops.push(op@),
                serialized: None,
                ..old(self)@
            }),
    {
        self.ops.push(op);
        self.serialized = None;
        assert(self@.ops =~= old(self)@.ops.push(op@));
    }

    /// Appends the elements of `other`. Bytes kept from reading are dropped.
    pub fn extend(&mut self, other: Script)
        ensures
            final(self)@ == (ScriptView {
                ops: old(self)@.ops + other@.ops,
                serialized: None,
                ..old(self)@
            }),
    {
        let ghost appended = other@.ops;
        let mut other = other;
        self.ops.append(&mut other.ops);
        self.serialized = None;
        assert(self@.ops =~= old(self)@.ops + appended);
    }

    /// The elements.
    pub fn ops(&self) -> (ops: &[Op])
        ensures
            view_ops(ops@) == self@.ops,
    {
        self.ops.as_slice()
    }

    /// Whether the script, as it was read, could be the data of a token message.
    pub fn is_slp_safe(&self) -> (safe: bool)
        ensures
            safe == self@.is_slp_safe,
    {
        self.is_slp_safe
    }
}

/// The push of `data`.
pub open spec fn push(data: Seq<u8>) -> OpView {
    OpView::Push(data)
}

/// The opcode `code`.
pub open spec fn code(code: OpCodeType) -> OpView {
    OpView::Code(code)
}

/// A list of elements to build on.
pub fn new_ops() -> (ops: Vec<Op>)
    ensures
        view_ops(ops@) == Seq::<OpView>::empty(),
        ops_encodable(view_ops(ops@)),
        no_separator(view_ops(ops@)),
{
    let ops: Vec<Op> = Vec::new();
    assert(view_ops(ops@) =~= Seq::<OpView>::empty());
    ops
}

/// Appends an opcode to `ops`.
pub fn push_code(ops: &mut Vec<Op>, opcode: OpCodeType)
    ensures
        view_ops(final(ops)@) == view_ops(old(ops)@).push(code(opcode)),
        ops_encodable(view_ops(old(ops)@)) ==> ops_encodable(view_ops(final(ops)@)),
        no_separator(view_ops(old(ops)@)) && opcode != OpCodeType::OpCodeSeparator ==> no_separator(
            view_ops(final(ops)@),
        ),
{
    ops.push(Op::Code(opcode));
    assert(view_ops(ops@) =~= view_ops(old(ops)@).push(code(opcode)));
}

/// Appends a push of `data` to `ops`.
pub fn push_data(ops: &mut Vec<Op>, data: Vec<u8>)
    ensures
        view_ops(final(ops)@) == view_ops(old(ops)@).push(push(data@)),
        ops_encodable(view_ops(old(ops)@)) && data@.len() <= 0xffff_ffff ==> ops_encodable(
            view_ops(final(ops)@),
        ),
        no_separator(view_ops(old(ops)@)) ==> no_separator(view_ops(final(ops)@)),
{
    let ghost bytes = data@;
    ops.push(Op::Push(data));
    assert(view_ops(ops@) =~= view_ops(old(ops)@).push(push(bytes)));
}

/// Appends the elements of `more` to `ops`.
pub fn append_ops(ops: &mut Vec<Op>, more: Vec<Op>)
    ensures
        view_ops(final(ops)@) == view_ops(old(ops)@) + view_ops(more@),
        ops_encodable(view_ops(old(ops)@)) && ops_encodable(view_ops(more@)) ==> ops_encodable(
            view_ops(final(ops)@),
        ),
        no_separator(view_ops(old(ops)@)) && no_separator(view_ops(more@)) ==> no_separator(
            view_ops(final(ops)@),
        ),
{
    let ghost added = view_ops(more@);
    let mut more = more;
    ops.append(&mut more);
    assert(view_ops(ops@) =~= view_ops(old(ops)@) + added);
}

/// The one byte `a`.
pub(crate) fn bytes1(a: u8) -> (bytes: Vec<u8>)
    ensures
        bytes@ == seq![a],
{
    let bytes = vec![a];
    assert(bytes@ =~= seq![a]);
    bytes
}

/// The two bytes `a`, `b`.
pub(crate) fn bytes2(a: u8, b: u8) -> (bytes: Vec<u8>)
    ensures
        bytes@ == seq![a, b],
{
    let bytes = vec![a, b];
    assert(bytes@ =~= seq![a, b]);
    bytes
}

/// The three bytes `a`, `b`, `c`.
pub(crate) fn bytes3(a: u8, b: u8, c: u8) -> (bytes: Vec<u8>)
    ensures
        bytes@ == seq![a, b, c],
{
    let bytes = vec![a, b, c];
    assert(bytes@ =~= seq![a, b, c]);
    bytes
}

/// The four bytes `a`, `b`, `c`, `d`.
pub(crate) fn bytes4(a: u8, b: u8, c: u8, d: u8) -> (bytes: Vec<u8>)
    ensures
        bytes@ == seq![a, b, c, d],
{
    let bytes = vec![a, b, c, d];
    assert(bytes@ =~= seq![a, b, c, d]);
    bytes
}

impl OpView {
    /// Whether the element is read back from its wire form as one element:
    /// a push that has a wire form, or an opcode other than the three that
    /// start a push with a length.
    pub open spec fn plain(self) -> bool {
        match self {
            OpView::Push(v) => v.len() <= 0xffff_ffff,
            OpView::Code(code) => code != OpCodeType::OpPushData1 && code
                != OpCodeType::OpPushData2 && code != OpCodeType::OpPushData4,
        }
    }
}

/// Whether every element is read back from its wire form as one element.
pub open spec fn ops_plain(ops: Seq<OpView>) -> bool {
    forall|i: int| 0 <= i < ops.len() ==> (#[trigger] ops[i]).plain()
}

/// The wire form of a plain element, whatever follows it, is read as one
/// element that takes exactly its bytes.
pub proof fn lemma_parse_op_of_wire(op: OpView, is_minimal_push: bool, rest: Seq<u8>)
    requires
        op.plain(),
    ensures
        parse_op(op.wire(is_minimal_push) + rest) matches Some((_, used)) && used == op.wire(
            is_minimal_push,
        ).len() && used >= 1,
{
    let wire = op.wire(is_minimal_push);
    let s = wire + rest;
    crate::serialize::lemma_pow256_values();
    match op {
        OpView::Code(code) => {
            assert(s[0] == code.spec_to_u8());
        },
        OpView::Push(v) => {
            let n = v.len();
            crate::serialize::lemma_le_bytes_len(n, 2);
            crate::serialize::lemma_le_bytes_len(n, 4);
            if n <= 0xffff {
                crate::serialize::lemma_le_value_le_bytes(n, 2);
            }
            crate::serialize::lemma_le_value_le_bytes(n, 4);
            if n == 0 && !is_minimal_push {
                reveal_with_fuel(le_value, 2);
                assert(s.subrange(1, 2) =~= seq![0u8]);
                assert(s.subrange(1, 2).drop_first() =~= Seq::<u8>::empty());
            } else if n == 1 && is_minimal_push && 1 <= v[0] <= 16 {
                assert(s[0] == v[0] + 0x50);
            } else if n <= 0x4b {
                assert(s[0] == n);
            } else if n <= 0xff {
                reveal_with_fuel(le_value, 2);
                assert(s[0] == 0x4c);
                assert(s.subrange(1, 2) =~= seq![n as u8]);
                assert(s.subrange(1, 2).drop_first() =~= Seq::<u8>::empty());
            } else if n <= 0xffff {
                assert(s[0] == 0x4d);
                assert(s.subrange(1, 3) =~= le_bytes(n, 2));
            } else {
                assert(s[0] == 0x4e);
                assert(s.subrange(1, 5) =~= le_bytes(n, 4));
            }
        },
    }
}

/// The wire form of plain elements, followed by bytes that hold elements,
/// holds elements.
pub proof fn lemma_parse_ops_of_wire(ops: Seq<OpView>, is_minimal_push: bool, rest: Seq<u8>)
    requires
        ops_plain(ops),
        parse_ops(rest) is Some,
    ensures
        parse_ops(ops_wire(ops, is_minimal_push) + rest) is Some,
    decreases ops.len(),
{
    if ops.len() == 0 {
        assert(ops_wire(ops, is_minimal_push) + rest =~= rest);
    } else {
        let last = ops.last().wire(is_minimal_push);
        let tail = last + rest;
        assert(ops.last().plain());
        lemma_parse_op_of_wire(ops.last(), is_minimal_push, rest);
        assert(tail.skip(last.len() as int) =~= rest);
        assert(parse_ops(tail) is Some);
        assert forall|i: int| 0 <= i < ops.drop_last().len() implies (#[trigger] ops.drop_last()[i]).plain() by {
            assert(ops[i].plain());
        }
        lemma_parse_ops_of_wire(ops.drop_last(), is_minimal_push, tail);
        assert(ops_wire(ops, is_minimal_push) + rest =~= ops_wire(
            ops.drop_last(),
            is_minimal_push,
        ) + tail);
    }
}

/// A script that was made from plain elements has a wire form that is a
/// script: it can be written and read back.
pub proof fn lemma_plain_script_readable(script: ScriptView)
    requires
        script.serialized is None,
        ops_plain(script.ops),
    ensures
        parse_script(script.wire()) is Some,
{
    lemma_parse_ops_of_wire(script.ops, script.is_minimal_push, Seq::empty());
    assert(script.wire() + Seq::<u8>::empty() =~= script.wire());
}

} // verus!
