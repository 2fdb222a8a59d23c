//! The trade offer covenant: tokens on sale at a price, which the spending
//! transaction may buy in part or in full, or the seller take back.

use crate::address::Address;
use crate::outputs::{p2pkh_ops, slp_send_script, P2PKHOutput, SLPSend};
use crate::script::{
    bytes1, bytes2, bytes3, code, new_ops, ops_encodable, push, push_code, push_data, append_ops,
    view_ops, Op, OpCodeType, OpView, Script, ScriptView,
};
use crate::serialize::{
    be_bytes, encode_int, le_bytes, low_i32, low_u32, script_num,
    spec_var_int, spec_var_str, u32_be, u32_le, var_int_to_vec, write_var_int, write_var_str,
};
use crate::tx::{outputs_wire, view_outputs, write_outputs, TxOutput, TxOutputView};
use crate::unsigned_tx::{PreImage, PreImageView, PreImageWriteFlags};
use vstd::prelude::*;

verus! {

/// How a trade offer is spent.
#[derive(Clone, Copy, Debug, PartialEq, Eq, Structural)]
pub enum AdvancedTradeOfferSpendParams {
    /// Buys for this amount.
    AcceptPartially { buy_amount: u64 },
    /// Buys all that is on sale.
    AcceptFully,
    /// The seller takes the offer back.
    Cancel,
}

/// Tokens on sale at a price.
#[derive(Debug)]
pub struct AdvancedTradeOffer {
    pub value: u64,
    pub lokad_id: Vec<u8>,
    pub version: u8,
    pub power: u8,
    pub is_inverted: bool,
    pub token_id: [u8; 32],
    pub token_type: u8,
    pub sell_amount_token: u64,
    pub price: u32,
    pub dust_amount: u64,
    pub address: Address,
    pub fee_address: Option<Address>,
    pub fee_divisor: Option<u64>,
    pub spend_params: Option<AdvancedTradeOfferSpendParams>,
}

/// A key hash output whose script drops a number of items that the
/// spender puts on the stack before the signature.
#[derive(Debug)]
pub struct P2PKHDropNOutput {
    pub value: u64,
    pub address: Address,
    pub drop_number: usize,
    pub push_data: Option<Vec<Vec<u8>>>,
}

/// The first four fields of a pre-image.
pub open spec fn prefix_fields() -> PreImageWriteFlags {
    PreImageWriteFlags {
        version: true,
        hash_prevouts: true,
        hash_sequence: true,
        outpoint: true,
        script_code: false,
        value: false,
        sequence: false,
        hash_outputs: false,
        lock_time: false,
        sighash_type: false,
    }
}

/// The value and the sequence number of a pre-image.
pub open spec fn middle_fields() -> PreImageWriteFlags {
    PreImageWriteFlags {
        version: false,
        hash_prevouts: false,
        hash_sequence: false,
        outpoint: false,
        script_code: false,
        value: true,
        sequence: true,
        hash_outputs: false,
        lock_time: false,
        sighash_type: false,
    }
}

/// The lock time and the kind of signature of a pre-image.
pub open spec fn suffix_fields() -> PreImageWriteFlags {
    PreImageWriteFlags {
        version: false,
        hash_prevouts: false,
        hash_sequence: false,
        outpoint: false,
        script_code: false,
        value: false,
        sequence: false,
        hash_outputs: false,
        lock_time: true,
        sighash_type: true,
    }
}

/// The chosen fields of `pre_image` as bytes.
pub(crate) fn pre_image_part(pre_image: &PreImage, flags: PreImageWriteFlags) -> (part: Vec<u8>)
    requires
        !flags.script_code,
    ensures
        part@ == pre_image@.wire_flags(flags),
{
    let mut part = Vec::new();
    pre_image.write_to_stream_flags(&mut part, flags);
    assert(part@ =~= pre_image@.wire_flags(flags));
    part
}

/// The first four fields of `pre_image`.
pub(crate) fn pre_image_prefix(pre_image: &PreImage) -> (part: Vec<u8>)
    ensures
        part@ == pre_image@.wire_flags(prefix_fields()),
{
    pre_image_part(
        pre_image,
        PreImageWriteFlags {
            version: true,
            hash_prevouts: true,
            hash_sequence: true,
            outpoint: true,
            script_code: false,
            value: false,
            sequence: false,
            hash_outputs: false,
            lock_time: false,
            sighash_type: false,
        },
    )
}

/// The lock time and the kind of signature of `pre_image`.
pub(crate) fn pre_image_suffix(pre_image: &PreImage) -> (part: Vec<u8>)
    ensures
        part@ == pre_image@.wire_flags(suffix_fields()),
{
    pre_image_part(
        pre_image,
        PreImageWriteFlags {
            version: false,
            hash_prevouts: false,
            hash_sequence: false,
            outpoint: false,
            script_code: false,
            value: false,
            sequence: false,
            hash_outputs: false,
            lock_time: true,
            sighash_type: true,
        },
    )
}

/// The wire forms of `outputs[from..to]`.
pub(crate) fn outputs_part(outputs: &[TxOutput], from: usize, to: usize) -> (part: Vec<u8>)
    requires
        from <= to <= outputs.len(),
        forall|i: int| from <= i < to ==> outputs[i]@.script.writable(),
    ensures
        part@ == outputs_wire(view_outputs(outputs@).subrange(from as int, to as int)),
{
    let mut part = Vec::new();
    write_outputs(outputs, from, to, &mut part);
    assert(part@ =~= outputs_wire(view_outputs(outputs@).subrange(from as int, to as int)));
    part
}

/// The script that locks to a key hash, behind its length.
fn fee_lock(fee_address: &Address) -> (bytes: Vec<u8>)
    ensures
        bytes@ == spec_var_str(ScriptView::new(p2pkh_ops(fee_address@.bytes)).wire()),
        bytes@.len() <= 0xffff_ffff,
{
    let script = p2pkh_wire(fee_address);
    let mut bytes = Vec::new();
    write_var_str(&mut bytes, script.as_slice());
    proof {
        assert(bytes@ =~= spec_var_str(script@));
    }
    bytes
}

/// The wire form of the script that locks to a key hash: 25 bytes.
fn p2pkh_wire(address: &Address) -> (bytes: Vec<u8>)
    ensures
        bytes@ == ScriptView::new(p2pkh_ops(address@.bytes)).wire(),
        bytes@.len() == 25,
{
    let output = P2PKHOutput { value: 0, address: address.clone() };
    let script = output.script();
    proof {
        address.lemma_hash_len();
        lemma_p2pkh_wire(address@.bytes);
    }
    script.to_vec()
}

/// The script that locks to a hash of 20 bytes has a wire form of 25 bytes.
pub proof fn lemma_p2pkh_wire(hash: Seq<u8>)
    requires
        hash.len() == 20,
    ensures
        ops_encodable(p2pkh_ops(hash)),
        ScriptView::new(p2pkh_ops(hash)).wire().len() == 25,
{
    let ops = p2pkh_ops(hash);
    reveal_with_fuel(crate::script::ops_wire, 6);
    assert(ops.len() == 5);
    assert(ops[2] == push(hash));
    assert(ops.drop_last().drop_last().drop_last().drop_last().drop_last() =~= Seq::<
        OpView,
    >::empty());
}

impl AdvancedTradeOffer {
    /// Whether the offer can be written as a script: the fee address and the
    /// fee divisor are both there or both not, and the identifier can be
    /// pushed.
    pub open spec fn wf(&self) -> bool {
        &&& self.lokad_id@.len() <= 0xffff_ffff
        &&& self.fee_address is Some <==> self.fee_divisor is Some
    }

    /// The low 32 bits of the amount on sale, in four bytes, least significant
    /// first.
    pub open spec fn spec_sell_amount_bytes(&self) -> Seq<u8> {
        le_bytes((self.sell_amount_token as u32) as nat, 4)
    }

    /// The price as a script number.
    pub open spec fn spec_price_num(&self) -> Seq<u8> {
        script_num((self.price as i32) as int)
    }

    /// The dust amount as a script number.
    pub open spec fn spec_dust_num(&self) -> Seq<u8> {
        script_num((self.dust_amount as i32) as int)
    }

    /// The power, and a one behind it where the price is inverted.
    pub open spec fn spec_power_vec(&self) -> Seq<u8> {
        if self.is_inverted {
            seq![self.power].push(1u8)
        } else {
            seq![self.power]
        }
    }

    /// The length, as a compact size, of the token message with `n`
    /// quantities.
    pub open spec fn spec_token_message_len(&self, n: nat) -> Seq<u8> {
        spec_var_int(
            slp_send_script(self.token_type, self.token_id@, Seq::new(n, |i: int| 0u64)).wire().len() as u64,
        )
    }

    /// The token message up to its quantities, and the start of the push of
    /// the first: a length of eight and four zero bytes.
    pub open spec fn spec_token_message_start(&self) -> Seq<u8> {
        slp_send_script(self.token_type, self.token_id@, Seq::empty()).wire() + seq![
            0x08u8,
            0u8,
            0u8,
            0u8,
            0u8,
        ]
    }

    /// The start of the script that locks to the seller: its length and the
    /// opcodes before the hash.
    pub open spec fn spec_seller_lock_start(&self) -> Seq<u8> {
        spec_var_int(ScriptView::new(p2pkh_ops(self.address@.bytes)).wire().len() as u64) + seq![
            OpCodeType::OpDup.spec_to_u8(),
            OpCodeType::OpHash160.spec_to_u8(),
            20u8,
        ]
    }

    fn sell_amount_bytes(&self) -> (bytes: Vec<u8>)
        ensures
            bytes@ == self.spec_sell_amount_bytes(),
            bytes@.len() == 4,
    {
        u32_le(low_u32(self.sell_amount_token))
    }

    fn address_bytes(&self) -> (bytes: Vec<u8>)
        ensures
            bytes@ == self.address@.bytes,
            bytes@.len() == 20,
    {
        vstd::slice::slice_to_vec(self.address.bytes().as_slice())
    }

    fn price_num(&self) -> (bytes: Vec<u8>)
        ensures
            bytes@ == self.spec_price_num(),
            bytes@.len() <= 5,
    {
        encode_int(
            #[verifier::truncate]
            (self.price as i32),
        )
    }

    fn dust_num(&self) -> (bytes: Vec<u8>)
        ensures
            bytes@ == self.spec_dust_num(),
            bytes@.len() <= 5,
    {
        encode_int(low_i32(self.dust_amount))
    }

    fn _make_power_vec(&self) -> (vec: Vec<u8>)
        ensures
            vec@ == self.spec_power_vec(),
            vec@.len() <= 2,
    {
        let mut vec = bytes1(self.power);
        if self.is_inverted {
            vec.push(1)
        }
        vec
    }

    /// The wire form of the token message with `n` quantities of zero.
    fn token_message_wire(&self, n: usize) -> (bytes: Vec<u8>)
        ensures
            bytes@ == slp_send_script(
                self.token_type,
                self.token_id@,
                Seq::new(n as nat, |i: int| 0u64),
            ).wire(),
    {
        let mut output_quantities: Vec<u64> = Vec::new();
        let mut k: usize = 0;
        while k < n
            invariant
                k <= n,
                output_quantities@ =~= Seq::new(k as nat, |i: int| 0u64),
            decreases n - k,
        {
            output_quantities.push(0);
            k += 1;
        }
        let output = SLPSend {
            token_id: self.token_id,
            token_type: self.token_type,
            output_quantities,
        }.into_output();
        let script = output.script();
        proof {
            crate::outputs::lemma_slp_send_encodable(
                self.token_type,
                self.token_id@,
                Seq::new(n as nat, |i: int| 0u64),
            );
        }
        script.to_vec()
    }

    fn token_message_len(&self, n: usize) -> (bytes: Vec<u8>)
        ensures
            bytes@ == self.spec_token_message_len(n as nat),
            bytes@.len() <= 9,
    {
        var_int_to_vec(self.token_message_wire(n).len() as u64)
    }

    fn token_message_start(&self) -> (bytes: Vec<u8>)
        ensures
            bytes@ == self.spec_token_message_start(),
            bytes@.len() == 51,
    {
        let mut output_pre1 = self.token_message_wire(0);
        assert(Seq::new(0nat, |i: int| 0u64) =~= Seq::<u64>::empty());
        proof {
            crate::outputs::lemma_slp_send_start_len(self.token_type, self.token_id@);
        }
        output_pre1.push(0x08);
        output_pre1.push(0);
        output_pre1.push(0);
        output_pre1.push(0);
        output_pre1.push(0);
        assert(output_pre1@ =~= self.spec_token_message_start());
        output_pre1
    }

    fn seller_lock_start(&self) -> (bytes: Vec<u8>)
        ensures
            bytes@ == self.spec_seller_lock_start(),
            bytes@.len() <= 12,
    {
        let p2pkh_serialized = p2pkh_wire(&self.address);
        let mut vec = var_int_to_vec(p2pkh_serialized.len() as u64);
        vec.push(OpCodeType::OpDup.to_u8());
        vec.push(OpCodeType::OpHash160.to_u8());
        vec.push(20);
        assert(vec@ =~= self.spec_seller_lock_start());
        vec
    }

    /// Turns the number on top of the stack into four bytes, most significant first.
    pub open spec fn spec_reverse_bytes4(&self) -> Seq<OpView> {
        Seq::<OpView>::empty()
            .push(push(seq![0x04u8]))
            .push(code(OpCodeType::OpNum2Bin))
            .push(push(seq![1u8]))
            .push(code(OpCodeType::OpSplit))
            .push(push(seq![1u8]))
            .push(code(OpCodeType::OpSplit))
            .push(push(seq![1u8]))
            .push(code(OpCodeType::OpSplit))
            .push(code(OpCodeType::OpSwap))
            .push(code(OpCodeType::OpCat))
            .push(code(OpCodeType::OpSwap))
            .push(code(OpCodeType::OpCat))
            .push(code(OpCodeType::OpSwap))
            .push(code(OpCodeType::OpCat))
    }

    fn reverse_bytes4(&self) -> (ops: Vec<Op>)
        requires
            self.wf(),
        ensures
            view_ops(ops@) == self.spec_reverse_bytes4(),
            ops_encodable(view_ops(ops@)),
    {
        let mut ops = new_ops();
        push_data(&mut ops, bytes1(0x04));
        push_code(&mut ops, OpCodeType::OpNum2Bin);
        push_data(&mut ops, bytes1(1));
        push_code(&mut ops, OpCodeType::OpSplit);
        push_data(&mut ops, bytes1(1));
        push_code(&mut ops, OpCodeType::OpSplit);
        push_data(&mut ops, bytes1(1));
        push_code(&mut ops, OpCodeType::OpSplit);
        push_code(&mut ops, OpCodeType::OpSwap);
        push_code(&mut ops, OpCodeType::OpCat);
        push_code(&mut ops, OpCodeType::OpSwap);
        push_code(&mut ops, OpCodeType::OpCat);
        push_code(&mut ops, OpCodeType::OpSwap);
        push_code(&mut ops, OpCodeType::OpCat);
        ops
    }

    /// The start: the amount of tokens on sale, in four bytes behind which the
    /// signed part of the script starts, then the seller's hash and the choice
    /// between trade and cancel.
    pub open spec fn spec_head(&self) -> Seq<OpView> {
        Seq::<OpView>::empty()
            .push(push(self.spec_sell_amount_bytes()))
            .push(code(OpCodeType::OpCodeSeparator))
            .push(push(self.address@.bytes))
            .push(code(OpCodeType::OpRot))
            .push(code(OpCodeType::OpIf))
            .push(code(OpCodeType::OpToAltStack))
            .push(code(OpCodeType::OpBin2Num))
    }

    fn head(&self) -> (ops: Vec<Op>)
        requires
            self.wf(),
        ensures
            view_ops(ops@) == self.spec_head(),
            ops_encodable(view_ops(ops@)),
    {
        let mut ops = new_ops();
        push_data(&mut ops, self.sell_amount_bytes());
        push_code(&mut ops, OpCodeType::OpCodeSeparator);
        push_data(&mut ops, self.address_bytes());
        push_code(&mut ops, OpCodeType::OpRot);
        push_code(&mut ops, OpCodeType::OpIf);
        push_code(&mut ops, OpCodeType::OpToAltStack);
        push_code(&mut ops, OpCodeType::OpBin2Num);
        ops
    }

    /// Checks the amount bought where the price is in coins for a token: it is
    /// positive, and divided by the price it is no more than what is on sale.
    pub open spec fn spec_amount_direct(&self) -> Seq<OpView> {
        Seq::<OpView>::empty()
            .push(code(OpCodeType::OpOver))
            .push(code(OpCodeType::OpDup))
            .push(push(script_num(0)))
            .push(code(OpCodeType::OpGreaterThan))
            .push(code(OpCodeType::OpVerify))
            .push(push(self.spec_price_num()))
            .push(code(OpCodeType::OpDiv))
            .push(code(OpCodeType::OpTuck))
            .push(code(OpCodeType::Op2Dup))
            .push(code(OpCodeType::OpGreaterThanOrEqual))
            .push(code(OpCodeType::OpVerify))
    }

    fn amount_direct(&self) -> (ops: Vec<Op>)
        requires
            self.wf(),
        ensures
            view_ops(ops@) == self.spec_amount_direct(),
            ops_encodable(view_ops(ops@)),
    {
        let mut ops = new_ops();
        push_code(&mut ops, OpCodeType::OpOver);
        push_code(&mut ops, OpCodeType::OpDup);
        push_data(&mut ops, encode_int(0));
        push_code(&mut ops, OpCodeType::OpGreaterThan);
        push_code(&mut ops, OpCodeType::OpVerify);
        push_data(&mut ops, self.price_num());
        push_code(&mut ops, OpCodeType::OpDiv);
        push_code(&mut ops, OpCodeType::OpTuck);
        push_code(&mut ops, OpCodeType::Op2Dup);
        push_code(&mut ops, OpCodeType::OpGreaterThanOrEqual);
        push_code(&mut ops, OpCodeType::OpVerify);
        ops
    }

    /// Checks the amount bought where the price is in tokens for a coin: it is
    /// positive and no more than what is on sale.
    pub open spec fn spec_amount_inverted(&self) -> Seq<OpView> {
        Seq::<OpView>::empty()
            .push(code(OpCodeType::Op2Dup))
            .push(code(OpCodeType::OpLessThanOrEqual))
            .push(code(OpCodeType::OpVerify))
            .push(code(OpCodeType::OpOver))
            .push(code(OpCodeType::OpDup))
            .push(push(script_num(0)))
            .push(code(OpCodeType::OpGreaterThan))
            .push(code(OpCodeType::OpVerify))
            .push(code(OpCodeType::OpTuck))
    }

    fn amount_inverted(&self) -> (ops: Vec<Op>)
        requires
            self.wf(),
        ensures
            view_ops(ops@) == self.spec_amount_inverted(),
            ops_encodable(view_ops(ops@)),
    {
        let mut ops = new_ops();
        push_code(&mut ops, OpCodeType::Op2Dup);
        push_code(&mut ops, OpCodeType::OpLessThanOrEqual);
        push_code(&mut ops, OpCodeType::OpVerify);
        push_code(&mut ops, OpCodeType::OpOver);
        push_code(&mut ops, OpCodeType::OpDup);
        push_data(&mut ops, encode_int(0));
        push_code(&mut ops, OpCodeType::OpGreaterThan);
        push_code(&mut ops, OpCodeType::OpVerify);
        push_code(&mut ops, OpCodeType::OpTuck);
        ops
    }

    /// Takes the amount bought from what is on sale and asks whether anything is left.
    pub open spec fn spec_remainder(&self) -> Seq<OpView> {
        Seq::<OpView>::empty()
            .push(code(OpCodeType::OpSub))
            .push(code(OpCodeType::OpTuck))
            .push(code(OpCodeType::OpDup))
            .push(code(OpCodeType::Op0NotEqual))
            .push(code(OpCodeType::OpIf))
    }

    fn remainder(&self) -> (ops: Vec<Op>)
        requires
            self.wf(),
        ensures
            view_ops(ops@) == self.spec_remainder(),
            ops_encodable(view_ops(ops@)),
    {
        let mut ops = new_ops();
        push_code(&mut ops, OpCodeType::OpSub);
        push_code(&mut ops, OpCodeType::OpTuck);
        push_code(&mut ops, OpCodeType::OpDup);
        push_code(&mut ops, OpCodeType::Op0NotEqual);
        push_code(&mut ops, OpCodeType::OpIf);
        ops
    }

    /// Builds the token message of the spending transaction: three quantities
    /// where tokens are left, two where none are.
    pub open spec fn spec_token_message(&self) -> Seq<OpView> {
        Seq::<OpView>::empty()
            .push(push(seq![0x08u8]))
            .push(push(seq![0x09u8]))
            .push(code(OpCodeType::OpNum2Bin))
            .push(code(OpCodeType::OpCat))
            .push(code(OpCodeType::OpElse))
            .push(push(seq![0x04u8]))
            .push(code(OpCodeType::OpNum2Bin))
            .push(code(OpCodeType::OpEndIf))
            .push(push(seq![0x08u8]))
            .push(push(seq![0x05u8]))
            .push(code(OpCodeType::OpNum2Bin))
            .push(code(OpCodeType::OpCat))
            .push(push(seq![0x02u8]))
            .push(code(OpCodeType::OpPick))
            .push(code(OpCodeType::Op0NotEqual))
            .push(push(Seq::<u8>::empty()))
            .push(push(seq![0x08u8]))
            .push(code(OpCodeType::OpNum2Bin))
            .push(code(OpCodeType::OpSwap))
            .push(code(OpCodeType::OpIf))
            .push(push(self.spec_token_message_len(3)))
            .push(code(OpCodeType::OpElse))
            .push(push(self.spec_token_message_len(2)))
            .push(code(OpCodeType::OpEndIf))
            .push(code(OpCodeType::OpCat))
            .push(push(self.spec_token_message_start()))
            .push(code(OpCodeType::OpCat))
            .push(code(OpCodeType::OpSwap))
            .push(code(OpCodeType::OpCat))
            .push(code(OpCodeType::OpSwap))
    }

    fn token_message(&self) -> (ops: Vec<Op>)
        requires
            self.wf(),
        ensures
            view_ops(ops@) == self.spec_token_message(),
            ops_encodable(view_ops(ops@)),
    {
        let mut ops = new_ops();
        push_data(&mut ops, bytes1(0x08));
        push_data(&mut ops, bytes1(0x09));
        push_code(&mut ops, OpCodeType::OpNum2Bin);
        push_code(&mut ops, OpCodeType::OpCat);
        push_code(&mut ops, OpCodeType::OpElse);
        push_data(&mut ops, bytes1(0x04));
        push_code(&mut ops, OpCodeType::OpNum2Bin);
        push_code(&mut ops, OpCodeType::OpEndIf);
        push_data(&mut ops, bytes1(0x08));
        push_data(&mut ops, bytes1(0x05));
        push_code(&mut ops, OpCodeType::OpNum2Bin);
        push_code(&mut ops, OpCodeType::OpCat);
        push_data(&mut ops, bytes1(0x02));
        push_code(&mut ops, OpCodeType::OpPick);
        push_code(&mut ops, OpCodeType::Op0NotEqual);
        push_data(&mut ops, Vec::new());
        push_data(&mut ops, bytes1(0x08));
        push_code(&mut ops, OpCodeType::OpNum2Bin);
        push_code(&mut ops, OpCodeType::OpSwap);
        push_code(&mut ops, OpCodeType::OpIf);
        push_data(&mut ops, self.token_message_len(3));
        push_code(&mut ops, OpCodeType::OpElse);
        push_data(&mut ops, self.token_message_len(2));
        push_code(&mut ops, OpCodeType::OpEndIf);
        push_code(&mut ops, OpCodeType::OpCat);
        push_data(&mut ops, self.token_message_start());
        push_code(&mut ops, OpCodeType::OpCat);
        push_code(&mut ops, OpCodeType::OpSwap);
        push_code(&mut ops, OpCodeType::OpCat);
        push_code(&mut ops, OpCodeType::OpSwap);
        ops
    }

    /// Builds the output that keeps what is left on sale: the dust amount, locked
    /// to the hash of this script with the new amount in its first four bytes.
    pub open spec fn spec_successor(&self) -> Seq<OpView> {
        Seq::<OpView>::empty()
            .push(code(OpCodeType::OpCat))
            .push(code(OpCodeType::OpOver))
            .push(code(OpCodeType::Op0NotEqual))
            .push(code(OpCodeType::OpIf))
            .push(push(self.spec_dust_num()))
            .push(push(seq![0x08u8]))
            .push(code(OpCodeType::OpNum2Bin))
            .push(push(seq![23u8, OpCodeType::OpHash160.spec_to_u8(), 20u8]))
            .push(code(OpCodeType::OpCat))
            .push(code(OpCodeType::OpCat))
            .push(code(OpCodeType::OpSwap))
            .push(push(seq![0x04u8]))
            .push(code(OpCodeType::OpNum2Bin))
            .push(push(seq![0x04u8]))
            .push(code(OpCodeType::OpSwap))
            .push(code(OpCodeType::OpCat))
            .push(push(seq![OpCodeType::OpCodeSeparator.spec_to_u8()]))
            .push(code(OpCodeType::OpCat))
            .push(push(seq![0x06u8]))
            .push(code(OpCodeType::OpPick))
            .push(code(OpCodeType::OpCat))
            .push(code(OpCodeType::OpHash160))
            .push(push(seq![OpCodeType::OpEqual.spec_to_u8()]))
            .push(code(OpCodeType::OpCat))
            .push(code(OpCodeType::OpCat))
            .push(code(OpCodeType::OpElse))
            .push(code(OpCodeType::OpNip))
            .push(code(OpCodeType::OpEndIf))
            .push(code(OpCodeType::OpSwap))
    }

    fn successor(&self) -> (ops: Vec<Op>)
        requires
            self.wf(),
        ensures
            view_ops(ops@) == self.spec_successor(),
            ops_encodable(view_ops(ops@)),
    {
        let mut ops = new_ops();
        push_code(&mut ops, OpCodeType::OpCat);
        push_code(&mut ops, OpCodeType::OpOver);
        push_code(&mut ops, OpCodeType::Op0NotEqual);
        push_code(&mut ops, OpCodeType::OpIf);
        push_data(&mut ops, self.dust_num());
        push_data(&mut ops, bytes1(0x08));
        push_code(&mut ops, OpCodeType::OpNum2Bin);
        push_data(&mut ops, bytes3(23, OpCodeType::OpHash160.to_u8(), 20));
        push_code(&mut ops, OpCodeType::OpCat);
        push_code(&mut ops, OpCodeType::OpCat);
        push_code(&mut ops, OpCodeType::OpSwap);
        push_data(&mut ops, bytes1(0x04));
        push_code(&mut ops, OpCodeType::OpNum2Bin);
        push_data(&mut ops, bytes1(0x04));
        push_code(&mut ops, OpCodeType::OpSwap);
        push_code(&mut ops, OpCodeType::OpCat);
        push_data(&mut ops, bytes1(OpCodeType::OpCodeSeparator.to_u8()));
        push_code(&mut ops, OpCodeType::OpCat);
        push_data(&mut ops, bytes1(0x06));
        push_code(&mut ops, OpCodeType::OpPick);
        push_code(&mut ops, OpCodeType::OpCat);
        push_code(&mut ops, OpCodeType::OpHash160);
        push_data(&mut ops, bytes1(OpCodeType::OpEqual.to_u8()));
        push_code(&mut ops, OpCodeType::OpCat);
        push_code(&mut ops, OpCodeType::OpCat);
        push_code(&mut ops, OpCodeType::OpElse);
        push_code(&mut ops, OpCodeType::OpNip);
        push_code(&mut ops, OpCodeType::OpEndIf);
        push_code(&mut ops, OpCodeType::OpSwap);
        ops
    }

    /// Where the price is in tokens for a coin: the amount bought is a multiple
    /// of the price, and is divided by it.
    pub open spec fn spec_inverted_price(&self) -> Seq<OpView> {
        Seq::<OpView>::empty()
            .push(push(self.spec_price_num()))
            .push(code(OpCodeType::Op2Dup))
            .push(code(OpCodeType::OpMod))
            .push(push(script_num(0)))
            .push(code(OpCodeType::OpNumEqualVerify))
            .push(code(OpCodeType::OpDiv))
    }

    fn inverted_price(&self) -> (ops: Vec<Op>)
        requires
            self.wf(),
        ensures
            view_ops(ops@) == self.spec_inverted_price(),
            ops_encodable(view_ops(ops@)),
    {
        let mut ops = new_ops();
        push_data(&mut ops, self.price_num());
        push_code(&mut ops, OpCodeType::Op2Dup);
        push_code(&mut ops, OpCodeType::OpMod);
        push_data(&mut ops, encode_int(0));
        push_code(&mut ops, OpCodeType::OpNumEqualVerify);
        push_code(&mut ops, OpCodeType::OpDiv);
        ops
    }

    /// Builds the output that pays the seller: the amount, locked to the
    /// seller's hash.
    pub open spec fn spec_buyer(&self) -> Seq<OpView> {
        Seq::<OpView>::empty()
            .push(push(seq![0x08u8]))
            .push(code(OpCodeType::OpNum2Bin))
            .push(code(OpCodeType::OpCat))
            .push(push(self.spec_seller_lock_start()))
            .push(code(OpCodeType::OpFromAltStack))
            .push(code(OpCodeType::OpDup))
            .push(code(OpCodeType::OpToAltStack))
            .push(code(OpCodeType::OpCat))
            .push(push(seq![OpCodeType::OpEqualVerify.spec_to_u8(), OpCodeType::OpCheckSig.spec_to_u8()]))
            .push(code(OpCodeType::OpCat))
            .push(code(OpCodeType::OpCat))
    }

    fn buyer(&self) -> (ops: Vec<Op>)
        requires
            self.wf(),
        ensures
            view_ops(ops@) == self.spec_buyer(),
            ops_encodable(view_ops(ops@)),
    {
        let mut ops = new_ops();
        push_data(&mut ops, bytes1(0x08));
        push_code(&mut ops, OpCodeType::OpNum2Bin);
        push_code(&mut ops, OpCodeType::OpCat);
        push_data(&mut ops, self.seller_lock_start());
        push_code(&mut ops, OpCodeType::OpFromAltStack);
        push_code(&mut ops, OpCodeType::OpDup);
        push_code(&mut ops, OpCodeType::OpToAltStack);
        push_code(&mut ops, OpCodeType::OpCat);
        push_data(&mut ops, bytes2(OpCodeType::OpEqualVerify.to_u8(), OpCodeType::OpCheckSig.to_u8()));
        push_code(&mut ops, OpCodeType::OpCat);
        push_code(&mut ops, OpCodeType::OpCat);
        ops
    }

    /// Without a fee the outputs are joined as they are.
    pub open spec fn spec_no_fee(&self) -> Seq<OpView> {
        Seq::<OpView>::empty()
            .push(code(OpCodeType::OpSwap))
            .push(code(OpCodeType::OpCat))
    }

    fn no_fee(&self) -> (ops: Vec<Op>)
        requires
            self.wf(),
        ensures
            view_ops(ops@) == self.spec_no_fee(),
            ops_encodable(view_ops(ops@)),
    {
        let mut ops = new_ops();
        push_code(&mut ops, OpCodeType::OpSwap);
        push_code(&mut ops, OpCodeType::OpCat);
        ops
    }

    /// Hashes the outputs, joins the parts of the pre-image, checks the signature
    /// against it and the parameters of the offer; or else, to cancel, checks the
    /// seller's signature.
    pub open spec fn spec_tail(&self) -> Seq<OpView> {
        Seq::<OpView>::empty()
            .push(code(OpCodeType::OpHash256))
            .push(code(OpCodeType::OpSwap))
            .push(code(OpCodeType::OpCat))
            .push(code(OpCodeType::OpCat))
            .push(code(OpCodeType::OpCat))
            .push(code(OpCodeType::OpCat))
            .push(code(OpCodeType::OpSha256))
            .push(code(OpCodeType::OpOver))
            .push(push(seq![0x41u8]))
            .push(code(OpCodeType::OpCat))
            .push(push(seq![0x03u8]))
            .push(code(OpCodeType::OpPick))
            .push(code(OpCodeType::OpCheckSigVerify))
            .push(code(OpCodeType::OpRot))
            .push(code(OpCodeType::OpCheckDataSigVerify))
            .push(code(OpCodeType::OpFromAltStack))
            .push(code(OpCodeType::OpEqualVerify))
            .push(push(be_bytes(self.price as nat, 4)))
            .push(code(OpCodeType::OpEqualVerify))
            .push(push(self.spec_power_vec()))
            .push(code(OpCodeType::OpEqualVerify))
            .push(push(seq![self.version]))
            .push(code(OpCodeType::OpEqualVerify))
            .push(push(self.lokad_id@))
            .push(code(OpCodeType::OpEqual))
            .push(code(OpCodeType::OpElse))
            .push(code(OpCodeType::OpNip))
            .push(code(OpCodeType::OpOver))
            .push(code(OpCodeType::OpHash160))
            .push(code(OpCodeType::OpEqualVerify))
            .push(code(OpCodeType::OpCheckSig))
            .push(code(OpCodeType::OpEndIf))
    }

    fn tail(&self) -> (ops: Vec<Op>)
        requires
            self.wf(),
        ensures
            view_ops(ops@) == self.spec_tail(),
            ops_encodable(view_ops(ops@)),
    {
        let mut ops = new_ops();
        push_code(&mut ops, OpCodeType::OpHash256);
        push_code(&mut ops, OpCodeType::OpSwap);
        push_code(&mut ops, OpCodeType::OpCat);
        push_code(&mut ops, OpCodeType::OpCat);
        push_code(&mut ops, OpCodeType::OpCat);
        push_code(&mut ops, OpCodeType::OpCat);
        push_code(&mut ops, OpCodeType::OpSha256);
        push_code(&mut ops, OpCodeType::OpOver);
        push_data(&mut ops, bytes1(0x41));
        push_code(&mut ops, OpCodeType::OpCat);
        push_data(&mut ops, bytes1(0x03));
        push_code(&mut ops, OpCodeType::OpPick);
        push_code(&mut ops, OpCodeType::OpCheckSigVerify);
        push_code(&mut ops, OpCodeType::OpRot);
        push_code(&mut ops, OpCodeType::OpCheckDataSigVerify);
        push_code(&mut ops, OpCodeType::OpFromAltStack);
        push_code(&mut ops, OpCodeType::OpEqualVerify);
        push_data(&mut ops, u32_be(self.price));
        push_code(&mut ops, OpCodeType::OpEqualVerify);
        push_data(&mut ops, self._make_power_vec());
        push_code(&mut ops, OpCodeType::OpEqualVerify);
        push_data(&mut ops, bytes1(self.version));
        push_code(&mut ops, OpCodeType::OpEqualVerify);
        push_data(&mut ops, self.lokad_id.clone());
        push_code(&mut ops, OpCodeType::OpEqual);
        push_code(&mut ops, OpCodeType::OpElse);
        push_code(&mut ops, OpCodeType::OpNip);
        push_code(&mut ops, OpCodeType::OpOver);
        push_code(&mut ops, OpCodeType::OpHash160);
        push_code(&mut ops, OpCodeType::OpEqualVerify);
        push_code(&mut ops, OpCodeType::OpCheckSig);
        push_code(&mut ops, OpCodeType::OpEndIf);
        ops
    }

    /// Builds the output that pays the fee: the amount bought divided by the
    /// divisor, at least the dust amount, locked to the hash of the fee address.
    pub open spec fn spec_fee(&self, fee_address: &Address, fee_divisor: u64) -> Seq<OpView> {
        Seq::<OpView>::empty()
            .push(code(OpCodeType::OpRot))
            .push(code(OpCodeType::OpCat))
            .push(code(OpCodeType::OpSwap))
            .push(push(script_num((fee_divisor as i32) as int)))
            .push(code(OpCodeType::OpDiv))
            .push(push(self.spec_dust_num()))
            .push(code(OpCodeType::OpMax))
            .push(push(seq![0x08u8]))
            .push(code(OpCodeType::OpNum2Bin))
            .push(push(spec_var_str(ScriptView::new(p2pkh_ops(fee_address@.bytes)).wire())))
            .push(code(OpCodeType::OpCat))
            .push(code(OpCodeType::OpCat))
    }

    fn fee(&self, fee_address: &Address, fee_divisor: u64) -> (ops: Vec<Op>)
        requires
            self.wf(),
        ensures
            view_ops(ops@) == self.spec_fee(fee_address, fee_divisor),
            ops_encodable(view_ops(ops@)),
    {
        let mut ops = new_ops();
        push_code(&mut ops, OpCodeType::OpRot);
        push_code(&mut ops, OpCodeType::OpCat);
        push_code(&mut ops, OpCodeType::OpSwap);
        push_data(&mut ops, encode_int(low_i32(fee_divisor)));
        push_code(&mut ops, OpCodeType::OpDiv);
        push_data(&mut ops, self.dust_num());
        push_code(&mut ops, OpCodeType::OpMax);
        push_data(&mut ops, bytes1(0x08));
        push_code(&mut ops, OpCodeType::OpNum2Bin);
        push_data(&mut ops, fee_lock(fee_address));
        push_code(&mut ops, OpCodeType::OpCat);
        push_code(&mut ops, OpCodeType::OpCat);
        ops
    }

    /// The checks on the amount bought, by the direction of the price.
    pub open spec fn spec_amount(&self) -> Seq<OpView> {
        if !self.is_inverted {
            self.spec_amount_direct()
        } else {
            self.spec_amount_inverted()
        }
    }

    /// The division by the price, where the price is inverted.
    pub open spec fn spec_price_division(&self) -> Seq<OpView> {
        if self.is_inverted {
            self.spec_inverted_price()
        } else {
            Seq::empty()
        }
    }

    /// Keeps the amount bought for the fee, where there is one.
    pub open spec fn spec_fee_keep(&self) -> Seq<OpView> {
        if self.fee_address is Some {
            Seq::<OpView>::empty().push(code(OpCodeType::OpTuck))
        } else {
            Seq::empty()
        }
    }

    /// The output of the fee, where there is one.
    pub open spec fn spec_fee_output(&self) -> Seq<OpView> {
        match (self.fee_address, self.fee_divisor) {
            (Some(fee_address), Some(fee_divisor)) => self.spec_fee(&fee_address, fee_divisor),
            _ => self.spec_no_fee(),
        }
    }

    /// The elements of the locking script.
    pub open spec fn spec_ops(&self) -> Seq<OpView> {
        self.spec_head() + self.spec_amount() + self.spec_remainder() + self.spec_reverse_bytes4()
            + self.spec_token_message() + self.spec_reverse_bytes4() + self.spec_successor()
            + self.spec_price_division() + self.spec_fee_keep() + self.spec_buyer()
            + self.spec_fee_output() + self.spec_tail()
    }

    /// The locking script.
    pub open spec fn spec_script(&self) -> ScriptView {
        ScriptView::new(self.spec_ops())
    }

    /// The elements of the locking script.
    fn _ops(&self) -> (ops: Vec<Op>)
        requires
            self.wf(),
        ensures
            view_ops(ops@) == self.spec_ops(),
            ops_encodable(view_ops(ops@)),
    {
        let mut ops = self.head();
        append_ops(
            &mut ops,
            if !self.is_inverted {
                self.amount_direct()
            } else {
                self.amount_inverted()
            },
        );
        append_ops(&mut ops, self.remainder());
        append_ops(&mut ops, self.reverse_bytes4());
        append_ops(&mut ops, self.token_message());
        append_ops(&mut ops, self.reverse_bytes4());
        append_ops(&mut ops, self.successor());
        append_ops(
            &mut ops,
            if self.is_inverted {
                self.inverted_price()
            } else {
                new_ops()
            },
        );
        let mut push_fee_ops = match (&self.fee_address, self.fee_divisor) {
            (Some(fee_address), Some(fee_divisor)) => {
                let mut keep = new_ops();
                push_code(&mut keep, OpCodeType::OpTuck);
                append_ops(&mut ops, keep);
                self.fee(fee_address, fee_divisor)
            },
            _ => {
                append_ops(&mut ops, new_ops());
                self.no_fee()
            },
        };
        append_ops(&mut ops, self.buyer());
        append_ops(&mut ops, push_fee_ops);
        append_ops(&mut ops, self.tail());
        ops
    }

    /// The amount that buys all that is on sale.
    pub open spec fn spec_accept_fully_amount(&self) -> int {
        if self.is_inverted {
            self.sell_amount_token as int
        } else {
            self.sell_amount_token * self.price
        }
    }

    /// The amount that the spending transaction buys for.
    pub open spec fn spec_buy_amount(&self) -> int {
        match self.spend_params {
            Some(AdvancedTradeOfferSpendParams::AcceptPartially { buy_amount }) => buy_amount as int,
            _ => self.spec_accept_fully_amount(),
        }
    }

    /// How many outputs at the start the script builds itself: the token
    /// message and the buyer's output, and the successor where tokens are left.
    pub open spec fn spec_outputs_skipped(&self) -> int {
        if self.spec_buy_amount() == self.spec_accept_fully_amount() {
            2
        } else {
            3
        }
    }

    /// How many outputs at the end the script builds itself: the fee output.
    pub open spec fn spec_outputs_cut(&self) -> int {
        if self.fee_address is Some {
            1
        } else {
            0
        }
    }

    /// Whether the unlocking script can be built: the way of spending is set,
    /// and for a trade the signature is not empty, the full amount is a number
    /// of 64 bits, and the outputs hold those that the script builds itself.
    pub open spec fn can_sign(&self, sig: Seq<u8>, outputs: Seq<TxOutputView>) -> bool {
        &&& self.wf()
        &&& self.spend_params is Some
        &&& self.spend_params != Some(AdvancedTradeOfferSpendParams::Cancel) ==> {
            &&& sig.len() >= 1
            &&& self.spec_accept_fully_amount() <= u64::MAX
            &&& self.spec_outputs_skipped() <= outputs.len() - self.spec_outputs_cut()
            &&& forall|i: int|
                self.spec_outputs_skipped() <= i < outputs.len() - self.spec_outputs_cut()
                    ==> (#[trigger] outputs[i]).script.writable()
        }
    }

    /// The elements that unlock by a trade.
    pub open spec fn spec_accept_ops(
        &self,
        sig: Seq<u8>,
        pub_key: Seq<u8>,
        pre_image: PreImageView,
        outputs: Seq<TxOutputView>,
    ) -> Seq<OpView> {
        let script_code = self.spec_script().sig_wire();
        Seq::<OpView>::empty()
            .push(push(self.lokad_id@))
            .push(push(seq![self.version]))
            .push(push(self.spec_power_vec()))
            .push(push(be_bytes(self.price as nat, 4)))
            .push(push(self.address@.bytes))
            .push(push(pub_key))
            .push(push(sig.drop_last()))
            .push(
                push(
                    pre_image.wire_flags(prefix_fields()) + spec_var_int(script_code.len() as u64),
                ),
            )
            .push(push(script_code))
            .push(push(pre_image.wire_flags(middle_fields())))
            .push(push(pre_image.wire_flags(suffix_fields())))
            .push(
                push(
                    outputs_wire(
                        outputs.subrange(
                            self.spec_outputs_skipped(),
                            outputs.len() - self.spec_outputs_cut(),
                        ),
                    ),
                ),
            )
            .push(push(script_num(((self.spec_buy_amount() as u64) as i32) as int)))
            .push(push(script_num(1)))
    }

    /// The unlocking script: for a trade the parameters of the offer, the key
    /// and the signature without its last byte, the pre-image in parts with the
    /// script between them, the outputs that the script does not build itself, the
    /// amount, and a one; to cancel the signature, the key, and a zero.
    pub open spec fn spec_sig_script(
        &self,
        sig: Seq<u8>,
        pub_key: Seq<u8>,
        pre_image: PreImageView,
        outputs: Seq<TxOutputView>,
    ) -> ScriptView {
        if self.spend_params == Some(AdvancedTradeOfferSpendParams::Cancel) {
            ScriptView::new(
                Seq::<OpView>::empty().push(push(sig)).push(push(pub_key)).push(
                    push(Seq::<u8>::empty()),
                ),
            )
        } else {
            ScriptView::new(self.spec_accept_ops(sig, pub_key, pre_image, outputs))
        }
    }

    /// The amount.
    pub fn value(&self) -> (value: u64)
        ensures
            value == self.value,
    {
        self.value
    }

    /// The locking script.
    pub fn script(&self) -> (script: Script)
        requires
            self.wf(),
        ensures
            script@ == self.spec_script(),
            script@.encodable(),
    {
        Script::new(self._ops())
    }

    /// The script that a signature covers: the locking script.
    pub fn script_code(&self) -> (script: Script)
        requires
            self.wf(),
        ensures
            script@ == self.spec_script(),
            script@.encodable(),
    {
        Script::new(self._ops())
    }

    /// The unlocking script.
    pub fn sig_script(
        &self,
        serialized_sig: Vec<u8>,
        serialized_pub_key: Vec<u8>,
        pre_image: &PreImage,
        outputs: &[TxOutput],
    ) -> (script: Script)
        requires
            self.can_sign(serialized_sig@, view_outputs(outputs@)),
        ensures
            script@ == self.spec_sig_script(
                serialized_sig@,
                serialized_pub_key@,
                pre_image@,
                view_outputs(outputs@),
            ),
    {
        match self.spend_params {
            Some(AdvancedTradeOfferSpendParams::AcceptFully) => {
                let buy_amount = self.accept_fully_amount();
                self.accept_sig_script(
                    serialized_sig,
                    serialized_pub_key,
                    pre_image,
                    outputs,
                    buy_amount,
                    true,
                )
            },
            Some(AdvancedTradeOfferSpendParams::AcceptPartially { buy_amount }) => {
                let is_accept_fully = buy_amount == self.accept_fully_amount();
                self.accept_sig_script(
                    serialized_sig,
                    serialized_pub_key,
                    pre_image,
                    outputs,
                    buy_amount,
                    is_accept_fully,
                )
            },
            _ => {
                let mut ops = new_ops();
                push_data(&mut ops, serialized_sig);
                push_data(&mut ops, serialized_pub_key);
                push_data(&mut ops, Vec::new());
                Script::new(ops)
            },
        }
    }

    /// The unlocking script of a trade for `buy_amount`.
    fn accept_sig_script(
        &self,
        serialized_sig: Vec<u8>,
        serialized_pub_key: Vec<u8>,
        pre_image: &PreImage,
        outputs: &[TxOutput],
        buy_amount: u64,
        is_accept_fully: bool,
    ) -> (script: Script)
        requires
            self.can_sign(serialized_sig@, view_outputs(outputs@)),
            self.spend_params != Some(AdvancedTradeOfferSpendParams::Cancel),
            buy_amount == self.spec_buy_amount(),
            is_accept_fully == (self.spec_outputs_skipped() == 2),
        ensures
            script@ == ScriptView::new(
                self.spec_accept_ops(
                    serialized_sig@,
                    serialized_pub_key@,
                    pre_image@,
                    view_outputs(outputs@),
                ),
            ),
    {
        let ghost sig = serialized_sig@;
        let mut serialized_sig = serialized_sig;
        serialized_sig.pop();
        assert(serialized_sig@ =~= sig.drop_last());
        let script_code = self.script_code().to_vec_sig();
        let mut prefix = pre_image_prefix(pre_image);
        write_var_int(&mut prefix, script_code.len() as u64);
        let middle = pre_image_part(
            pre_image,
            PreImageWriteFlags {
                version: false,
                hash_prevouts: false,
                hash_sequence: false,
                outpoint: false,
                script_code: false,
                value: true,
                sequence: true,
                hash_outputs: false,
                lock_time: false,
                sighash_type: false,
            },
        );
        let suffix = pre_image_suffix(pre_image);
        let skipped: usize = if is_accept_fully {
            2
        } else {
            3
        };
        let cut: usize = if self.fee_address.is_some() {
            1
        } else {
            0
        };
        proof {
            let all = view_outputs(outputs@);
            assert forall|i: int| skipped <= i < outputs.len() - cut implies outputs[i]@.script.writable() by {
                assert(all[i].script.writable());
            }
        }
        let outputs_end = outputs_part(outputs, skipped, outputs.len() - cut);
        let mut ops = new_ops();
        push_data(&mut ops, self.lokad_id.clone());
        push_data(&mut ops, bytes1(self.version));
        push_data(&mut ops, self._make_power_vec());
        push_data(&mut ops, u32_be(self.price));
        push_data(&mut ops, self.address_bytes());
        push_data(&mut ops, serialized_pub_key);
        push_data(&mut ops, serialized_sig);
        push_data(&mut ops, prefix);
        push_data(&mut ops, script_code);
        push_data(&mut ops, middle);
        push_data(&mut ops, suffix);
        push_data(&mut ops, outputs_end);
        push_data(&mut ops, encode_int(low_i32(buy_amount)));
        push_data(&mut ops, encode_int(1));
        Script::new(ops)
    }

    /// The amount that buys all that is on sale.
    fn accept_fully_amount(&self) -> (amount: u64)
        requires
            self.spec_accept_fully_amount() <= u64::MAX,
        ensures
            amount == self.spec_accept_fully_amount(),
    {
        if self.is_inverted {
            self.sell_amount_token
        } else {
            assert(self.sell_amount_token * self.price == self.sell_amount_token * (
            self.price as u64)) by (nonlinear_arith);
            self.sell_amount_token * (self.price as u64)
        }
    }

    /// The output as it stands in a transaction.
    pub fn to_output(&self) -> (output: TxOutput)
        requires
            self.wf(),
        ensures
            output@ == (TxOutputView { value: self.value, script: self.spec_script() }),
    {
        TxOutput { value: self.value(), script: self.script() }
    }
}

/// The script that locks to a key hash and then drops `drop_number` items.
pub open spec fn p2pkh_drop_ops(hash: Seq<u8>, drop_number: nat) -> Seq<OpView> {
    p2pkh_ops(hash) + Seq::new(drop_number, |i: int| code(OpCodeType::OpNip))
}

/// The script that unlocks a key hash behind items to drop: the items, the
/// signature, the public key.
pub open spec fn p2pkh_drop_sig_ops(pushes: Seq<Seq<u8>>, sig: Seq<u8>, pub_key: Seq<u8>) -> Seq<
    OpView,
> {
    Seq::new(pushes.len(), |i: int| push(pushes[i])).push(push(sig)).push(push(pub_key))
}

impl P2PKHDropNOutput {
    /// The locking script.
    pub open spec fn spec_script(&self) -> ScriptView {
        ScriptView::new(p2pkh_drop_ops(self.address@.bytes, self.drop_number as nat))
    }

    /// Whether the unlocking script can be built: the items to drop are set,
    /// as many as the script drops.
    pub open spec fn can_sign(&self) -> bool {
        self.push_data matches Some(pushes) && pushes@.len() == self.drop_number
    }

    /// The unlocking script.
    pub open spec fn spec_sig_script(&self, sig: Seq<u8>, pub_key: Seq<u8>) -> ScriptView {
        ScriptView::new(
            p2pkh_drop_sig_ops(
                crate::outputs::view_pushes(self.push_data.unwrap()@),
                sig,
                pub_key,
            ),
        )
    }

    /// The amount.
    pub fn value(&self) -> (value: u64)
        ensures
            value == self.value,
    {
        self.value
    }

    /// The locking script.
    pub fn script(&self) -> (script: Script)
        ensures
            script@ == self.spec_script(),
            script@.encodable(),
    {
        let mut ops = new_ops();
        push_code(&mut ops, OpCodeType::OpDup);
        push_code(&mut ops, OpCodeType::OpHash160);
        push_data(&mut ops, vstd::slice::slice_to_vec(self.address.bytes().as_slice()));
        push_code(&mut ops, OpCodeType::OpEqualVerify);
        push_code(&mut ops, OpCodeType::OpCheckSig);
        let ghost hash = self.address@.bytes;
        assert(view_ops(ops@) =~= p2pkh_ops(hash) + Seq::new(0, |i: int| code(OpCodeType::OpNip)));
        let mut k: usize = 0;
        while k < self.drop_number
            invariant
                k <= self.drop_number,
                ops_encodable(view_ops(ops@)),
                view_ops(ops@) == p2pkh_ops(hash) + Seq::new(
                    k as nat,
                    |i: int| code(OpCodeType::OpNip),
                ),
            decreases self.drop_number - k,
        {
            push_code(&mut ops, OpCodeType::OpNip);
            k += 1;
            assert(view_ops(ops@) =~= p2pkh_ops(hash) + Seq::new(
                k as nat,
                |i: int| code(OpCodeType::OpNip),
            ));
        }
        Script::new(ops)
    }

    /// The script that a signature covers: the locking script.
    pub fn script_code(&self) -> (script: Script)
        ensures
            script@ == self.spec_script(),
            script@.encodable(),
    {
        self.script()
    }

    /// The unlocking script.
    pub fn sig_script(
        &self,
        serialized_sig: Vec<u8>,
        serialized_pub_key: Vec<u8>,
        _pre_image: &PreImage,
        _outputs: &[TxOutput],
    ) -> (script: Script)
        requires
            self.can_sign(),
        ensures
            script@ == self.spec_sig_script(serialized_sig@, serialized_pub_key@),
    {
        let pushes = match &self.push_data {
            Some(pushes) => pushes,
            None => {
                proof {
                    assert(false);
                }
                return Script::empty();
            },
        };
        let ghost views = crate::outputs::view_pushes(pushes@);
        let mut ops = new_ops();
        let mut k: usize = 0;
        assert(view_ops(ops@) =~= Seq::new(0, |i: int| push(views[i])));
        while k < pushes.len()
            invariant
                k <= pushes.len(),
                views == crate::outputs::view_pushes(pushes@),
                view_ops(ops@) == Seq::new(k as nat, |i: int| push(views[i])),
            decreases pushes.len() - k,
        {
            push_data(&mut ops, pushes[k].clone());
            k += 1;
            assert(view_ops(ops@) =~= Seq::new(k as nat, |i: int| push(views[i])));
        }
        push_data(&mut ops, serialized_sig);
        push_data(&mut ops, serialized_pub_key);
        Script::new(ops)
    }

    /// The output as it stands in a transaction.
    pub fn to_output(&self) -> (output: TxOutput)
        ensures
            output@ == (TxOutputView { value: self.value, script: self.spec_script() }),
    {
        TxOutput { value: self.value(), script: self.script() }
    }
}

impl AdvancedTradeOffer {
    /// The elements of the locking script behind the `OP_CODESEPARATOR`: the
    /// part that is signed.
    pub open spec fn spec_ops_signed(&self) -> Seq<OpView> {
        Seq::<OpView>::empty()
            .push(push(self.address@.bytes))
            .push(code(OpCodeType::OpRot))
            .push(code(OpCodeType::OpIf))
            .push(code(OpCodeType::OpToAltStack))
            .push(code(OpCodeType::OpBin2Num)) + self.spec_amount() + self.spec_remainder()
            + self.spec_reverse_bytes4() + self.spec_token_message() + self.spec_reverse_bytes4()
            + self.spec_successor() + self.spec_price_division() + self.spec_fee_keep()
            + self.spec_buyer() + self.spec_fee_output() + self.spec_tail()
    }

    /// The part that is signed holds no `OP_CODESEPARATOR`.
    proof fn lemma_signed_part(&self)
        ensures
            crate::script::no_separator(self.spec_ops_signed()),
    {
        let start = Seq::<OpView>::empty()
            .push(push(self.address@.bytes))
            .push(code(OpCodeType::OpRot))
            .push(code(OpCodeType::OpIf))
            .push(code(OpCodeType::OpToAltStack))
            .push(code(OpCodeType::OpBin2Num));
        assert(crate::script::no_separator(start));
        assert(crate::script::no_separator(self.spec_amount()));
        assert(crate::script::no_separator(self.spec_remainder()));
        assert(crate::script::no_separator(self.spec_reverse_bytes4()));
        assert(crate::script::no_separator(self.spec_token_message()));
        assert(crate::script::no_separator(self.spec_successor()));
        assert(crate::script::no_separator(self.spec_price_division()));
        assert(crate::script::no_separator(self.spec_fee_keep()));
        assert(crate::script::no_separator(self.spec_buyer()));
        assert(crate::script::no_separator(self.spec_fee_output()));
        assert(crate::script::no_separator(self.spec_tail()));
        let a1 = start + self.spec_amount();
        crate::script::lemma_no_separator_concat(start, self.spec_amount());
        let a2 = a1 + self.spec_remainder();
        crate::script::lemma_no_separator_concat(a1, self.spec_remainder());
        let a3 = a2 + self.spec_reverse_bytes4();
        crate::script::lemma_no_separator_concat(a2, self.spec_reverse_bytes4());
        let a4 = a3 + self.spec_token_message();
        crate::script::lemma_no_separator_concat(a3, self.spec_token_message());
        let a5 = a4 + self.spec_reverse_bytes4();
        crate::script::lemma_no_separator_concat(a4, self.spec_reverse_bytes4());
        let a6 = a5 + self.spec_successor();
        crate::script::lemma_no_separator_concat(a5, self.spec_successor());
        let a7 = a6 + self.spec_price_division();
        crate::script::lemma_no_separator_concat(a6, self.spec_price_division());
        let a8 = a7 + self.spec_fee_keep();
        crate::script::lemma_no_separator_concat(a7, self.spec_fee_keep());
        let a9 = a8 + self.spec_buyer();
        crate::script::lemma_no_separator_concat(a8, self.spec_buyer());
        let a10 = a9 + self.spec_fee_output();
        crate::script::lemma_no_separator_concat(a9, self.spec_fee_output());
        crate::script::lemma_no_separator_concat(a10, self.spec_tail());
    }

    /// The wire form of the locking script is the push of the amount on sale,
    /// an `OP_CODESEPARATOR`, and the part that is signed, in which the amount
    /// has no part: the script of the successor is this one with the four
    /// bytes of the amount replaced, and what is signed is the same for both.
    pub proof fn lemma_amount_slot(&self)
        ensures
            self.spec_script().wire() == seq![4u8] + self.spec_sell_amount_bytes()
                + seq![OpCodeType::OpCodeSeparator.spec_to_u8()] + self.spec_script().sig_wire(),
            self.spec_script().sig_wire() == crate::script::ops_wire(self.spec_ops_signed(), true),
            self.spec_sell_amount_bytes().len() == 4,
    {
        let amount = self.spec_sell_amount_bytes();
        let first = Seq::<OpView>::empty().push(push(amount)).push(
            code(OpCodeType::OpCodeSeparator),
        );
        let signed = self.spec_ops_signed();
        let ops = self.spec_ops();
        crate::serialize::lemma_le_bytes_len((self.sell_amount_token as u32) as nat, 4);
        assert(ops =~= first + signed);
        self.lemma_signed_part();
        assert forall|i: int| 2 <= i < ops.len() implies ops[i] != OpView::Code(
            OpCodeType::OpCodeSeparator,
        ) by {
            assert(ops[i] == signed[i - 2]);
        }
        assert(ops[1] == code(OpCodeType::OpCodeSeparator));
        crate::script::lemma_after_last_separator(ops, 2);
        assert(ops.skip(2) =~= signed);
        crate::script::lemma_ops_wire_concat(first, signed, true);
        crate::script::lemma_ops_wire_push(Seq::<OpView>::empty(), push(amount), true);
        crate::script::lemma_ops_wire_push(
            Seq::<OpView>::empty().push(push(amount)),
            code(OpCodeType::OpCodeSeparator),
            true,
        );
        assert(crate::script::ops_wire(first, true) =~= seq![4u8] + amount
            + seq![OpCodeType::OpCodeSeparator.spec_to_u8()]);
    }
}

} // verus!
