//! The ascending nonce covenant: a value that its owner pays out from in
//! steps, each of which must name a nonce that was not used yet.

use crate::advanced_trade_offer::{
    outputs_part, pre_image_prefix, pre_image_suffix, prefix_fields, suffix_fields,
};
use crate::script::{
    append_ops, bytes1, bytes3, bytes4, code, lemma_after_last_separator, lemma_ops_wire_len,
    new_ops, no_separator, ops_encodable, ops_wire, push, push_code, push_data, view_ops, Op,
    OpCodeType, OpView, Script, ScriptView,
};
use crate::serialize::{
    encode_int, encode_int_n, script_num, script_num_n, spec_var_int, write_var_int,
};
use crate::tx::{outputs_wire, view_outputs, TxOutput, TxOutputView};
use crate::unsigned_tx::{PreImage, PreImageView};
use vstd::prelude::*;

verus! {

/// How an ascending nonce output is spent.
#[derive(Debug, PartialEq, Eq)]
pub enum P2AscendingNonceSpendParams {
    /// Pays out `payment_amount` under the owner's signature `owner_sig`
    /// and moves the nonce to `new_nonce`; `is_terminal` where the rest is
    /// below the dust limit and no successor is made.
    NonceRedeem { payment_amount: i32, new_nonce: i32, owner_sig: Vec<u8>, is_terminal: bool },
    /// Adds to the value and keeps the nonce; the amount added is given as a
    /// negative payment.
    NonceRefill { payment_amount: i32 },
    /// Spends by the owner's signature alone.
    P2pk,
}

impl Clone for P2AscendingNonceSpendParams {
    fn clone(&self) -> (params: Self)
        ensures
            params.spec_eq_view(self),
    {
        match self {
            P2AscendingNonceSpendParams::NonceRedeem {
                payment_amount,
                new_nonce,
                owner_sig,
                is_terminal,
            } => P2AscendingNonceSpendParams::NonceRedeem {
                payment_amount: *payment_amount,
                new_nonce: *new_nonce,
                owner_sig: owner_sig.clone(),
                is_terminal: *is_terminal,
            },
            P2AscendingNonceSpendParams::NonceRefill {
                payment_amount,
            } => P2AscendingNonceSpendParams::NonceRefill { payment_amount: *payment_amount },
            P2AscendingNonceSpendParams::P2pk => P2AscendingNonceSpendParams::P2pk,
        }
    }
}

impl P2AscendingNonceSpendParams {
    /// Whether two ways of spending say the same.
    pub open spec fn spec_eq_view(&self, other: &Self) -> bool {
        match (self, other) {
            (
                P2AscendingNonceSpendParams::NonceRedeem {
                    payment_amount: p1,
                    new_nonce: n1,
                    owner_sig: s1,
                    is_terminal: t1,
                },
                P2AscendingNonceSpendParams::NonceRedeem {
                    payment_amount: p2,
                    new_nonce: n2,
                    owner_sig: s2,
                    is_terminal: t2,
                },
            ) => p1 == p2 && n1 == n2 && s1@ == s2@ && t1 == t2,
            (
                P2AscendingNonceSpendParams::NonceRefill { payment_amount: p1 },
                P2AscendingNonceSpendParams::NonceRefill { payment_amount: p2 },
            ) => p1 == p2,
            (P2AscendingNonceSpendParams::P2pk, P2AscendingNonceSpendParams::P2pk) => true,
            _ => false,
        }
    }
}

/// A value under the ascending nonce covenant.
#[derive(Debug)]
pub struct P2AscendingNonce {
    pub lokad_id: Vec<u8>,
    pub old_value: u64,
    pub owner_pk: Vec<u8>,
    pub old_nonce: i32,
    pub dust_limit: i32,
    pub spend_params: Option<P2AscendingNonceSpendParams>,
}

impl P2AscendingNonce {
    /// Whether the covenant can be written as a script: the identifier and the
    /// owner's key can be pushed.
    pub open spec fn wf(&self) -> bool {
        &&& self.lokad_id@.len() <= 0xffff_ffff
        &&& self.owner_pk@.len() <= 0xffff_ffff
    }

    /// The start: the nonce in eight bytes, the owner's key, and the choice
    /// between the covenant and a plain signature of the owner.
    pub open spec fn spec_start(&self) -> Seq<OpView> {
        Seq::<OpView>::empty()
            .push(push(script_num_n(self.old_nonce as int, 8)))
            .push(push(self.owner_pk@))
            .push(code(OpCodeType::OpRot))
            .push(code(OpCodeType::OpIf))
    }

    fn start(&self) -> (ops: Vec<Op>)
        requires
            self.wf(),
        ensures
            view_ops(ops@) == self.spec_start(),
            ops_encodable(view_ops(ops@)),
            no_separator(view_ops(ops@)),
    {
        let mut ops = new_ops();
        push_data(&mut ops, encode_int_n(self.old_nonce, 8));
        push_data(&mut ops, self.owner_pk.clone());
        push_code(&mut ops, OpCodeType::OpRot);
        push_code(&mut ops, OpCodeType::OpIf);
        ops
    }

    /// Compares the new nonce with the old: it must be less to redeem, which a
    /// payment that is not negative shows, and equal to refill.
    pub open spec fn spec_nonce_check(&self) -> Seq<OpView> {
        Seq::<OpView>::empty()
            .push(code(OpCodeType::OpToAltStack))
            .push(code(OpCodeType::OpBin2Num))
            .push(code(OpCodeType::OpOver))
            .push(push(script_num(6)))
            .push(code(OpCodeType::OpPick))
            .push(push(Seq::<u8>::empty()))
            .push(code(OpCodeType::OpGreaterThanOrEqual))
            .push(code(OpCodeType::OpIf))
            .push(code(OpCodeType::OpLessThan))
            .push(code(OpCodeType::OpElse))
            .push(code(OpCodeType::OpEqual))
            .push(code(OpCodeType::OpEndIf))
    }

    fn nonce_check(&self) -> (ops: Vec<Op>)
        requires
            self.wf(),
        ensures
            view_ops(ops@) == self.spec_nonce_check(),
            ops_encodable(view_ops(ops@)),
            no_separator(view_ops(ops@)),
    {
        let mut ops = new_ops();
        push_code(&mut ops, OpCodeType::OpToAltStack);
        push_code(&mut ops, OpCodeType::OpBin2Num);
        push_code(&mut ops, OpCodeType::OpOver);
        push_data(&mut ops, encode_int(6));
        push_code(&mut ops, OpCodeType::OpPick);
        push_data(&mut ops, Vec::new());
        push_code(&mut ops, OpCodeType::OpGreaterThanOrEqual);
        push_code(&mut ops, OpCodeType::OpIf);
        push_code(&mut ops, OpCodeType::OpLessThan);
        push_code(&mut ops, OpCodeType::OpElse);
        push_code(&mut ops, OpCodeType::OpEqual);
        push_code(&mut ops, OpCodeType::OpEndIf);
        ops
    }

    /// Builds the script of the successor, with the new nonce in the place of
    /// the old, hashes it, and takes the payment from the old value.
    pub open spec fn spec_successor_lock(&self) -> Seq<OpView> {
        Seq::<OpView>::empty()
            .push(code(OpCodeType::OpVerify))
            .push(push(seq![8u8]))
            .push(code(OpCodeType::OpNum2Bin))
            .push(code(OpCodeType::OpDup))
            .push(code(OpCodeType::OpToAltStack))
            .push(push(seq![0x08u8]))
            .push(code(OpCodeType::OpSwap))
            .push(code(OpCodeType::OpCat))
            .push(code(OpCodeType::OpRot))
            .push(code(OpCodeType::OpRot))
            .push(code(OpCodeType::OpCat))
            .push(code(OpCodeType::OpTuck))
            .push(code(OpCodeType::OpCat))
            .push(code(OpCodeType::OpHash160))
            .push(code(OpCodeType::OpSwap))
            .push(code(OpCodeType::OpToAltStack))
            .push(code(OpCodeType::OpToAltStack))
            .push(code(OpCodeType::Op2Dup))
            .push(code(OpCodeType::OpSwap))
            .push(code(OpCodeType::OpSub))
            .push(code(OpCodeType::OpDup))
            .push(push(script_num(self.dust_limit as int)))
            .push(code(OpCodeType::OpGreaterThanOrEqual))
            .push(code(OpCodeType::OpIf))
    }

    fn successor_lock(&self) -> (ops: Vec<Op>)
        requires
            self.wf(),
        ensures
            view_ops(ops@) == self.spec_successor_lock(),
            ops_encodable(view_ops(ops@)),
            no_separator(view_ops(ops@)),
    {
        let mut ops = new_ops();
        push_code(&mut ops, OpCodeType::OpVerify);
        push_data(&mut ops, bytes1(8));
        push_code(&mut ops, OpCodeType::OpNum2Bin);
        push_code(&mut ops, OpCodeType::OpDup);
        push_code(&mut ops, OpCodeType::OpToAltStack);
        push_data(&mut ops, bytes1(0x08));
        push_code(&mut ops, OpCodeType::OpSwap);
        push_code(&mut ops, OpCodeType::OpCat);
        push_code(&mut ops, OpCodeType::OpRot);
        push_code(&mut ops, OpCodeType::OpRot);
        push_code(&mut ops, OpCodeType::OpCat);
        push_code(&mut ops, OpCodeType::OpTuck);
        push_code(&mut ops, OpCodeType::OpCat);
        push_code(&mut ops, OpCodeType::OpHash160);
        push_code(&mut ops, OpCodeType::OpSwap);
        push_code(&mut ops, OpCodeType::OpToAltStack);
        push_code(&mut ops, OpCodeType::OpToAltStack);
        push_code(&mut ops, OpCodeType::Op2Dup);
        push_code(&mut ops, OpCodeType::OpSwap);
        push_code(&mut ops, OpCodeType::OpSub);
        push_code(&mut ops, OpCodeType::OpDup);
        push_data(&mut ops, encode_int(self.dust_limit));
        push_code(&mut ops, OpCodeType::OpGreaterThanOrEqual);
        push_code(&mut ops, OpCodeType::OpIf);
        ops
    }

    /// Builds the output of the successor where its value reaches the dust
    /// limit, and no output where it does not.
    pub open spec fn spec_successor_output(&self) -> Seq<OpView> {
        Seq::<OpView>::empty()
            .push(push(seq![8u8]))
            .push(code(OpCodeType::OpNum2Bin))
            .push(push(seq![23u8, OpCodeType::OpHash160.spec_to_u8(), 20u8]))
            .push(code(OpCodeType::OpFromAltStack))
            .push(push(seq![OpCodeType::OpEqual.spec_to_u8()]))
            .push(code(OpCodeType::OpCat))
            .push(code(OpCodeType::OpCat))
            .push(code(OpCodeType::OpCat))
            .push(code(OpCodeType::OpElse))
            .push(code(OpCodeType::OpFromAltStack))
            .push(code(OpCodeType::Op2Drop))
            .push(push(Seq::<u8>::empty()))
            .push(code(OpCodeType::OpEndIf))
    }

    fn successor_output(&self) -> (ops: Vec<Op>)
        requires
            self.wf(),
        ensures
            view_ops(ops@) == self.spec_successor_output(),
            ops_encodable(view_ops(ops@)),
            no_separator(view_ops(ops@)),
    {
        let mut ops = new_ops();
        push_data(&mut ops, bytes1(8));
        push_code(&mut ops, OpCodeType::OpNum2Bin);
        push_data(&mut ops, bytes3(23, OpCodeType::OpHash160.to_u8(), 20));
        push_code(&mut ops, OpCodeType::OpFromAltStack);
        push_data(&mut ops, bytes1(OpCodeType::OpEqual.to_u8()));
        push_code(&mut ops, OpCodeType::OpCat);
        push_code(&mut ops, OpCodeType::OpCat);
        push_code(&mut ops, OpCodeType::OpCat);
        push_code(&mut ops, OpCodeType::OpElse);
        push_code(&mut ops, OpCodeType::OpFromAltStack);
        push_code(&mut ops, OpCodeType::Op2Drop);
        push_data(&mut ops, Vec::new());
        push_code(&mut ops, OpCodeType::OpEndIf);
        ops
    }

    /// Joins the outputs and hashes them, joins the parts of the pre-image, whose
    /// prefix has 114 bytes and whose suffix has 8, and checks the signature of
    /// the covenant against it.
    pub open spec fn spec_pre_image(&self) -> Seq<OpView> {
        Seq::<OpView>::empty()
            .push(push(script_num(7)))
            .push(code(OpCodeType::OpRoll))
            .push(code(OpCodeType::OpCat))
            .push(code(OpCodeType::OpHash256))
            .push(code(OpCodeType::OpSwap))
            .push(push(seq![8u8]))
            .push(code(OpCodeType::OpNum2Bin))
            .push(push(script_num(4)))
            .push(code(OpCodeType::OpRoll))
            .push(code(OpCodeType::OpSize))
            .push(push(script_num(114)))
            .push(code(OpCodeType::OpNumEqualVerify))
            .push(code(OpCodeType::OpFromAltStack))
            .push(code(OpCodeType::OpCat))
            .push(code(OpCodeType::OpSwap))
            .push(code(OpCodeType::OpCat))
            .push(push(seq![0xffu8, 0xffu8, 0xffu8, 0xffu8]))
            .push(code(OpCodeType::OpCat))
            .push(code(OpCodeType::OpSwap))
            .push(code(OpCodeType::OpCat))
            .push(code(OpCodeType::OpRot))
            .push(code(OpCodeType::OpSize))
            .push(push(seq![8u8]))
            .push(code(OpCodeType::OpNumEqualVerify))
            .push(code(OpCodeType::OpCat))
            .push(code(OpCodeType::OpSha256))
            .push(code(OpCodeType::Op2Swap))
            .push(code(OpCodeType::OpOver))
            .push(code(OpCodeType::OpToAltStack))
            .push(code(OpCodeType::Op2Dup))
            .push(push(seq![0x41u8]))
            .push(code(OpCodeType::OpCat))
            .push(code(OpCodeType::OpSwap))
            .push(code(OpCodeType::OpCheckSigVerify))
            .push(code(OpCodeType::OpRot))
            .push(code(OpCodeType::OpRot))
            .push(code(OpCodeType::OpCheckDataSigVerify))
            .push(code(OpCodeType::OpDup))
            .push(push(Seq::<u8>::empty()))
            .push(code(OpCodeType::OpGreaterThanOrEqual))
            .push(code(OpCodeType::OpIf))
    }

    fn pre_image(&self) -> (ops: Vec<Op>)
        requires
            self.wf(),
        ensures
            view_ops(ops@) == self.spec_pre_image(),
            ops_encodable(view_ops(ops@)),
            no_separator(view_ops(ops@)),
    {
        let mut ops = new_ops();
        push_data(&mut ops, encode_int(7));
        push_code(&mut ops, OpCodeType::OpRoll);
        push_code(&mut ops, OpCodeType::OpCat);
        push_code(&mut ops, OpCodeType::OpHash256);
        push_code(&mut ops, OpCodeType::OpSwap);
        push_data(&mut ops, bytes1(8));
        push_code(&mut ops, OpCodeType::OpNum2Bin);
        push_data(&mut ops, encode_int(4));
        push_code(&mut ops, OpCodeType::OpRoll);
        push_code(&mut ops, OpCodeType::OpSize);
        push_data(&mut ops, encode_int(114));
        push_code(&mut ops, OpCodeType::OpNumEqualVerify);
        push_code(&mut ops, OpCodeType::OpFromAltStack);
        push_code(&mut ops, OpCodeType::OpCat);
        push_code(&mut ops, OpCodeType::OpSwap);
        push_code(&mut ops, OpCodeType::OpCat);
        push_data(&mut ops, bytes4(0xff, 0xff, 0xff, 0xff));
        push_code(&mut ops, OpCodeType::OpCat);
        push_code(&mut ops, OpCodeType::OpSwap);
        push_code(&mut ops, OpCodeType::OpCat);
        push_code(&mut ops, OpCodeType::OpRot);
        push_code(&mut ops, OpCodeType::OpSize);
        push_data(&mut ops, bytes1(8));
        push_code(&mut ops, OpCodeType::OpNumEqualVerify);
        push_code(&mut ops, OpCodeType::OpCat);
        push_code(&mut ops, OpCodeType::OpSha256);
        push_code(&mut ops, OpCodeType::Op2Swap);
        push_code(&mut ops, OpCodeType::OpOver);
        push_code(&mut ops, OpCodeType::OpToAltStack);
        push_code(&mut ops, OpCodeType::Op2Dup);
        push_data(&mut ops, bytes1(0x41));
        push_code(&mut ops, OpCodeType::OpCat);
        push_code(&mut ops, OpCodeType::OpSwap);
        push_code(&mut ops, OpCodeType::OpCheckSigVerify);
        push_code(&mut ops, OpCodeType::OpRot);
        push_code(&mut ops, OpCodeType::OpRot);
        push_code(&mut ops, OpCodeType::OpCheckDataSigVerify);
        push_code(&mut ops, OpCodeType::OpDup);
        push_data(&mut ops, Vec::new());
        push_code(&mut ops, OpCodeType::OpGreaterThanOrEqual);
        push_code(&mut ops, OpCodeType::OpIf);
        ops
    }

    /// To redeem, checks the owner's signature over the payment, the hash of the
    /// owner's key and the new nonce, and the identifier; to refill, nothing more.
    pub open spec fn spec_owner_check(&self) -> Seq<OpView> {
        Seq::<OpView>::empty()
            .push(push(seq![8u8]))
            .push(code(OpCodeType::OpNum2Bin))
            .push(code(OpCodeType::OpFromAltStack))
            .push(code(OpCodeType::OpHash160))
            .push(code(OpCodeType::OpSwap))
            .push(code(OpCodeType::OpCat))
            .push(code(OpCodeType::OpFromAltStack))
            .push(code(OpCodeType::OpCat))
            .push(code(OpCodeType::OpFromAltStack))
            .push(code(OpCodeType::OpCheckDataSigVerify))
            .push(push(self.lokad_id@))
            .push(code(OpCodeType::OpEqual))
            .push(code(OpCodeType::OpElse))
            .push(code(OpCodeType::Op2Drop))
            .push(code(OpCodeType::OpEndIf))
    }

    fn owner_check(&self) -> (ops: Vec<Op>)
        requires
            self.wf(),
        ensures
            view_ops(ops@) == self.spec_owner_check(),
            ops_encodable(view_ops(ops@)),
            no_separator(view_ops(ops@)),
    {
        let mut ops = new_ops();
        push_data(&mut ops, bytes1(8));
        push_code(&mut ops, OpCodeType::OpNum2Bin);
        push_code(&mut ops, OpCodeType::OpFromAltStack);
        push_code(&mut ops, OpCodeType::OpHash160);
        push_code(&mut ops, OpCodeType::OpSwap);
        push_code(&mut ops, OpCodeType::OpCat);
        push_code(&mut ops, OpCodeType::OpFromAltStack);
        push_code(&mut ops, OpCodeType::OpCat);
        push_code(&mut ops, OpCodeType::OpFromAltStack);
        push_code(&mut ops, OpCodeType::OpCheckDataSigVerify);
        push_data(&mut ops, self.lokad_id.clone());
        push_code(&mut ops, OpCodeType::OpEqual);
        push_code(&mut ops, OpCodeType::OpElse);
        push_code(&mut ops, OpCodeType::Op2Drop);
        push_code(&mut ops, OpCodeType::OpEndIf);
        ops
    }

    /// Or else the plain signature of the owner.
    pub open spec fn spec_plain(&self) -> Seq<OpView> {
        Seq::<OpView>::empty()
            .push(code(OpCodeType::OpElse))
            .push(code(OpCodeType::OpNip))
            .push(code(OpCodeType::OpCheckSig))
            .push(code(OpCodeType::OpEndIf))
    }

    fn plain(&self) -> (ops: Vec<Op>)
        requires
            self.wf(),
        ensures
            view_ops(ops@) == self.spec_plain(),
            ops_encodable(view_ops(ops@)),
            no_separator(view_ops(ops@)),
    {
        let mut ops = new_ops();
        push_code(&mut ops, OpCodeType::OpElse);
        push_code(&mut ops, OpCodeType::OpNip);
        push_code(&mut ops, OpCodeType::OpCheckSig);
        push_code(&mut ops, OpCodeType::OpEndIf);
        ops
    }

    /// The elements of the locking script.
    pub open spec fn spec_ops(&self) -> Seq<OpView> {
        self.spec_start() + self.spec_nonce_check() + self.spec_successor_lock()
            + self.spec_successor_output() + self.spec_pre_image() + self.spec_owner_check()
            + self.spec_plain()
    }

    /// The locking script.
    pub open spec fn spec_script(&self) -> ScriptView {
        ScriptView::new(self.spec_ops())
    }

    /// The locking script has 113 elements, so its wire form has at least as
    /// many bytes.
    pub proof fn lemma_script_len(&self)
        ensures
            self.spec_ops().len() == 113,
            ops_wire(self.spec_ops(), true).len() >= 113,
    {
        assert(self.spec_start().len() == 4);
        assert(self.spec_nonce_check().len() == 12);
        assert(self.spec_successor_lock().len() == 24);
        assert(self.spec_successor_output().len() == 13);
        assert(self.spec_pre_image().len() == 41);
        assert(self.spec_owner_check().len() == 15);
        assert(self.spec_plain().len() == 4);
        lemma_ops_wire_len(self.spec_ops(), true);
    }

    /// The elements of the locking script.
    fn _ops(&self) -> (ops: Vec<Op>)
        requires
            self.wf(),
        ensures
            view_ops(ops@) == self.spec_ops(),
            ops_encodable(view_ops(ops@)),
            no_separator(view_ops(ops@)),
    {
        let mut ops = self.start();
        append_ops(&mut ops, self.nonce_check());
        append_ops(&mut ops, self.successor_lock());
        append_ops(&mut ops, self.successor_output());
        append_ops(&mut ops, self.pre_image());
        append_ops(&mut ops, self.owner_check());
        append_ops(&mut ops, self.plain());
        ops
    }

    /// Whether the spending makes a successor, which the script builds itself
    /// as the first output.
    pub open spec fn spec_is_terminal(&self) -> bool {
        self.spend_params matches Some(
            P2AscendingNonceSpendParams::NonceRedeem { is_terminal, .. },
        ) && is_terminal
    }

    /// How many outputs at the start the script builds itself.
    pub open spec fn spec_outputs_skipped(&self) -> int {
        if self.spec_is_terminal() {
            0
        } else {
            1
        }
    }

    /// Whether the unlocking script can be built: the way of spending is set;
    /// to redeem, the new nonce is less than the old; to redeem and to refill,
    /// the signature is not empty, the old value is a number of 31 bits, and the
    /// outputs hold the one that the script builds itself.
    pub open spec fn can_sign(&self, sig: Seq<u8>, outputs: Seq<TxOutputView>) -> bool {
        &&& self.wf()
        &&& match self.spend_params {
            None => false,
            Some(P2AscendingNonceSpendParams::P2pk) => true,
            Some(params) => {
                &&& params matches P2AscendingNonceSpendParams::NonceRedeem { new_nonce, .. }
                    ==> new_nonce < self.old_nonce
                &&& sig.len() >= 1
                &&& self.old_value <= i32::MAX
                &&& self.spec_outputs_skipped() <= outputs.len()
                &&& forall|i: int|
                    self.spec_outputs_skipped() <= i < outputs.len() ==> (
                    #[trigger] outputs[i]).script.writable()
            },
        }
    }

    /// The elements that unlock through the covenant.
    pub open spec fn spec_covenant_ops(
        &self,
        payment_amount: i32,
        new_nonce: i32,
        owner_sig: Seq<u8>,
        sig: Seq<u8>,
        pub_key: Seq<u8>,
        pre_image: PreImageView,
        outputs: Seq<TxOutputView>,
    ) -> Seq<OpView> {
        let script_code = self.spec_script().sig_wire();
        Seq::<OpView>::empty()
            .push(push(self.lokad_id@))
            .push(push(owner_sig))
            .push(push(outputs_wire(outputs.skip(self.spec_outputs_skipped()))))
            .push(push(pub_key))
            .push(push(sig.drop_last()))
            .push(
                push(
                    pre_image.wire_flags(prefix_fields()) + spec_var_int(script_code.len() as u64)
                        + script_code.take(9),
                ),
            )
            .push(push(pre_image.wire_flags(suffix_fields())))
            .push(push(script_num(payment_amount as int)))
            .push(push(script_num(self.old_value as int)))
            .push(push(script_code.subrange(9, 43)))
            .push(push(script_code.skip(43)))
            .push(push(script_num(new_nonce as int)))
            .push(push(seq![1u8]))
    }

    /// The unlocking script. Through the covenant: the identifier, the owner's
    /// signature (empty to refill), the outputs that the script does not build
    /// itself, the key and the signature without its last byte, the prefix of the
    /// pre-image with the push of the old nonce, its suffix, the payment, the old
    /// value, the push of the owner's key, the rest of the script, the new nonce
    /// (the old one to refill), and a one. By the owner alone: the signature and
    /// a zero.
    pub open spec fn spec_sig_script(
        &self,
        sig: Seq<u8>,
        pub_key: Seq<u8>,
        pre_image: PreImageView,
        outputs: Seq<TxOutputView>,
    ) -> ScriptView {
        match self.spend_params {
            Some(
                P2AscendingNonceSpendParams::NonceRedeem {
                    payment_amount,
                    new_nonce,
                    owner_sig,
                    is_terminal,
                },
            ) => ScriptView::new(
                self.spec_covenant_ops(
                    payment_amount,
                    new_nonce,
                    owner_sig@,
                    sig,
                    pub_key,
                    pre_image,
                    outputs,
                ),
            ),
            Some(P2AscendingNonceSpendParams::NonceRefill { payment_amount }) => ScriptView::new(
                self.spec_covenant_ops(
                    payment_amount,
                    self.old_nonce,
                    Seq::empty(),
                    sig,
                    pub_key,
                    pre_image,
                    outputs,
                ),
            ),
            _ => ScriptView::new(
                Seq::<OpView>::empty().push(push(sig)).push(push(script_num(0))),
            ),
        }
    }

    /// The amount.
    pub fn value(&self) -> (value: u64)
        ensures
            value == self.old_value,
    {
        self.old_value
    }

    /// The locking script.
    pub fn script(&self) -> (script: Script)
        requires
            self.wf(),
        ensures
            script@ == self.spec_script(),
            script@.encodable(),
    {
        Script::new(self._ops())
    }

    /// The script that a signature covers: the locking script, which holds
    /// no `OP_CODESEPARATOR`.
    pub fn script_code(&self) -> (script: Script)
        requires
            self.wf(),
        ensures
            script@ == self.spec_script(),
            script@.encodable(),
            no_separator(script@.ops),
    {
        Script::new(self._ops())
    }

    /// The unlocking script.
    pub fn sig_script(
        &self,
        serialized_sig: Vec<u8>,
        serialized_pub_key: Vec<u8>,
        pre_image: &PreImage,
        outputs: &[TxOutput],
    ) -> (script: Script)
        requires
            self.can_sign(serialized_sig@, view_outputs(outputs@)),
        ensures
            script@ == self.spec_sig_script(
                serialized_sig@,
                serialized_pub_key@,
                pre_image@,
                view_outputs(outputs@),
            ),
    {
        match &self.spend_params {
            Some(
                P2AscendingNonceSpendParams::NonceRedeem {
                    payment_amount,
                    new_nonce,
                    owner_sig,
                    is_terminal,
                },
            ) => self.covenant_sig_script(
                *payment_amount,
                *new_nonce,
                owner_sig.clone(),
                *is_terminal,
                serialized_sig,
                serialized_pub_key,
                pre_image,
                outputs,
            ),
            Some(P2AscendingNonceSpendParams::NonceRefill { payment_amount }) => {
                self.covenant_sig_script(
                    *payment_amount,
                    self.old_nonce,
                    Vec::new(),
                    false,
                    serialized_sig,
                    serialized_pub_key,
                    pre_image,
                    outputs,
                )
            },
            _ => {
                let mut ops = new_ops();
                push_data(&mut ops, serialized_sig);
                push_data(&mut ops, encode_int(0));
                Script::new(ops)
            },
        }
    }

    /// The unlocking script through the covenant.
    fn covenant_sig_script(
        &self,
        payment_amount: i32,
        new_nonce: i32,
        owner_sig: Vec<u8>,
        is_terminal: bool,
        serialized_sig: Vec<u8>,
        serialized_pub_key: Vec<u8>,
        pre_image: &PreImage,
        outputs: &[TxOutput],
    ) -> (script: Script)
        requires
            self.can_sign(serialized_sig@, view_outputs(outputs@)),
            self.spend_params is Some,
            !(self.spend_params matches Some(P2AscendingNonceSpendParams::P2pk)),
            is_terminal == self.spec_is_terminal(),
        ensures
            script@ == ScriptView::new(
                self.spec_covenant_ops(
                    payment_amount,
                    new_nonce,
                    owner_sig@,
                    serialized_sig@,
                    serialized_pub_key@,
                    pre_image@,
                    view_outputs(outputs@),
                ),
            ),
    {
        let ghost sig = serialized_sig@;
        let mut serialized_sig = serialized_sig;
        serialized_sig.pop();  // remove sig flag
        assert(serialized_sig@ =~= sig.drop_last());
        let script_code = self.script_code().to_vec_sig();
        proof {
            self.lemma_script_len();
            lemma_after_last_separator(self.spec_ops(), 0);
            assert(self.spec_ops().skip(0) =~= self.spec_ops());
        }
        let nonce_size: usize = 9;  // len("PUSH <oldNonce>")
        let pk_size: usize = 34;  // len("PUSH <pubkey>")
        let skipped: usize = if is_terminal {
            0
        } else {
            1
        };
        proof {
            let all = view_outputs(outputs@);
            assert forall|i: int| skipped <= i < outputs.len() implies outputs[i]@.script.writable() by {
                assert(all[i].script.writable());
            }
            assert(all.subrange(skipped as int, outputs.len() as int) =~= all.skip(skipped as int));
        }
        let outputs_post = outputs_part(outputs, skipped, outputs.len());
        let mut prefix = pre_image_prefix(pre_image);
        write_var_int(&mut prefix, script_code.len() as u64);
        prefix.extend_from_slice(vstd::slice::slice_subrange(script_code.as_slice(), 0, nonce_size));
        assert(script_code@.subrange(0, 9) =~= script_code@.take(9));
        let suffix = pre_image_suffix(pre_image);
        let pk_push = vstd::slice::slice_to_vec(
            vstd::slice::slice_subrange(script_code.as_slice(), nonce_size, nonce_size + pk_size),
        );
        let rest = vstd::slice::slice_to_vec(
            vstd::slice::slice_subrange(
                script_code.as_slice(),
                nonce_size + pk_size,
                script_code.len(),
            ),
        );
        assert(rest@ =~= script_code@.skip(43));
        let value_num = encode_int(self.old_value as i32);
        proof {
            let code = self.spec_script().sig_wire();
            assert(script_code@ == code);
            assert(outputs_post@ == outputs_wire(
                view_outputs(outputs@).skip(self.spec_outputs_skipped()),
            ));
            assert(prefix@ == pre_image@.wire_flags(prefix_fields()) + spec_var_int(
                code.len() as u64,
            ) + code.take(9));
            assert(pk_push@ == code.subrange(9, 43));
            assert(rest@ == code.skip(43));
            assert(value_num@ == script_num(self.old_value as int));
        }
        let mut ops = new_ops();
        push_data(&mut ops, self.lokad_id.clone());
        push_data(&mut ops, owner_sig);  // ownerDataSig
        push_data(&mut ops, outputs_post);
        push_data(&mut ops, serialized_pub_key);  // covenantPk
        push_data(&mut ops, serialized_sig);  // covenantDataSig
        push_data(&mut ops, prefix);
        push_data(&mut ops, suffix);
        push_data(&mut ops, encode_int(payment_amount));
        push_data(&mut ops, value_num);
        push_data(&mut ops, pk_push);
        push_data(&mut ops, rest);
        push_data(&mut ops, encode_int(new_nonce));
        push_data(&mut ops, bytes1(1));
        Script::new(ops)
    }

    /// The output as it stands in a transaction.
    pub fn to_output(&self) -> (output: TxOutput)
        requires
            self.wf(),
        ensures
            output@ == (TxOutputView { value: self.old_value, script: self.spec_script() }),
    {
        TxOutput { value: self.value(), script: self.script() }
    }
}

impl P2AscendingNonce {
    /// The elements of the locking script behind the nonce.
    pub open spec fn spec_ops_behind_nonce(&self) -> Seq<OpView> {
        Seq::<OpView>::empty().push(push(self.owner_pk@)).push(code(OpCodeType::OpRot)).push(
            code(OpCodeType::OpIf),
        ) + self.spec_nonce_check() + self.spec_successor_lock() + self.spec_successor_output()
            + self.spec_pre_image() + self.spec_owner_check() + self.spec_plain()
    }

    /// The wire form of the locking script is the push of the nonce, which
    /// takes nine bytes, and behind it bytes in which the nonce has no part:
    /// the script of the successor is this one with those nine bytes replaced.
    pub proof fn lemma_nonce_slot(&self)
        ensures
            self.spec_script().wire() == seq![8u8] + script_num_n(self.old_nonce as int, 8)
                + ops_wire(self.spec_ops_behind_nonce(), true),
            script_num_n(self.old_nonce as int, 8).len() == 8,
    {
        let nonce = script_num_n(self.old_nonce as int, 8);
        let first = Seq::<OpView>::empty().push(push(nonce));
        let behind = self.spec_ops_behind_nonce();
        crate::serialize::lemma_encode_int_n_round_trip(self.old_nonce, 8);
        assert(self.spec_ops() =~= first + behind);
        crate::script::lemma_ops_wire_concat(first, behind, true);
        crate::script::lemma_ops_wire_push(Seq::<OpView>::empty(), push(nonce), true);
        assert(ops_wire(first, true) =~= seq![8u8] + nonce);
    }

    /// Where the owner's key has 33 bytes, its push takes the 34 bytes behind
    /// the nonce.
    pub proof fn lemma_key_slot(&self)
        requires
            self.owner_pk@.len() == 33,
        ensures
            self.spec_script().wire().len() >= 43,
            self.spec_script().wire().subrange(9, 43) == seq![33u8] + self.owner_pk@,
    {
        self.lemma_nonce_slot();
        let key = Seq::<OpView>::empty().push(push(self.owner_pk@));
        let rest = Seq::<OpView>::empty().push(code(OpCodeType::OpRot)).push(
            code(OpCodeType::OpIf),
        ) + self.spec_nonce_check() + self.spec_successor_lock() + self.spec_successor_output()
            + self.spec_pre_image() + self.spec_owner_check() + self.spec_plain();
        assert(self.spec_ops_behind_nonce() =~= key + rest);
        crate::script::lemma_ops_wire_concat(key, rest, true);
        crate::script::lemma_ops_wire_push(Seq::<OpView>::empty(), push(self.owner_pk@), true);
        assert(ops_wire(key, true) =~= seq![33u8] + self.owner_pk@);
        let wire = self.spec_script().wire();
        assert(wire.subrange(9, 43) =~= seq![33u8] + self.owner_pk@);
    }
}

} // verus!
