//! The plain kinds of output: key hash, data carrier, and token messages.

use crate::address::Address;
use crate::advanced_trade_offer::{AdvancedTradeOffer, P2PKHDropNOutput};
use crate::hash::{hash160, spec_hash160};
use crate::p2_ascending_nonce::P2AscendingNonce;
use crate::script::{
    code, new_ops, ops_encodable, push, push_code, push_data, view_ops, Op, OpCodeType, OpView,
    Script, ScriptView,
};
use crate::serialize::{be_bytes, u64_be};
use crate::tx::{TxOutput, TxOutputView};
use crate::tx::view_outputs;
use crate::unsigned_tx::{PreImage, PreImageView};
use vstd::prelude::*;

verus! {

/// An amount locked to the hash of a public key.
#[derive(Debug)]
pub struct P2PKHOutput {
    pub value: u64,
    pub address: Address,
}

/// Data carried in a script that cannot be spent.
#[derive(Debug)]
pub struct OpReturnOutput {
    pub pushes: Vec<Vec<u8>>,
    pub is_minimal_push: bool,
}

/// The message that sends tokens: one quantity for each output behind it.
#[derive(Debug)]
pub struct SLPSend {
    pub token_type: u8,
    pub token_id: [u8; 32],
    pub output_quantities: Vec<u64>,
}

/// The message that creates a token.
#[derive(Debug)]
pub struct SLPGenesis {
    pub token_type: u8,
    pub token_ticker: Vec<u8>,
    pub token_name: Vec<u8>,
    pub token_document_url: Vec<u8>,
    pub token_document_hash: Vec<u8>,
    pub decimals: u8,
    pub mint_baton_vout: Option<u8>,
    pub initial_token_mint_quantity: u64,
}

/// The script that locks to the hash of a public key:
/// `OP_DUP OP_HASH160 <hash> OP_EQUALVERIFY OP_CHECKSIG`.
pub open spec fn p2pkh_ops(hash: Seq<u8>) -> Seq<OpView> {
    seq![
        code(OpCodeType::OpDup),
        code(OpCodeType::OpHash160),
        push(hash),
        code(OpCodeType::OpEqualVerify),
        code(OpCodeType::OpCheckSig),
    ]
}

/// The script that unlocks a key hash: `<sig> <pubkey>`.
pub open spec fn p2pkh_sig_ops(sig: Seq<u8>, pub_key: Seq<u8>) -> Seq<OpView> {
    seq![push(sig), push(pub_key)]
}

/// The byte strings of `pushes`.
pub open spec fn view_pushes(pushes: Seq<Vec<u8>>) -> Seq<Seq<u8>> {
    Seq::new(pushes.len(), |i: int| pushes[i]@)
}

/// The script of a data carrier: `OP_RETURN` and a push of each byte string.
pub open spec fn op_return_script(pushes: Seq<Seq<u8>>, is_minimal_push: bool) -> ScriptView {
    ScriptView {
        ops: seq![code(OpCodeType::OpReturn)] + Seq::new(pushes.len(), |i: int| push(pushes[i])),
        serialized: None,
        is_minimal_push,
        is_slp_safe: false,
    }
}

/// The bytes of `SLP` and a zero: the mark of a token message.
pub open spec fn slp_lokad_id() -> Seq<u8> {
    seq![0x53u8, 0x4cu8, 0x50u8, 0x00u8]
}

/// The byte strings of the message that sends tokens: the mark, the token
/// type, the bytes of `SEND`, the token id in reverse, and each quantity in
/// eight bytes, most significant first.
pub open spec fn slp_send_pushes(token_type: u8, token_id: Seq<u8>, quantities: Seq<u64>) -> Seq<
    Seq<u8>,
> {
    seq![
        slp_lokad_id(),
        seq![token_type],
        seq![0x53u8, 0x45u8, 0x4eu8, 0x44u8],
        token_id.reverse(),
    ] + Seq::new(quantities.len(), |i: int| be_bytes(quantities[i] as nat, 8))
}

/// The script of the message that sends tokens.
pub open spec fn slp_send_script(token_type: u8, token_id: Seq<u8>, quantities: Seq<u64>)
    -> ScriptView {
    op_return_script(slp_send_pushes(token_type, token_id, quantities), false)
}

impl Clone for P2PKHOutput {
    fn clone(&self) -> (output: Self)
        ensures
            output.value == self.value,
            output.address@ == self.address@,
    {
        P2PKHOutput { value: self.value, address: self.address.clone() }
    }
}

impl P2PKHOutput {
    /// The locking script.
    pub open spec fn spec_script(&self) -> ScriptView {
        ScriptView::new(p2pkh_ops(self.address@.bytes))
    }

    /// The amount.
    pub fn value(&self) -> (value: u64)
        ensures
            value == self.value,
    {
        self.value
    }

    /// The script that locks the amount.
    pub fn script(&self) -> (script: Script)
        ensures
            script@ == self.spec_script(),
            script@.encodable(),
    {
        let mut ops = new_ops();
        push_code(&mut ops, OpCodeType::OpDup);
        push_code(&mut ops, OpCodeType::OpHash160);
        push_data(&mut ops, vstd::slice::slice_to_vec(self.address.bytes().as_slice()));
        push_code(&mut ops, OpCodeType::OpEqualVerify);
        push_code(&mut ops, OpCodeType::OpCheckSig);
        Script::new(ops)
    }

    /// The script that a signature covers: the locking script.
    pub fn script_code(&self) -> (script: Script)
        ensures
            script@ == self.spec_script(),
            script@.encodable(),
    {
        self.script()
    }

    /// The script that unlocks the amount: the signature and the public key.
    pub fn sig_script(
        &self,
        serialized_sig: Vec<u8>,
        serialized_pub_key: Vec<u8>,
        _pre_image: &PreImage,
        _outputs: &[TxOutput],
    ) -> (script: Script)
        ensures
            script@ == ScriptView::new(p2pkh_sig_ops(serialized_sig@, serialized_pub_key@)),
    {
        let mut ops = new_ops();
        push_data(&mut ops, serialized_sig);
        push_data(&mut ops, serialized_pub_key);
        Script::new(ops)
    }

    /// The output as it stands in a transaction.
    pub fn to_output(&self) -> (output: TxOutput)
        ensures
            output@ == (TxOutputView { value: self.value, script: self.spec_script() }),
    {
        TxOutput { value: self.value(), script: self.script() }
    }
}

impl OpReturnOutput {
    /// The locking script.
    pub open spec fn spec_script(&self) -> ScriptView {
        op_return_script(view_pushes(self.pushes@), self.is_minimal_push)
    }

    /// Whether each byte string can be pushed.
    pub open spec fn wf(&self) -> bool {
        forall|i: int| 0 <= i < self.pushes@.len() ==> (#[trigger] self.pushes@[i])@.len() <= 0xffff_ffff
    }

    /// A data carrier holds no amount.
    pub fn value(&self) -> (value: u64)
        ensures
            value == 0,
    {
        0
    }

    /// The script that carries the data.
    pub fn script(&self) -> (script: Script)
        ensures
            script@ == self.spec_script(),
            self.wf() ==> script@.encodable(),
    {
        let mut script_ops = new_ops();
        push_code(&mut script_ops, OpCodeType::OpReturn);
        let ghost pushes = view_pushes(self.pushes@);
        let mut idx: usize = 0;
        assert(view_ops(script_ops@) =~= seq![code(OpCodeType::OpReturn)] + Seq::new(
            0,
            |i: int| push(pushes[i]),
        ));
        while idx < self.pushes.len()
            invariant
                idx <= self.pushes.len(),
                pushes == view_pushes(self.pushes@),
                self.wf() ==> ops_encodable(view_ops(script_ops@)),
                view_ops(script_ops@) == seq![code(OpCodeType::OpReturn)] + Seq::new(
                    idx as nat,
                    |i: int| push(pushes[i]),
                ),
            decreases self.pushes.len() - idx,
        {
            let ghost before = view_ops(script_ops@);
            assert(self.wf() ==> self.pushes@[idx as int]@.len() <= 0xffff_ffff);
            push_data(&mut script_ops, self.pushes[idx].clone());
            idx += 1;
            assert(view_ops(script_ops@) =~= seq![code(OpCodeType::OpReturn)] + Seq::new(
                idx as nat,
                |i: int| push(pushes[i]),
            ));
        }
        if self.is_minimal_push {
            Script::new(script_ops)
        } else {
            Script::new_non_minimal_push(script_ops)
        }
    }

    /// The output as it stands in a transaction.
    pub fn to_output(&self) -> (output: TxOutput)
        ensures
            output@ == (TxOutputView { value: 0, script: self.spec_script() }),
    {
        TxOutput { value: self.value(), script: self.script() }
    }
}

/// The bytes of `data` in reverse order.
fn reversed(data: &[u8]) -> (out: Vec<u8>)
    ensures
        out@ == data@.reverse(),
{
    let mut out: Vec<u8> = Vec::new();
    let mut i = data.len();
    while i > 0
        invariant
            i <= data.len(),
            out.len() == data.len() - i,
            forall|k: int| 0 <= k < out.len() ==> out[k] == data[data.len() - 1 - k],
        decreases i,
    {
        i -= 1;
        out.push(data[i]);
    }
    assert(out@ =~= data@.reverse());
    out
}

impl SLPSend {
    /// The data carrier of the message, written without minimal pushes.
    pub fn into_output(self) -> (output: OpReturnOutput)
        ensures
            !output.is_minimal_push,
            view_pushes(output.pushes@) == slp_send_pushes(
                self.token_type,
                self.token_id@,
                self.output_quantities@,
            ),
    {
        let mut script_ops: Vec<Vec<u8>> = Vec::new();
        script_ops.push(vec![0x53u8, 0x4cu8, 0x50u8, 0x00u8]);
        script_ops.push(vec![self.token_type]);
        script_ops.push(vec![0x53u8, 0x45u8, 0x4eu8, 0x44u8]);
        script_ops.push(reversed(self.token_id.as_slice()));
        let ghost head = seq![
            slp_lokad_id(),
            seq![self.token_type],
            seq![0x53u8, 0x45u8, 0x4eu8, 0x44u8],
            self.token_id@.reverse(),
        ];
        let ghost quantities = self.output_quantities@;
        assert(view_pushes(script_ops@) =~~= head + Seq::new(
            0,
            |i: int| be_bytes(quantities[i] as nat, 8),
        ));
        let mut idx: usize = 0;
        while idx < self.output_quantities.len()
            invariant
                idx <= self.output_quantities.len(),
                quantities == self.output_quantities@,
                head.len() == 4,
                view_pushes(script_ops@) == head + Seq::new(
                    idx as nat,
                    |i: int| be_bytes(quantities[i] as nat, 8),
                ),
            decreases self.output_quantities.len() - idx,
        {
            let ghost before = view_pushes(script_ops@);
            let quantity = u64_be(self.output_quantities[idx]);
            let ghost added = quantity@;
            script_ops.push(quantity);
            assert(view_pushes(script_ops@) =~= before.push(added));
            idx += 1;
            assert(before.push(added) =~= head + Seq::new(
                idx as nat,
                |i: int| be_bytes(quantities[i] as nat, 8),
            ));
        }
        OpReturnOutput { is_minimal_push: false, pushes: script_ops }
    }
}

/// The byte strings of the message that creates a token: the mark, the token
/// type, the bytes of `GENESIS`, ticker, name, document address and hash, the
/// decimals, the output of the minting baton if there is one, and the
/// quantity in eight bytes, most significant first.
pub open spec fn slp_genesis_pushes(
    token_type: u8,
    token_ticker: Seq<u8>,
    token_name: Seq<u8>,
    token_document_url: Seq<u8>,
    token_document_hash: Seq<u8>,
    decimals: u8,
    mint_baton_vout: Option<u8>,
    initial_token_mint_quantity: u64,
) -> Seq<Seq<u8>> {
    seq![
        slp_lokad_id(),
        seq![token_type],
        seq![0x47u8, 0x45u8, 0x4eu8, 0x45u8, 0x53u8, 0x49u8, 0x53u8],
        token_ticker,
        token_name,
        token_document_url,
        token_document_hash,
        seq![decimals],
        match mint_baton_vout {
            Some(vout) => seq![vout],
            None => Seq::empty(),
        },
        be_bytes(initial_token_mint_quantity as nat, 8),
    ]
}

impl SLPGenesis {
    /// The data carrier of the message, written without minimal pushes.
    pub fn into_output(self) -> (output: OpReturnOutput)
        ensures
            !output.is_minimal_push,
            view_pushes(output.pushes@) == slp_genesis_pushes(
                self.token_type,
                self.token_ticker@,
                self.token_name@,
                self.token_document_url@,
                self.token_document_hash@,
                self.decimals,
                self.mint_baton_vout,
                self.initial_token_mint_quantity,
            ),
    {
        let ghost expected = slp_genesis_pushes(
            self.token_type,
            self.token_ticker@,
            self.token_name@,
            self.token_document_url@,
            self.token_document_hash@,
            self.decimals,
            self.mint_baton_vout,
            self.initial_token_mint_quantity,
        );
        let mut script_ops: Vec<Vec<u8>> = Vec::new();
        script_ops.push(vec![0x53u8, 0x4cu8, 0x50u8, 0x00u8]);
        script_ops.push(vec![self.token_type]);
        script_ops.push(vec![0x47u8, 0x45u8, 0x4eu8, 0x45u8, 0x53u8, 0x49u8, 0x53u8]);
        script_ops.push(self.token_ticker);
        script_ops.push(self.token_name);
        script_ops.push(self.token_document_url);
        script_ops.push(self.token_document_hash);
        script_ops.push(vec![self.decimals]);
        script_ops.push(
            if let Some(mint_baton_vout) = self.mint_baton_vout {
                vec![mint_baton_vout]
            } else {
                Vec::new()
            },
        );
        script_ops.push(u64_be(self.initial_token_mint_quantity));
        assert(view_pushes(script_ops@) =~~= expected);
        OpReturnOutput { is_minimal_push: false, pushes: script_ops }
    }
}

/// The message that sends tokens has pushes of at most 32 bytes, where the
/// token id has 32.
pub proof fn lemma_slp_send_encodable(token_type: u8, token_id: Seq<u8>, quantities: Seq<u64>)
    requires
        token_id.len() == 32,
    ensures
        slp_send_script(token_type, token_id, quantities).encodable(),
{
    let pushes = slp_send_pushes(token_type, token_id, quantities);
    let ops = slp_send_script(token_type, token_id, quantities).ops;
    assert forall|i: int| 0 <= i < ops.len() implies (#[trigger] ops[i]).encodable() by {
        if i >= 1 {
            assert(ops[i] == push(pushes[i - 1]));
            if i >= 5 {
                crate::serialize::lemma_le_bytes_len(quantities[i - 5] as nat, 8);
            }
        }
    }
}

/// The message that sends tokens, up to its quantities, has a wire form of
/// 46 bytes.
pub proof fn lemma_slp_send_start_len(token_type: u8, token_id: Seq<u8>)
    requires
        token_id.len() == 32,
    ensures
        slp_send_script(token_type, token_id, Seq::empty()).wire().len() == 46,
{
    let ops = slp_send_script(token_type, token_id, Seq::empty()).ops;
    reveal_with_fuel(crate::script::ops_wire, 6);
    assert(ops.len() == 5);
    assert(ops[0] == code(OpCodeType::OpReturn));
    assert(ops[1] == push(slp_lokad_id()));
    assert(ops[2] == push(seq![token_type]));
    assert(ops[3] == push(seq![0x53u8, 0x45u8, 0x4eu8, 0x44u8]));
    assert(ops[4] == push(token_id.reverse()));
    assert(ops.drop_last().drop_last().drop_last().drop_last().drop_last() =~= Seq::<
        OpView,
    >::empty());
}

/// An amount locked to the hash of a script, which is that of another
/// output.
#[derive(Debug)]
pub struct P2SHOutput {
    pub output: Box<Output>,
}

/// What can stand behind an input or be put into a transaction: one of the
/// kinds of output, each with its locking script and the way to unlock it.
#[derive(Debug)]
pub enum Output {
    P2PKH(P2PKHOutput),
    P2SH(P2SHOutput),
    OpReturn(OpReturnOutput),
    TradeOffer(AdvancedTradeOffer),
    AscendingNonce(P2AscendingNonce),
    P2PKHDropN(P2PKHDropNOutput),
}

/// The script that locks to the hash of a script:
/// `OP_HASH160 <hash> OP_EQUAL`.
pub open spec fn p2sh_ops(hash: Seq<u8>) -> Seq<OpView> {
    Seq::<OpView>::empty().push(code(OpCodeType::OpHash160)).push(push(hash)).push(
        code(OpCodeType::OpEqual),
    )
}

impl Output {
    /// Whether the locking script can be built and written.
    pub open spec fn wf(&self) -> bool
        decreases self,
    {
        match self {
            Output::P2PKH(_) => true,
            Output::P2SH(p2sh) => p2sh.output.wf(),
            Output::OpReturn(op_return) => op_return.wf(),
            Output::TradeOffer(offer) => offer.wf(),
            Output::AscendingNonce(nonce) => nonce.wf(),
            Output::P2PKHDropN(_) => true,
        }
    }

    /// The amount.
    pub open spec fn spec_value(&self) -> u64
        decreases self,
    {
        match self {
            Output::P2PKH(p2pkh) => p2pkh.value,
            Output::P2SH(p2sh) => p2sh.output.spec_value(),
            Output::OpReturn(_) => 0,
            Output::TradeOffer(offer) => offer.value,
            Output::AscendingNonce(nonce) => nonce.old_value,
            Output::P2PKHDropN(drop) => drop.value,
        }
    }

    /// The locking script: what stands in the output of a transaction.
    pub open spec fn spec_script(&self) -> ScriptView
        decreases self,
    {
        match self {
            Output::P2PKH(p2pkh) => p2pkh.spec_script(),
            Output::P2SH(p2sh) => ScriptView::new(
                p2sh_ops(spec_hash160(p2sh.output.spec_script().wire())@),
            ),
            Output::OpReturn(op_return) => op_return.spec_script(),
            Output::TradeOffer(offer) => offer.spec_script(),
            Output::AscendingNonce(nonce) => nonce.spec_script(),
            Output::P2PKHDropN(drop) => drop.spec_script(),
        }
    }

    /// Whether the output can be spent at all: a data carrier cannot.
    pub open spec fn signable(&self) -> bool {
        !(self is OpReturn)
    }

    /// The script that a signature covers when the output is spent: the
    /// locking script, and for a script hash the script that is hashed.
    pub open spec fn spec_script_code(&self) -> ScriptView {
        match self {
            Output::P2SH(p2sh) => p2sh.output.spec_script(),
            _ => self.spec_script(),
        }
    }

    /// Whether the unlocking script can be built for this signature and
    /// these outputs of the spending transaction.
    pub open spec fn can_sign(&self, sig: Seq<u8>, outputs: Seq<TxOutputView>) -> bool
        decreases self,
    {
        match self {
            Output::P2PKH(_) => true,
            Output::P2SH(p2sh) => p2sh.output.wf() && p2sh.output.can_sign(sig, outputs),
            Output::OpReturn(_) => false,
            Output::TradeOffer(offer) => offer.can_sign(sig, outputs),
            Output::AscendingNonce(nonce) => nonce.can_sign(sig, outputs),
            Output::P2PKHDropN(drop) => drop.can_sign(),
        }
    }

    /// The unlocking script. For a script hash it is that of the output whose
    /// script is hashed, with a push of that script behind it.
    pub open spec fn spec_sig_script(
        &self,
        sig: Seq<u8>,
        pub_key: Seq<u8>,
        pre_image: PreImageView,
        outputs: Seq<TxOutputView>,
    ) -> ScriptView
        decreases self,
    {
        match self {
            Output::P2PKH(_) => ScriptView::new(p2pkh_sig_ops(sig, pub_key)),
            Output::P2SH(p2sh) => {
                let inner = p2sh.output.spec_sig_script(sig, pub_key, pre_image, outputs);
                ScriptView {
                    ops: inner.ops.push(push(p2sh.output.spec_script().wire())),
                    serialized: None,
                    ..inner
                }
            },
            Output::OpReturn(_) => ScriptView::new(Seq::empty()),
            Output::TradeOffer(offer) => offer.spec_sig_script(sig, pub_key, pre_image, outputs),
            Output::AscendingNonce(nonce) => nonce.spec_sig_script(
                sig,
                pub_key,
                pre_image,
                outputs,
            ),
            Output::P2PKHDropN(drop) => drop.spec_sig_script(sig, pub_key),
        }
    }

    /// The amount.
    pub fn value(&self) -> (value: u64)
        ensures
            value == self.spec_value(),
        decreases self,
    {
        match self {
            Output::P2PKH(p2pkh) => p2pkh.value(),
            Output::P2SH(p2sh) => p2sh.output.value(),
            Output::OpReturn(op_return) => op_return.value(),
            Output::TradeOffer(offer) => offer.value(),
            Output::AscendingNonce(nonce) => nonce.value(),
            Output::P2PKHDropN(drop) => drop.value(),
        }
    }

    /// The locking script.
    pub fn script(&self) -> (script: Script)
        requires
            self.wf(),
        ensures
            script@ == self.spec_script(),
            script@.encodable(),
        decreases self,
    {
        match self {
            Output::P2PKH(p2pkh) => p2pkh.script(),
            Output::P2SH(p2sh) => {
                let inner = p2sh.output.script().to_vec();
                let mut ops = new_ops();
                push_code(&mut ops, OpCodeType::OpHash160);
                push_data(&mut ops, vstd::slice::slice_to_vec(hash160(inner.as_slice()).as_slice()));
                push_code(&mut ops, OpCodeType::OpEqual);
                Script::new(ops)
            },
            Output::OpReturn(op_return) => op_return.script(),
            Output::TradeOffer(offer) => offer.script(),
            Output::AscendingNonce(nonce) => nonce.script(),
            Output::P2PKHDropN(drop) => drop.script(),
        }
    }

    /// The script that a signature covers when the output is spent.
    pub fn script_code(&self) -> (script: Script)
        requires
            self.wf(),
            self.signable(),
        ensures
            script@ == self.spec_script_code(),
            script@.encodable(),
    {
        match self {
            Output::P2SH(p2sh) => p2sh.output.script(),
            _ => self.script(),
        }
    }

    /// The unlocking script.
    pub fn sig_script(
        &self,
        serialized_sig: Vec<u8>,
        serialized_pub_key: Vec<u8>,
        pre_image: &PreImage,
        outputs: &[TxOutput],
    ) -> (script: Script)
        requires
            self.can_sign(serialized_sig@, view_outputs(outputs@)),
        ensures
            script@ == self.spec_sig_script(
                serialized_sig@,
                serialized_pub_key@,
                pre_image@,
                view_outputs(outputs@),
            ),
        decreases self,
    {
        match self {
            Output::P2PKH(p2pkh) => p2pkh.sig_script(
                serialized_sig,
                serialized_pub_key,
                pre_image,
                outputs,
            ),
            Output::P2SH(p2sh) => {
                let mut script = p2sh.output.sig_script(
                    serialized_sig,
                    serialized_pub_key,
                    pre_image,
                    outputs,
                );
                script.add_op(Op::Push(p2sh.output.script().to_vec()));
                script
            },
            Output::OpReturn(op_return) => {
                proof {
                    assert(false);
                }
                op_return.script()
            },
            Output::TradeOffer(offer) => offer.sig_script(
                serialized_sig,
                serialized_pub_key,
                pre_image,
                outputs,
            ),
            Output::AscendingNonce(nonce) => nonce.sig_script(
                serialized_sig,
                serialized_pub_key,
                pre_image,
                outputs,
            ),
            Output::P2PKHDropN(drop) => drop.sig_script(
                serialized_sig,
                serialized_pub_key,
                pre_image,
                outputs,
            ),
        }
    }

    /// The output as it stands in a transaction.
    pub fn to_output(&self) -> (output: TxOutput)
        requires
            self.wf(),
        ensures
            output@ == (TxOutputView { value: self.spec_value(), script: self.spec_script() }),
    {
        TxOutput { value: self.value(), script: self.script() }
    }
}

impl P2SHOutput {
    /// The amount: that of the output whose script is hashed.
    pub fn value(&self) -> (value: u64)
        ensures
            value == self.output.spec_value(),
    {
        self.output.value()
    }

    /// The locking script: `OP_HASH160 <hash> OP_EQUAL` with the hash of the
    /// script of the output inside.
    pub fn script(&self) -> (script: Script)
        requires
            self.output.wf(),
        ensures
            script@ == ScriptView::new(p2sh_ops(spec_hash160(self.output.spec_script().wire())@)),
            script@.encodable(),
    {
        let inner = self.output.script().to_vec();
        let mut ops = new_ops();
        push_code(&mut ops, OpCodeType::OpHash160);
        push_data(&mut ops, vstd::slice::slice_to_vec(hash160(inner.as_slice()).as_slice()));
        push_code(&mut ops, OpCodeType::OpEqual);
        Script::new(ops)
    }

    /// The script that a signature covers: the script that is hashed.
    pub fn script_code(&self) -> (script: Script)
        requires
            self.output.wf(),
        ensures
            script@ == self.output.spec_script(),
            script@.encodable(),
    {
        self.output.script()
    }

    /// The unlocking script: that of the output inside, and a push of its
    /// locking script.
    pub fn sig_script(
        &self,
        serialized_sig: Vec<u8>,
        serialized_pub_key: Vec<u8>,
        pre_image: &PreImage,
        outputs: &[TxOutput],
    ) -> (script: Script)
        requires
            self.output.wf(),
            self.output.can_sign(serialized_sig@, view_outputs(outputs@)),
        ensures
            script@ == (ScriptView {
                ops: self.output.spec_sig_script(
                    serialized_sig@,
                    serialized_pub_key@,
                    pre_image@,
                    view_outputs(outputs@),
                ).ops.push(push(self.output.spec_script().wire())),
                serialized: None,
                ..self.output.spec_sig_script(
                    serialized_sig@,
                    serialized_pub_key@,
                    pre_image@,
                    view_outputs(outputs@),
                )
            }),
    {
        let mut script = self.output.sig_script(
            serialized_sig,
            serialized_pub_key,
            pre_image,
            outputs,
        );
        script.add_op(Op::Push(self.output.script().to_vec()));
        script
    }

    /// The output as it stands in a transaction.
    pub fn to_output(&self) -> (output: TxOutput)
        requires
            self.output.wf(),
        ensures
            output@ == (TxOutputView {
                value: self.output.spec_value(),
                script: ScriptView::new(
                    p2sh_ops(spec_hash160(self.output.spec_script().wire())@),
                ),
            }),
    {
        TxOutput { value: self.value(), script: self.script() }
    }
}

} // verus!
