//! That what the builder makes can be written and read back.

use crate::advanced_trade_offer::{
    AdvancedTradeOffer, AdvancedTradeOfferSpendParams, P2PKHDropNOutput,
};
use crate::outputs::{p2pkh_sig_ops, view_pushes, Output};
use crate::p2_ascending_nonce::P2AscendingNonce;
use crate::script::{lemma_plain_script_readable, OpView};
use crate::serialize::InvalidData;
use crate::tx::{lemma_tx_round_trip, parse_tx, TxOutputView, TxView};
use crate::unsigned_tx::{PreImageView, UnsignedTxView};
use vstd::prelude::*;

verus! {

/// Whether every element is a push.
pub open spec fn all_pushes(ops: Seq<OpView>) -> bool {
    forall|i: int| 0 <= i < ops.len() ==> (#[trigger] ops[i]) is Push
}

/// The unlocking script of a trade offer is made of pushes.
proof fn lemma_trade_offer_pushes(
    offer: &AdvancedTradeOffer,
    sig: Seq<u8>,
    pub_key: Seq<u8>,
    pre_image: PreImageView,
    outputs: Seq<TxOutputView>,
)
    ensures
        all_pushes(offer.spec_sig_script(sig, pub_key, pre_image, outputs).ops),
        offer.spec_sig_script(sig, pub_key, pre_image, outputs).serialized is None,
{
    let ops = offer.spec_sig_script(sig, pub_key, pre_image, outputs).ops;
    if offer.spend_params == Some(AdvancedTradeOfferSpendParams::Cancel) {
        assert(ops.len() == 3);
        assert(ops[0] is Push && ops[1] is Push && ops[2] is Push);
    } else {
        assert(ops.len() == 14);
        assert(ops[0] is Push && ops[1] is Push && ops[2] is Push && ops[3] is Push);
        assert(ops[4] is Push && ops[5] is Push && ops[6] is Push && ops[7] is Push);
        assert(ops[8] is Push && ops[9] is Push && ops[10] is Push && ops[11] is Push);
        assert(ops[12] is Push && ops[13] is Push);
    }
}

/// The unlocking script of an ascending nonce output is made of pushes.
proof fn lemma_nonce_pushes(
    nonce: &P2AscendingNonce,
    sig: Seq<u8>,
    pub_key: Seq<u8>,
    pre_image: PreImageView,
    outputs: Seq<TxOutputView>,
)
    ensures
        all_pushes(nonce.spec_sig_script(sig, pub_key, pre_image, outputs).ops),
        nonce.spec_sig_script(sig, pub_key, pre_image, outputs).serialized is None,
{
    let ops = nonce.spec_sig_script(sig, pub_key, pre_image, outputs).ops;
    let through_covenant = nonce.spend_params matches Some(params) && !(params is P2pk);
    if through_covenant {
        assert(ops.len() == 13);
        assert(ops[0] is Push && ops[1] is Push && ops[2] is Push && ops[3] is Push);
        assert(ops[4] is Push && ops[5] is Push && ops[6] is Push && ops[7] is Push);
        assert(ops[8] is Push && ops[9] is Push && ops[10] is Push && ops[11] is Push);
        assert(ops[12] is Push);
    } else {
        assert(ops.len() == 2);
        assert(ops[0] is Push && ops[1] is Push);
    }
}

/// The unlocking script of a key hash output that drops items is made of
/// pushes.
proof fn lemma_drop_pushes(drop: &P2PKHDropNOutput, sig: Seq<u8>, pub_key: Seq<u8>)
    ensures
        all_pushes(drop.spec_sig_script(sig, pub_key).ops),
        drop.spec_sig_script(sig, pub_key).serialized is None,
{
    let ops = drop.spec_sig_script(sig, pub_key).ops;
    let n = view_pushes(drop.push_data.unwrap()@).len() as int;
    assert(ops.len() == n + 2);
    assert(ops[n] is Push && ops[n + 1] is Push);
}

/// The unlocking script of any output is made of pushes and keeps no bytes
/// from reading.
pub proof fn lemma_sig_script_pushes(
    output: &Output,
    sig: Seq<u8>,
    pub_key: Seq<u8>,
    pre_image: PreImageView,
    outputs: Seq<TxOutputView>,
)
    ensures
        all_pushes(output.spec_sig_script(sig, pub_key, pre_image, outputs).ops),
        output.spec_sig_script(sig, pub_key, pre_image, outputs).serialized is None,
    decreases output,
{
    match output {
        Output::P2PKH(_) => {
            let ops = p2pkh_sig_ops(sig, pub_key);
            assert(ops.len() == 2);
            assert(ops[0] is Push && ops[1] is Push);
        },
        Output::P2SH(p2sh) => {
            lemma_sig_script_pushes(&*p2sh.output, sig, pub_key, pre_image, outputs);
        },
        Output::OpReturn(_) => {},
        Output::TradeOffer(offer) => {
            lemma_trade_offer_pushes(offer, sig, pub_key, pre_image, outputs);
        },
        Output::AscendingNonce(nonce) => {
            lemma_nonce_pushes(nonce, sig, pub_key, pre_image, outputs);
        },
        Output::P2PKHDropN(drop) => {
            lemma_drop_pushes(drop, sig, pub_key);
        },
    }
}

/// A signed transaction that can be written, and whose outputs have scripts
/// that can be read, is read back from its wire form, whatever follows it, and
/// what is read has the same wire form: writing it gives the same bytes again.
pub proof fn lemma_signed_round_trip(
    tx: UnsignedTxView,
    sigs: Seq<Seq<u8>>,
    pub_keys: Seq<Seq<u8>>,
    rest: Seq<u8>,
)
    requires
        tx.signed(sigs, pub_keys).wf(),
        forall|i: int| 0 <= i < tx.outputs.len() ==> (#[trigger] tx.outputs[i]).readable(),
    ensures
        parse_tx(tx.signed(sigs, pub_keys).wire() + rest) == Ok::<(TxView, nat), InvalidData>(
            (tx.signed(sigs, pub_keys).reread(), tx.signed(sigs, pub_keys).wire().len()),
        ),
        tx.signed(sigs, pub_keys).reread().wire() == tx.signed(sigs, pub_keys).wire(),
{
    let signed = tx.signed(sigs, pub_keys);
    assert forall|i: int| 0 <= i < signed.inputs.len() implies (#[trigger] signed.inputs[i]).readable() by {
        let script = signed.inputs[i].script;
        lemma_sig_script_pushes(
            &tx.inputs[i].output,
            sigs[i].push(0x41u8),
            pub_keys[i],
            tx.pre_image(i, 0x41),
            tx.outputs,
        );
        assert(signed.inputs[i].wf());
        assert forall|k: int| 0 <= k < script.ops.len() implies (#[trigger] script.ops[k]).plain() by {
            assert(script.ops[k] is Push);
            assert(script.ops[k].encodable());
        }
        lemma_plain_script_readable(script);
    }
    lemma_tx_round_trip(signed, rest);
}

} // verus!
