//! How long what is written gets, and that the size reckoned for a
//! transaction bounds the size it has when it is signed.

use crate::advanced_trade_offer::{
    middle_fields, prefix_fields, suffix_fields, AdvancedTradeOffer,
    AdvancedTradeOfferSpendParams, P2PKHDropNOutput,
};
use crate::outputs::{p2pkh_sig_ops, view_pushes, Output};
use crate::p2_ascending_nonce::P2AscendingNonce;
use crate::script::{lemma_ops_wire_push, ops_wire, push, OpView, ScriptView};
use crate::serialize::{lemma_le_bytes_len, spec_var_int, spec_var_str};
use crate::tx::{inputs_wire, outputs_wire, TxInputView, TxOutputView};
use crate::unsigned_tx::{field, zeros, PreImageView, UnsignedTxView};
use vstd::prelude::*;

verus! {

/// The length of the wire form of a push of `n` bytes that is not shortened
/// to an opcode.
pub open spec fn push_len(n: nat) -> nat {
    if n <= 0x4b {
        n + 1
    } else if n <= 0xff {
        n + 2
    } else if n <= 0xffff {
        n + 3
    } else {
        n + 5
    }
}

/// Whether the hashes of a pre-image have 32 bytes each.
pub open spec fn sized(pre_image: PreImageView) -> bool {
    &&& pre_image.hash_prevouts.len() == 32
    &&& pre_image.hash_sequence.len() == 32
    &&& pre_image.hash_outputs.len() == 32
    &&& pre_image.outpoint.tx_hash.len() == 32
}

/// A push written with minimal pushes is no longer than its bytes and their
/// length need, and exactly as long unless it is one byte from 1 to 16.
pub proof fn lemma_push_wire_len(v: Seq<u8>)
    ensures
        push(v).wire(true).len() <= push_len(v.len()),
        !(v.len() == 1 && 1 <= v[0] <= 16) ==> push(v).wire(true).len() == push_len(v.len()),
{
    lemma_le_bytes_len(v.len(), 2);
    lemma_le_bytes_len(v.len(), 4);
}

/// A push of no more bytes than `n` zero bytes is no longer than theirs.
pub proof fn lemma_push_le_zeros(v: Seq<u8>, n: nat)
    requires
        v.len() <= n,
    ensures
        push(v).wire(true).len() <= push(zeros(n)).wire(true).len(),
{
    lemma_push_wire_len(v);
    lemma_push_wire_len(zeros(n));
}

/// Two pushes of the same length, not one, are equally long.
pub proof fn lemma_push_same_len(v: Seq<u8>, w: Seq<u8>)
    requires
        v.len() == w.len(),
        v.len() != 1,
    ensures
        push(v).wire(true).len() == push(w).wire(true).len(),
{
    lemma_push_wire_len(v);
    lemma_push_wire_len(w);
}

/// Elements that are one by one no longer make a wire form that is no longer.
pub proof fn lemma_ops_wire_len_le(a: Seq<OpView>, b: Seq<OpView>, is_minimal_push: bool)
    requires
        a.len() == b.len(),
        forall|i: int|
            0 <= i < a.len() ==> (#[trigger] a[i]).wire(is_minimal_push).len() <= b[i].wire(
                is_minimal_push,
            ).len(),
    ensures
        ops_wire(a, is_minimal_push).len() <= ops_wire(b, is_minimal_push).len(),
    decreases a.len(),
{
    if a.len() > 0 {
        assert forall|i: int| 0 <= i < a.drop_last().len() implies (#[trigger] a.drop_last()[i]).wire(
            is_minimal_push,
        ).len() <= b.drop_last()[i].wire(is_minimal_push).len() by {
            assert(a[i].wire(is_minimal_push).len() <= b[i].wire(is_minimal_push).len());
        }
        lemma_ops_wire_len_le(a.drop_last(), b.drop_last(), is_minimal_push);
        assert(a[a.len() - 1].wire(is_minimal_push).len() <= b[a.len() - 1].wire(
            is_minimal_push,
        ).len());
    }
}

/// The parts of a pre-image that the covenants push are 104, 12 and 8 bytes
/// long.
pub proof fn lemma_pre_image_parts(pre_image: PreImageView)
    requires
        sized(pre_image),
    ensures
        pre_image.wire_flags(prefix_fields()).len() == 104,
        pre_image.wire_flags(middle_fields()).len() == 12,
        pre_image.wire_flags(suffix_fields()).len() == 8,
{
    reveal(field);
    lemma_le_bytes_len(crate::serialize::i32_bits(pre_image.version), 4);
    lemma_le_bytes_len(pre_image.outpoint.vout as nat, 4);
    lemma_le_bytes_len(pre_image.value as nat, 8);
    lemma_le_bytes_len(pre_image.sequence as nat, 4);
    lemma_le_bytes_len(pre_image.lock_time as nat, 4);
    lemma_le_bytes_len(pre_image.sighash_type as nat, 4);
}

/// Whether two lists of outputs hold the same scripts in the same places;
/// the amounts may differ.
pub open spec fn same_scripts(a: Seq<TxOutputView>, b: Seq<TxOutputView>) -> bool {
    &&& a.len() == b.len()
    &&& forall|i: int| 0 <= i < a.len() ==> (#[trigger] a[i]).script == b[i].script
}

/// Outputs with the same scripts have wire forms of the same length, which is
/// not 1.
pub proof fn lemma_outputs_wire_same_len(a: Seq<TxOutputView>, b: Seq<TxOutputView>)
    requires
        same_scripts(a, b),
    ensures
        outputs_wire(a).len() == outputs_wire(b).len(),
        outputs_wire(a).len() != 1,
    decreases a.len(),
{
    if a.len() > 0 {
        assert forall|i: int| 0 <= i < a.drop_last().len() implies (#[trigger] a.drop_last()[i]).script
            == b.drop_last()[i].script by {
            assert(a[i].script == b[i].script);
        }
        lemma_outputs_wire_same_len(a.drop_last(), b.drop_last());
        assert(a[a.len() - 1].script == b[a.len() - 1].script);
        lemma_le_bytes_len(a.last().value as nat, 8);
        lemma_le_bytes_len(b.last().value as nat, 8);
    }
}

/// Parts of outputs with the same scripts are pushed in the same length.
pub proof fn lemma_outputs_push_same_len(
    a: Seq<TxOutputView>,
    b: Seq<TxOutputView>,
    from: int,
    to: int,
)
    requires
        same_scripts(a, b),
        0 <= from <= to <= a.len(),
    ensures
        push(outputs_wire(a.subrange(from, to))).wire(true).len() == push(
            outputs_wire(b.subrange(from, to)),
        ).wire(true).len(),
{
    let x = a.subrange(from, to);
    let y = b.subrange(from, to);
    assert forall|i: int| 0 <= i < x.len() implies (#[trigger] x[i]).script == y[i].script by {
        assert(a[from + i].script == b[from + i].script);
    }
    lemma_outputs_wire_same_len(x, y);
    lemma_push_same_len(outputs_wire(x), outputs_wire(y));
}

/// The unlocking script of a trade offer is no longer than it is reckoned.
proof fn lemma_trade_offer_len(
    offer: &AdvancedTradeOffer,
    sig: Seq<u8>,
    pub_key: Seq<u8>,
    pre_image: PreImageView,
    reckoned: PreImageView,
    outputs: Seq<TxOutputView>,
    others: Seq<TxOutputView>,
)
    requires
        1 <= sig.len() <= 73,
        pub_key.len() <= 33,
        sized(pre_image),
        sized(reckoned),
        same_scripts(outputs, others),
        offer.can_sign(zeros(73), others),
    ensures
        offer.spec_sig_script(sig, pub_key, pre_image, outputs).wire().len()
            <= offer.spec_sig_script(zeros(73), zeros(33), reckoned, others).wire().len(),
        offer.spec_sig_script(sig, pub_key, pre_image, outputs).serialized is None,
        offer.spec_sig_script(zeros(73), zeros(33), reckoned, others).serialized is None,
        offer.spec_sig_script(sig, pub_key, pre_image, outputs).is_minimal_push,
        offer.spec_sig_script(zeros(73), zeros(33), reckoned, others).is_minimal_push,
{
    let a = offer.spec_sig_script(sig, pub_key, pre_image, outputs).ops;
    let b = offer.spec_sig_script(zeros(73), zeros(33), reckoned, others).ops;
    lemma_pre_image_parts(pre_image);
    lemma_pre_image_parts(reckoned);
    lemma_push_le_zeros(sig, 73);
    lemma_push_le_zeros(pub_key, 33);
    if offer.spend_params == Some(AdvancedTradeOfferSpendParams::Cancel) {
        assert(a.len() == 3 && b.len() == 3);
        assert(a[0] == push(sig) && b[0] == push(zeros(73)));
        assert(a[1] == push(pub_key) && b[1] == push(zeros(33)));
        assert(a[2] == b[2]);
    } else {
        let code = offer.spec_script().sig_wire();
        assert(a.len() == 14 && b.len() == 14);
        assert(a[0] == b[0] && a[1] == b[1] && a[2] == b[2] && a[3] == b[3] && a[4] == b[4]);
        assert(a[5] == push(pub_key) && b[5] == push(zeros(33)));
        assert(a[6] == push(sig.drop_last()) && b[6] == push(zeros(73).drop_last()));
        assert(zeros(73).drop_last() =~= zeros(72));
        lemma_push_le_zeros(sig.drop_last(), 72);
        lemma_push_same_len(
            pre_image.wire_flags(prefix_fields()) + spec_var_int(code.len() as u64),
            reckoned.wire_flags(prefix_fields()) + spec_var_int(code.len() as u64),
        );
        assert(a[7] == push(
            pre_image.wire_flags(prefix_fields()) + spec_var_int(code.len() as u64),
        ));
        assert(b[7] == push(
            reckoned.wire_flags(prefix_fields()) + spec_var_int(code.len() as u64),
        ));
        assert(a[8] == b[8]);
        lemma_push_same_len(
            pre_image.wire_flags(middle_fields()),
            reckoned.wire_flags(middle_fields()),
        );
        assert(a[9] == push(pre_image.wire_flags(middle_fields())));
        assert(b[9] == push(reckoned.wire_flags(middle_fields())));
        lemma_push_same_len(
            pre_image.wire_flags(suffix_fields()),
            reckoned.wire_flags(suffix_fields()),
        );
        assert(a[10] == push(pre_image.wire_flags(suffix_fields())));
        assert(b[10] == push(reckoned.wire_flags(suffix_fields())));
        let from = offer.spec_outputs_skipped();
        let to = outputs.len() - offer.spec_outputs_cut();
        lemma_outputs_push_same_len(outputs, others, from, to);
        assert(a[11] == push(outputs_wire(outputs.subrange(from, to))));
        assert(b[11] == push(outputs_wire(others.subrange(from, to))));
        assert(a[12] == b[12] && a[13] == b[13]);
    }
    lemma_ops_wire_len_le(a, b, true);
}

/// The unlocking script of an ascending nonce output is no longer than it is
/// reckoned.
proof fn lemma_nonce_len(
    nonce: &P2AscendingNonce,
    sig: Seq<u8>,
    pub_key: Seq<u8>,
    pre_image: PreImageView,
    reckoned: PreImageView,
    outputs: Seq<TxOutputView>,
    others: Seq<TxOutputView>,
)
    requires
        1 <= sig.len() <= 73,
        pub_key.len() <= 33,
        sized(pre_image),
        sized(reckoned),
        same_scripts(outputs, others),
        nonce.can_sign(zeros(73), others),
    ensures
        nonce.spec_sig_script(sig, pub_key, pre_image, outputs).wire().len()
            <= nonce.spec_sig_script(zeros(73), zeros(33), reckoned, others).wire().len(),
        nonce.spec_sig_script(sig, pub_key, pre_image, outputs).serialized is None,
        nonce.spec_sig_script(zeros(73), zeros(33), reckoned, others).serialized is None,
        nonce.spec_sig_script(sig, pub_key, pre_image, outputs).is_minimal_push,
        nonce.spec_sig_script(zeros(73), zeros(33), reckoned, others).is_minimal_push,
{
    let a = nonce.spec_sig_script(sig, pub_key, pre_image, outputs).ops;
    let b = nonce.spec_sig_script(zeros(73), zeros(33), reckoned, others).ops;
    lemma_pre_image_parts(pre_image);
    lemma_pre_image_parts(reckoned);
    lemma_push_le_zeros(sig, 73);
    lemma_push_le_zeros(pub_key, 33);
    let through_covenant = nonce.spend_params matches Some(params)
        && !(params is P2pk);
    if through_covenant {
        let code = nonce.spec_script().sig_wire();
        assert(a.len() == 13 && b.len() == 13);
        assert(a[0] == b[0] && a[1] == b[1]);
        let from = nonce.spec_outputs_skipped();
        lemma_outputs_push_same_len(outputs, others, from, outputs.len() as int);
        assert(outputs.subrange(from, outputs.len() as int) =~= outputs.skip(from));
        assert(others.subrange(from, outputs.len() as int) =~= others.skip(from));
        assert(a[2] == push(outputs_wire(outputs.skip(from))));
        assert(b[2] == push(outputs_wire(others.skip(from))));
        assert(a[3] == push(pub_key) && b[3] == push(zeros(33)));
        assert(a[4] == push(sig.drop_last()) && b[4] == push(zeros(73).drop_last()));
        assert(zeros(73).drop_last() =~= zeros(72));
        lemma_push_le_zeros(sig.drop_last(), 72);
        let tail = spec_var_int(code.len() as u64) + code.take(9);
        assert(pre_image.wire_flags(prefix_fields()) + spec_var_int(code.len() as u64) + code.take(
            9,
        ) =~= pre_image.wire_flags(prefix_fields()) + tail);
        assert(reckoned.wire_flags(prefix_fields()) + spec_var_int(code.len() as u64) + code.take(
            9,
        ) =~= reckoned.wire_flags(prefix_fields()) + tail);
        lemma_push_same_len(
            pre_image.wire_flags(prefix_fields()) + tail,
            reckoned.wire_flags(prefix_fields()) + tail,
        );
        assert(a[5] == push(pre_image.wire_flags(prefix_fields()) + tail));
        assert(b[5] == push(reckoned.wire_flags(prefix_fields()) + tail));
        lemma_push_same_len(
            pre_image.wire_flags(suffix_fields()),
            reckoned.wire_flags(suffix_fields()),
        );
        assert(a[6] == push(pre_image.wire_flags(suffix_fields())));
        assert(b[6] == push(reckoned.wire_flags(suffix_fields())));
        assert(a[7] == b[7] && a[8] == b[8] && a[9] == b[9] && a[10] == b[10] && a[11] == b[11]
            && a[12] == b[12]);
    } else {
        assert(a.len() == 2 && b.len() == 2);
        assert(a[0] == push(sig) && b[0] == push(zeros(73)));
        assert(a[1] == b[1]);
    }
    lemma_ops_wire_len_le(a, b, true);
}

/// The unlocking script of a key hash output that drops items is no longer
/// than it is reckoned.
proof fn lemma_drop_len(drop: &P2PKHDropNOutput, sig: Seq<u8>, pub_key: Seq<u8>)
    requires
        sig.len() <= 73,
        pub_key.len() <= 33,
    ensures
        drop.spec_sig_script(sig, pub_key).wire().len() <= drop.spec_sig_script(
            zeros(73),
            zeros(33),
        ).wire().len(),
        drop.spec_sig_script(sig, pub_key).serialized is None,
        drop.spec_sig_script(zeros(73), zeros(33)).serialized is None,
        drop.spec_sig_script(sig, pub_key).is_minimal_push,
        drop.spec_sig_script(zeros(73), zeros(33)).is_minimal_push,
{
    let a = drop.spec_sig_script(sig, pub_key).ops;
    let b = drop.spec_sig_script(zeros(73), zeros(33)).ops;
    let n = view_pushes(drop.push_data.unwrap()@).len() as int;
    lemma_push_le_zeros(sig, 73);
    lemma_push_le_zeros(pub_key, 33);
    assert(a.len() == n + 2 && b.len() == n + 2);
    assert(a[n] == push(sig) && b[n] == push(zeros(73)));
    assert(a[n + 1] == push(pub_key) && b[n + 1] == push(zeros(33)));
    assert forall|i: int| 0 <= i < a.len() implies (#[trigger] a[i]).wire(true).len() <= b[i].wire(
        true,
    ).len() by {
        if i < n {
            assert(a[i] == b[i]);
        }
    }
    lemma_ops_wire_len_le(a, b, true);
}

/// The unlocking script of a key hash output is no longer than it is
/// reckoned.
proof fn lemma_p2pkh_len(sig: Seq<u8>, pub_key: Seq<u8>)
    requires
        sig.len() <= 73,
        pub_key.len() <= 33,
    ensures
        ScriptView::new(p2pkh_sig_ops(sig, pub_key)).wire().len() <= ScriptView::new(
            p2pkh_sig_ops(zeros(73), zeros(33)),
        ).wire().len(),
{
    let a = p2pkh_sig_ops(sig, pub_key);
    let b = p2pkh_sig_ops(zeros(73), zeros(33));
    lemma_push_le_zeros(sig, 73);
    lemma_push_le_zeros(pub_key, 33);
    assert(a.len() == 2 && b.len() == 2);
    assert(a[0] == push(sig) && a[1] == push(pub_key));
    assert(b[0] == push(zeros(73)) && b[1] == push(zeros(33)));
    lemma_ops_wire_len_le(a, b, true);
}

/// The unlocking script of any output, built from a signature of at most 73
/// bytes with the byte of its kind and a key of at most 33 bytes, is no longer
/// than the one that is reckoned for the size, whatever the pre-images hold and
/// whatever the amounts of the outputs are; both are written from their
/// elements, with minimal pushes.
pub proof fn lemma_sig_script_len(
    output: &Output,
    sig: Seq<u8>,
    pub_key: Seq<u8>,
    pre_image: PreImageView,
    reckoned: PreImageView,
    outputs: Seq<TxOutputView>,
    others: Seq<TxOutputView>,
)
    requires
        1 <= sig.len() <= 73,
        pub_key.len() <= 33,
        sized(pre_image),
        sized(reckoned),
        same_scripts(outputs, others),
        output.can_sign(zeros(73), others),
    ensures
        output.spec_sig_script(sig, pub_key, pre_image, outputs).wire().len()
            <= output.spec_sig_script(zeros(73), zeros(33), reckoned, others).wire().len(),
        output.spec_sig_script(sig, pub_key, pre_image, outputs).serialized is None,
        output.spec_sig_script(zeros(73), zeros(33), reckoned, others).serialized is None,
        output.spec_sig_script(sig, pub_key, pre_image, outputs).is_minimal_push,
        output.spec_sig_script(zeros(73), zeros(33), reckoned, others).is_minimal_push,
    decreases output,
{
    match output {
        Output::P2PKH(_) => {
            lemma_p2pkh_len(sig, pub_key);
        },
        Output::P2SH(p2sh) => {
            lemma_sig_script_len(
                &*p2sh.output,
                sig,
                pub_key,
                pre_image,
                reckoned,
                outputs,
                others,
            );
            let inner_a = p2sh.output.spec_sig_script(sig, pub_key, pre_image, outputs);
            let inner_b = p2sh.output.spec_sig_script(zeros(73), zeros(33), reckoned, others);
            let last = push(p2sh.output.spec_script().wire());
            lemma_ops_wire_push(inner_a.ops, last, true);
            lemma_ops_wire_push(inner_b.ops, last, true);
        },
        Output::OpReturn(_) => {},
        Output::TradeOffer(offer) => {
            lemma_trade_offer_len(offer, sig, pub_key, pre_image, reckoned, outputs, others);
        },
        Output::AscendingNonce(nonce) => {
            lemma_nonce_len(nonce, sig, pub_key, pre_image, reckoned, outputs, others);
        },
        Output::P2PKHDropN(drop) => {
            lemma_drop_len(drop, sig, pub_key);
        },
    }
}

/// A compact size has 1, 3, 5 or 9 bytes, and a greater number has no fewer.
pub proof fn lemma_var_int_len(a: u64, b: u64)
    requires
        a <= b,
    ensures
        1 <= spec_var_int(a).len() <= spec_var_int(b).len() <= 9,
{
    lemma_le_bytes_len(a as nat, 2);
    lemma_le_bytes_len(a as nat, 4);
    lemma_le_bytes_len(a as nat, 8);
    lemma_le_bytes_len(b as nat, 2);
    lemma_le_bytes_len(b as nat, 4);
    lemma_le_bytes_len(b as nat, 8);
}

/// A shorter string behind its length is shorter.
pub proof fn lemma_var_str_len_le(a: Seq<u8>, b: Seq<u8>)
    requires
        a.len() <= b.len() <= u64::MAX,
    ensures
        spec_var_str(a).len() <= spec_var_str(b).len(),
{
    lemma_var_int_len(a.len() as u64, b.len() as u64);
}

/// No more inputs that are one by one no longer make a wire form that is no
/// longer.
pub proof fn lemma_inputs_wire_len_le(a: Seq<TxInputView>, b: Seq<TxInputView>)
    requires
        a.len() <= b.len(),
        forall|i: int| 0 <= i < a.len() ==> (#[trigger] a[i]).wire().len() <= b[i].wire().len(),
    ensures
        inputs_wire(a).len() <= inputs_wire(b).len(),
    decreases b.len(),
{
    if b.len() > 0 {
        if a.len() == b.len() {
            assert forall|i: int| 0 <= i < a.drop_last().len() implies (
            #[trigger] a.drop_last()[i]).wire().len() <= b.drop_last()[i].wire().len() by {
                assert(a[i].wire().len() <= b[i].wire().len());
            }
            lemma_inputs_wire_len_le(a.drop_last(), b.drop_last());
            assert(a[a.len() - 1].wire().len() <= b[a.len() - 1].wire().len());
        } else {
            assert forall|i: int| 0 <= i < a.len() implies (#[trigger] a[i]).wire().len()
                <= b.drop_last()[i].wire().len() by {
                assert(a[i].wire().len() <= b[i].wire().len());
            }
            lemma_inputs_wire_len_le(a, b.drop_last());
        }
    }
}

/// The size that is reckoned for a transaction is no less than the size it
/// has when it is signed, and two bytes more: for every transaction whose size
/// can be reckoned, and every choice of signatures of at most 72 bytes and of
/// public keys of at most 33.
pub proof fn lemma_estimate_bounds_signed(
    tx: UnsignedTxView,
    sigs: Seq<Seq<u8>>,
    pub_keys: Seq<Seq<u8>>,
)
    requires
        tx.can_estimate(),
        forall|i: int|
            0 <= i < tx.signed_count(sigs, pub_keys) ==> (#[trigger] sigs[i]).len() <= 72
                && pub_keys[i].len() <= 33,
    ensures
        tx.signed(sigs, pub_keys).wire().len() + 2 <= tx.estimate_size(),
{
    reveal(UnsignedTxView::can_estimate);
    reveal(UnsignedTxView::estimate_size);
    let signed = tx.signed(sigs, pub_keys);
    let reckoned = tx.estimate_tx();
    let count = tx.signed_count(sigs, pub_keys);
    assert forall|i: int| 0 <= i < signed.inputs.len() implies (#[trigger] signed.inputs[i]).wire().len()
        <= reckoned.inputs[i].wire().len() by {
        let output = &tx.inputs[i].output;
        let sig = sigs[i].push(0x41u8);
        assert(sigs[i].len() <= 72);
        let pre_image = tx.pre_image(i, 0x41);
        let empty = crate::unsigned_tx::empty_pre_image(output.spec_script_code());
        assert(forall|k: int| 0 <= k < tx.outputs.len() ==> (#[trigger] tx.outputs[k]).script
            == tx.outputs[k].script);
        lemma_sig_script_len(output, sig, pub_keys[i], pre_image, empty, tx.outputs, tx.outputs);
        let a = signed.inputs[i].script;
        let b = reckoned.inputs[i].script;
        assert(a == output.spec_sig_script(sig, pub_keys[i], pre_image, tx.outputs));
        assert(b == output.spec_sig_script(zeros(73), zeros(33), empty, tx.outputs));
        assert(reckoned.inputs[i].wf());
        lemma_var_str_len_le(a.wire(), b.wire());
    }
    lemma_inputs_wire_len_le(signed.inputs, reckoned.inputs);
    lemma_var_int_len(signed.inputs.len() as u64, reckoned.inputs.len() as u64);
}

/// Outputs with the same scripts that are one by one no more make a wire form
/// of the same length.
proof fn lemma_estimate_le(a: UnsignedTxView, b: UnsignedTxView)
    requires
        a.can_estimate(),
        b.can_estimate(),
        a.inputs == b.inputs,
        a.version == b.version,
        a.lock_time == b.lock_time,
        same_scripts(a.outputs, b.outputs),
    ensures
        a.estimate_size() <= b.estimate_size(),
{
    reveal(UnsignedTxView::can_estimate);
    reveal(UnsignedTxView::estimate_size);
    let x = a.estimate_tx();
    let y = b.estimate_tx();
    assert forall|i: int| 0 <= i < x.inputs.len() implies (#[trigger] x.inputs[i]).wire().len()
        <= y.inputs[i].wire().len() by {
        let output = &a.inputs[i].output;
        let empty = crate::unsigned_tx::empty_pre_image(output.spec_script_code());
        assert(b.inputs[i].output.can_sign(zeros(73), b.outputs));
        lemma_sig_script_len(output, zeros(73), zeros(33), empty, empty, a.outputs, b.outputs);
        assert(y.inputs[i].wf());
        lemma_var_str_len_le(x.inputs[i].script.wire(), y.inputs[i].script.wire());
    }
    lemma_inputs_wire_len_le(x.inputs, y.inputs);
    lemma_outputs_wire_same_len(a.outputs, b.outputs);
}

/// The size that is reckoned for a transaction does not depend on the
/// amounts of its outputs.
pub proof fn lemma_estimate_same(a: UnsignedTxView, b: UnsignedTxView)
    requires
        a.can_estimate(),
        b.can_estimate(),
        a.inputs == b.inputs,
        a.version == b.version,
        a.lock_time == b.lock_time,
        same_scripts(a.outputs, b.outputs),
    ensures
        a.estimate_size() == b.estimate_size(),
{
    lemma_estimate_le(a, b);
    assert forall|i: int| 0 <= i < b.outputs.len() implies (#[trigger] b.outputs[i]).script
        == a.outputs[i].script by {
        assert(a.outputs[i].script == b.outputs[i].script);
    }
    lemma_estimate_le(b, a);
}

/// Whether every input spends a key hash output and every output locks to a
/// hash of 20 bytes.
pub open spec fn all_p2pkh(tx: UnsignedTxView) -> bool {
    &&& forall|i: int| 0 <= i < tx.inputs.len() ==> (#[trigger] tx.inputs[i]).output is P2PKH
    &&& forall|i: int|
        0 <= i < tx.outputs.len() ==> exists|hash: Seq<u8>|
            hash.len() == 20 && (#[trigger] tx.outputs[i]).script == ScriptView::new(
                crate::outputs::p2pkh_ops(hash),
            )
}

/// The size that is reckoned for a transaction between key hashes: 149 bytes
/// for each input and 34 for each output, the two counts, and 10 bytes more.
pub open spec fn p2pkh_size(inputs: nat, outputs: nat) -> nat {
    10 + spec_var_int(inputs as u64).len() + 149 * inputs + spec_var_int(outputs as u64).len() + 34
        * outputs
}

/// The unlocking script that is reckoned for a key hash output takes 108
/// bytes.
pub proof fn lemma_p2pkh_sig_len()
    ensures
        ScriptView::new(p2pkh_sig_ops(zeros(73), zeros(33))).wire().len() == 108,
        ScriptView::new(p2pkh_sig_ops(zeros(73), zeros(33))).encodable(),
{
    let ops = p2pkh_sig_ops(zeros(73), zeros(33));
    reveal_with_fuel(ops_wire, 3);
    assert(ops.len() == 2);
    assert(ops[0] == push(zeros(73)) && ops[1] == push(zeros(33)));
    assert(ops.drop_last().drop_last() =~= Seq::<OpView>::empty());
    lemma_push_wire_len(zeros(73));
    lemma_push_wire_len(zeros(33));
}

/// Inputs of 149 bytes each take 149 bytes each.
proof fn lemma_inputs_wire_len(inputs: Seq<TxInputView>)
    requires
        forall|i: int| 0 <= i < inputs.len() ==> (#[trigger] inputs[i]).wire().len() == 149,
    ensures
        inputs_wire(inputs).len() == 149 * inputs.len(),
    decreases inputs.len(),
{
    if inputs.len() > 0 {
        assert forall|i: int| 0 <= i < inputs.drop_last().len() implies (
        #[trigger] inputs.drop_last()[i]).wire().len() == 149 by {
            assert(inputs[i].wire().len() == 149);
        }
        lemma_inputs_wire_len(inputs.drop_last());
        assert(inputs[inputs.len() - 1].wire().len() == 149);
    }
}

/// Outputs of 34 bytes each take 34 bytes each.
proof fn lemma_outputs_wire_len(outputs: Seq<TxOutputView>)
    requires
        forall|i: int| 0 <= i < outputs.len() ==> (#[trigger] outputs[i]).wire().len() == 34,
    ensures
        outputs_wire(outputs).len() == 34 * outputs.len(),
    decreases outputs.len(),
{
    if outputs.len() > 0 {
        assert forall|i: int| 0 <= i < outputs.drop_last().len() implies (
        #[trigger] outputs.drop_last()[i]).wire().len() == 34 by {
            assert(outputs[i].wire().len() == 34);
        }
        lemma_outputs_wire_len(outputs.drop_last());
        assert(outputs[outputs.len() - 1].wire().len() == 34);
    }
}

/// The size of a transaction between key hashes can be reckoned, and is
/// what the counts of its inputs and outputs give.
pub proof fn lemma_p2pkh_tx_size(tx: UnsignedTxView)
    requires
        all_p2pkh(tx),
        tx.inputs.len() <= u64::MAX,
        tx.outputs.len() <= u64::MAX,
        p2pkh_size(tx.inputs.len(), tx.outputs.len()) <= usize::MAX,
    ensures
        tx.can_estimate(),
        tx.estimate_size() == p2pkh_size(tx.inputs.len(), tx.outputs.len()),
{
    reveal(UnsignedTxView::can_estimate);
    reveal(UnsignedTxView::estimate_size);
    let reckoned = tx.estimate_tx();
    lemma_p2pkh_sig_len();
    assert forall|i: int| 0 <= i < tx.outputs.len() implies (#[trigger] tx.outputs[i]).wire().len()
        == 34 && tx.outputs[i].wf() by {
        let hash = choose|hash: Seq<u8>|
            hash.len() == 20 && tx.outputs[i].script == ScriptView::new(
                crate::outputs::p2pkh_ops(hash),
            );
        crate::advanced_trade_offer::lemma_p2pkh_wire(hash);
        lemma_le_bytes_len(tx.outputs[i].value as nat, 8);
    }
    assert forall|i: int| 0 <= i < reckoned.inputs.len() implies (#[trigger] reckoned.inputs[i]).wire().len()
        == 149 && reckoned.inputs[i].wf() by {
        assert(tx.inputs[i].output is P2PKH);
        assert(reckoned.inputs[i].script == ScriptView::new(p2pkh_sig_ops(zeros(73), zeros(33))));
        lemma_le_bytes_len(tx.inputs[i].outpoint.vout as nat, 4);
        lemma_le_bytes_len(tx.inputs[i].sequence as nat, 4);
    }
    lemma_inputs_wire_len(reckoned.inputs);
    lemma_outputs_wire_len(tx.outputs);
    lemma_le_bytes_len(crate::serialize::i32_bits(tx.version), 4);
    lemma_le_bytes_len(tx.lock_time as nat, 4);
    assert forall|i: int| 0 <= i < tx.inputs.len() implies (#[trigger] tx.inputs[i]).output.wf()
        && tx.inputs[i].output.signable() && tx.inputs[i].output.can_sign(
        zeros(73),
        tx.outputs,
    ) by {
        assert(tx.inputs[i].output is P2PKH);
    }
    assert forall|i: int| 0 <= i < tx.outputs.len() implies (#[trigger] tx.outputs[i]).script.writable() by {
        assert(tx.outputs[i].wf());
    }
}

} // verus!
