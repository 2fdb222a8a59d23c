//! Transactions that are not signed yet, and what a signature covers.

use crate::address::Address;
use crate::hash::{double_sha256, spec_double_sha256};
use crate::outputs::{p2pkh_ops, Output, P2PKHOutput};
use crate::script::{Script, ScriptView};
use crate::serialize::{
    i32_bits, le_bytes, put_i32_le, put_u32_le, put_u64_le, spec_var_str, write_var_str,
};
use crate::tx::{
    outputs_wire, view_inputs, view_outputs, write_outputs, Tx, TxInput, TxInputView, TxOutpoint,
    TxOutpointView, TxOutput, TxOutputView, TxView,
};
use vstd::prelude::*;

verus! {

/// The size that is reckoned for a signature: the longest it can be, with the
/// byte of its kind.
pub const MAX_SIGNATURE_SIZE: usize = 73;

/// The size that is reckoned for a public key.
pub const PUBKEY_SIZE: usize = 33;

/// The kind of signature that is made: all inputs and outputs, with the fork
/// id.
pub const SIGHASH_ALL_FORKID: u32 = 0x41;

/// What a [`PreImage`] is.
pub struct PreImageView {
    pub version: i32,
    pub hash_prevouts: Seq<u8>,
    pub hash_sequence: Seq<u8>,
    pub outpoint: TxOutpointView,
    pub script_code: ScriptView,
    pub value: u64,
    pub sequence: u32,
    pub hash_outputs: Seq<u8>,
    pub lock_time: u32,
    pub sighash_type: u32,
}

/// What the signature of one input covers.
#[derive(Debug)]
pub struct PreImage {
    pub version: i32,
    pub hash_prevouts: [u8; 32],
    pub hash_sequence: [u8; 32],
    pub outpoint: TxOutpoint,
    pub script_code: Script,
    pub value: u64,
    pub sequence: u32,
    pub hash_outputs: [u8; 32],
    pub lock_time: u32,
    pub sighash_type: u32,
}

impl View for PreImage {
    type V = PreImageView;

    open spec fn view(&self) -> PreImageView {
        PreImageView {
            version: self.version,
            hash_prevouts: self.hash_prevouts@,
            hash_sequence: self.hash_sequence@,
            outpoint: self.outpoint@,
            script_code: self.script_code@,
            value: self.value,
            sequence: self.sequence,
            hash_outputs: self.hash_outputs@,
            lock_time: self.lock_time,
            sighash_type: self.sighash_type,
        }
    }
}

impl Clone for PreImage {
    fn clone(&self) -> (pre_image: Self)
        ensures
            pre_image@ == self@,
    {
        PreImage {
            version: self.version,
            hash_prevouts: self.hash_prevouts,
            hash_sequence: self.hash_sequence,
            outpoint: self.outpoint,
            script_code: self.script_code.clone(),
            value: self.value,
            sequence: self.sequence,
            hash_outputs: self.hash_outputs,
            lock_time: self.lock_time,
            sighash_type: self.sighash_type,
        }
    }
}

/// Which fields of a [`PreImage`] are written.
#[derive(Copy, Clone, Debug)]
pub struct PreImageWriteFlags {
    pub version: bool,
    pub hash_prevouts: bool,
    pub hash_sequence: bool,
    pub outpoint: bool,
    pub script_code: bool,
    pub value: bool,
    pub sequence: bool,
    pub hash_outputs: bool,
    pub lock_time: bool,
    pub sighash_type: bool,
}

/// `bytes` where `chosen`, nothing else.
#[verifier::opaque]
pub open spec fn field(chosen: bool, bytes: Seq<u8>) -> Seq<u8> {
    if chosen {
        bytes
    } else {
        Seq::empty()
    }
}

/// All ten fields.
pub open spec fn all_fields() -> PreImageWriteFlags {
    PreImageWriteFlags {
        version: true,
        hash_prevouts: true,
        hash_sequence: true,
        outpoint: true,
        script_code: true,
        value: true,
        sequence: true,
        hash_outputs: true,
        lock_time: true,
        sighash_type: true,
    }
}

impl PreImageView {
    /// The wire forms of the chosen fields, in the order of the fields. The
    /// script is written in the form that is signed, behind its length.
    pub open spec fn wire_flags(self, flags: PreImageWriteFlags) -> Seq<u8> {
        field(flags.version, le_bytes(i32_bits(self.version), 4)) + field(
            flags.hash_prevouts,
            self.hash_prevouts,
        ) + field(flags.hash_sequence, self.hash_sequence) + field(
            flags.outpoint,
            self.outpoint.wire(),
        ) + field(flags.script_code, spec_var_str(self.script_code.sig_wire())) + field(
            flags.value,
            le_bytes(self.value as nat, 8),
        ) + field(flags.sequence, le_bytes(self.sequence as nat, 4)) + field(
            flags.hash_outputs,
            self.hash_outputs,
        ) + field(flags.lock_time, le_bytes(self.lock_time as nat, 4)) + field(
            flags.sighash_type,
            le_bytes(self.sighash_type as nat, 4),
        )
    }

    /// The wire form: all ten fields.
    pub open spec fn wire(self) -> Seq<u8> {
        self.wire_flags(all_fields())
    }
}

/// Appends `bytes` to `write` where `chosen`.
fn put_field(write: &mut Vec<u8>, chosen: bool, bytes: &[u8])
    ensures
        final(write)@ == old(write)@ + field(chosen, bytes@),
{
    reveal(field);
    if chosen {
        write.extend_from_slice(bytes);
    }
    assert(write@ =~= old(write)@ + field(chosen, bytes@));
}

/// Joining byte strings does not depend on how they are grouped.
pub proof fn lemma_concat_assoc(a: Seq<u8>, b: Seq<u8>, c: Seq<u8>)
    ensures
        (a + b) + c == a + (b + c),
{
    assert((a + b) + c =~= a + (b + c));
}

fn put_i32_field(write: &mut Vec<u8>, chosen: bool, n: i32)
    ensures
        final(write)@ == old(write)@ + field(chosen, le_bytes(i32_bits(n), 4)),
{
    let mut bytes = Vec::new();
    put_i32_le(&mut bytes, n);
    assert(bytes@ =~= le_bytes(i32_bits(n), 4));
    put_field(write, chosen, bytes.as_slice());
}

fn put_u32_field(write: &mut Vec<u8>, chosen: bool, n: u32)
    ensures
        final(write)@ == old(write)@ + field(chosen, le_bytes(n as nat, 4)),
{
    let mut bytes = Vec::new();
    put_u32_le(&mut bytes, n);
    assert(bytes@ =~= le_bytes(n as nat, 4));
    put_field(write, chosen, bytes.as_slice());
}

fn put_u64_field(write: &mut Vec<u8>, chosen: bool, n: u64)
    ensures
        final(write)@ == old(write)@ + field(chosen, le_bytes(n as nat, 8)),
{
    let mut bytes = Vec::new();
    put_u64_le(&mut bytes, n);
    assert(bytes@ =~= le_bytes(n as nat, 8));
    put_field(write, chosen, bytes.as_slice());
}

fn put_script_field(write: &mut Vec<u8>, chosen: bool, script: &Script)
    requires
        chosen ==> script@.encodable(),
    ensures
        final(write)@ == old(write)@ + field(chosen, spec_var_str(script@.sig_wire())),
{
    reveal(field);
    if chosen {
        let bytes = script.to_vec_sig();
        write_var_str(write, bytes.as_slice());
    }
    assert(write@ =~= old(write)@ + field(chosen, spec_var_str(script@.sig_wire())));
}

impl PreImage {
    /// The pre-image with all fields zero but the script.
    pub fn empty(script_code: Script) -> (pre_image: Self)
        ensures
            pre_image@ == (PreImageView {
                version: 0,
                hash_prevouts: Seq::new(32, |i: int| 0u8),
                hash_sequence: Seq::new(32, |i: int| 0u8),
                outpoint: TxOutpointView { tx_hash: Seq::new(32, |i: int| 0u8), vout: 0 },
                script_code: script_code@,
                value: 0,
                sequence: 0,
                hash_outputs: Seq::new(32, |i: int| 0u8),
                lock_time: 0,
                sighash_type: 0,
            }),
    {
        let zero = [0u8;32];
        assert(zero@ =~= Seq::new(32, |i: int| 0u8));
        PreImage {
            version: 0,
            hash_prevouts: zero,
            hash_sequence: zero,
            outpoint: TxOutpoint { vout: 0, tx_hash: zero },
            script_code,
            value: 0,
            sequence: 0,
            hash_outputs: zero,
            lock_time: 0,
            sighash_type: 0,
        }
    }

    /// Appends the wire forms of the chosen fields to `write`.
    pub fn write_to_stream_flags(&self, write: &mut Vec<u8>, flags: PreImageWriteFlags)
        requires
            flags.script_code ==> self@.script_code.encodable(),
        ensures
            final(write)@ == old(write)@ + self@.wire_flags(flags),
    {
        let ghost start = write@;
        let ghost view = self@;
        put_i32_field(write, flags.version, self.version);
        let ghost a = field(flags.version, le_bytes(i32_bits(view.version), 4));
        put_field(write, flags.hash_prevouts, self.hash_prevouts.as_slice());
        let ghost b = a + field(flags.hash_prevouts, view.hash_prevouts);
        assert(write@ == start + b) by {
            lemma_concat_assoc(start, a, field(flags.hash_prevouts, view.hash_prevouts));
        }
        put_field(write, flags.hash_sequence, self.hash_sequence.as_slice());
        let ghost c = b + field(flags.hash_sequence, view.hash_sequence);
        assert(write@ == start + c) by {
            lemma_concat_assoc(start, b, field(flags.hash_sequence, view.hash_sequence));
        }
        let outpoint = self.outpoint.bytes();
        put_field(write, flags.outpoint, outpoint.as_slice());
        let ghost d = c + field(flags.outpoint, view.outpoint.wire());
        assert(write@ == start + d) by {
            lemma_concat_assoc(start, c, field(flags.outpoint, view.outpoint.wire()));
        }
        put_script_field(write, flags.script_code, &self.script_code);
        let ghost e = d + field(flags.script_code, spec_var_str(view.script_code.sig_wire()));
        assert(write@ == start + e) by {
            lemma_concat_assoc(
                start,
                d,
                field(flags.script_code, spec_var_str(view.script_code.sig_wire())),
            );
        }
        put_u64_field(write, flags.value, self.value);
        let ghost f = e + field(flags.value, le_bytes(view.value as nat, 8));
        assert(write@ == start + f) by {
            lemma_concat_assoc(start, e, field(flags.value, le_bytes(view.value as nat, 8)));
        }
        put_u32_field(write, flags.sequence, self.sequence);
        let ghost g = f + field(flags.sequence, le_bytes(view.sequence as nat, 4));
        assert(write@ == start + g) by {
            lemma_concat_assoc(start, f, field(flags.sequence, le_bytes(view.sequence as nat, 4)));
        }
        put_field(write, flags.hash_outputs, self.hash_outputs.as_slice());
        let ghost h = g + field(flags.hash_outputs, view.hash_outputs);
        assert(write@ == start + h) by {
            lemma_concat_assoc(start, g, field(flags.hash_outputs, view.hash_outputs));
        }
        put_u32_field(write, flags.lock_time, self.lock_time);
        let ghost i = h + field(flags.lock_time, le_bytes(view.lock_time as nat, 4));
        assert(write@ == start + i) by {
            lemma_concat_assoc(start, h, field(flags.lock_time, le_bytes(view.lock_time as nat, 4)));
        }
        put_u32_field(write, flags.sighash_type, self.sighash_type);
        let ghost j = i + field(flags.sighash_type, le_bytes(view.sighash_type as nat, 4));
        assert(write@ == start + j) by {
            lemma_concat_assoc(
                start,
                i,
                field(flags.sighash_type, le_bytes(view.sighash_type as nat, 4)),
            );
        }
    }

    /// Appends the wire form, all ten fields, to `write`.
    pub fn write_to_stream(&self, write: &mut Vec<u8>)
        requires
            self@.script_code.encodable(),
        ensures
            final(write)@ == old(write)@ + self@.wire(),
    {
        self.write_to_stream_flags(
            write,
            PreImageWriteFlags {
                version: true,
                hash_prevouts: true,
                hash_sequence: true,
                outpoint: true,
                script_code: true,
                value: true,
                sequence: true,
                hash_outputs: true,
                lock_time: true,
                sighash_type: true,
            },
        )
    }
}

/// An input that is not signed yet: the place of the output it spends, that
/// output, and a sequence number.
#[derive(Debug)]
pub struct UnsignedInput {
    pub outpoint: TxOutpoint,
    pub output: Output,
    pub sequence: u32,
}

/// What an [`UnsignedTx`] is.
pub struct UnsignedTxView {
    pub version: i32,
    pub inputs: Seq<UnsignedInput>,
    pub outputs: Seq<TxOutputView>,
    pub lock_time: u32,
}

/// A transaction that is being built.
#[derive(Debug)]
pub struct UnsignedTx {
    version: i32,
    inputs: Vec<UnsignedInput>,
    outputs: Vec<TxOutput>,
    lock_time: u32,
}

impl View for UnsignedTx {
    type V = UnsignedTxView;

    closed spec fn view(&self) -> UnsignedTxView {
        UnsignedTxView {
            version: self.version,
            inputs: self.inputs@,
            outputs: view_outputs(self.outputs@),
            lock_time: self.lock_time,
        }
    }
}

/// The places of the outputs that the inputs spend, one behind the other.
pub open spec fn outpoints_wire(inputs: Seq<UnsignedInput>) -> Seq<u8>
    decreases inputs.len(),
{
    if inputs.len() == 0 {
        Seq::empty()
    } else {
        outpoints_wire(inputs.drop_last()) + inputs.last().outpoint@.wire()
    }
}

/// The sequence numbers of the inputs, four bytes each, one behind the other.
pub open spec fn sequences_wire(inputs: Seq<UnsignedInput>) -> Seq<u8>
    decreases inputs.len(),
{
    if inputs.len() == 0 {
        Seq::empty()
    } else {
        sequences_wire(inputs.drop_last()) + le_bytes(inputs.last().sequence as nat, 4)
    }
}

/// The sum of the amounts of the outputs that the inputs spend.
pub open spec fn sum_inputs(inputs: Seq<UnsignedInput>) -> nat
    decreases inputs.len(),
{
    if inputs.len() == 0 {
        0
    } else {
        sum_inputs(inputs.drop_last()) + inputs.last().output.spec_value() as nat
    }
}

/// The sum of the amounts of outputs.
pub open spec fn sum_outputs(outputs: Seq<TxOutputView>) -> nat
    decreases outputs.len(),
{
    if outputs.len() == 0 {
        0
    } else {
        sum_outputs(outputs.drop_last()) + outputs.last().value as nat
    }
}

/// `n` zero bytes.
pub open spec fn zeros(n: nat) -> Seq<u8> {
    Seq::new(n, |i: int| 0u8)
}

/// The pre-image with all fields zero but the script.
pub open spec fn empty_pre_image(script_code: ScriptView) -> PreImageView {
    PreImageView {
        version: 0,
        hash_prevouts: zeros(32),
        hash_sequence: zeros(32),
        outpoint: TxOutpointView { tx_hash: zeros(32), vout: 0 },
        script_code,
        value: 0,
        sequence: 0,
        hash_outputs: zeros(32),
        lock_time: 0,
        sighash_type: 0,
    }
}

/// The least of three numbers.
pub open spec fn min3(a: int, b: int, c: int) -> int {
    if a <= b && a <= c {
        a
    } else if b <= c {
        b
    } else {
        c
    }
}

/// The fee for a size in bytes at a rate for a thousand bytes, rounded down.
pub open spec fn spec_fee(size: nat, fee_per_kb: u64) -> nat {
    size * fee_per_kb as nat / 1000
}

/// The fee for a size in bytes at a rate for a thousand bytes, rounded down.
fn fee_for(size: usize, fee_per_kb: u64) -> (fee: u64)
    requires
        size * fee_per_kb <= u64::MAX,
    ensures
        fee == spec_fee(size as nat, fee_per_kb),
{
    size as u64 * fee_per_kb / 1000
}

/// The output that locks `value` to the hash of a key.
pub open spec fn p2pkh_output(value: u64, address: Address) -> TxOutputView {
    TxOutputView { value, script: ScriptView::new(p2pkh_ops(address@.bytes)) }
}

impl UnsignedTxView {
    /// SHA-256 twice of the places of the outputs that the inputs spend.
    pub open spec fn hash_prevouts(self) -> [u8; 32] {
        spec_double_sha256(outpoints_wire(self.inputs))
    }

    /// SHA-256 twice of the sequence numbers of the inputs.
    pub open spec fn hash_sequence(self) -> [u8; 32] {
        spec_double_sha256(sequences_wire(self.inputs))
    }

    /// SHA-256 twice of the wire forms of the outputs.
    pub open spec fn hash_outputs(self) -> [u8; 32] {
        spec_double_sha256(outputs_wire(self.outputs))
    }

    /// What the signature of input `i` covers.
    pub open spec fn pre_image(self, i: int, sighash_type: u32) -> PreImageView {
        PreImageView {
            version: self.version,
            hash_prevouts: self.hash_prevouts()@,
            hash_sequence: self.hash_sequence()@,
            outpoint: self.inputs[i].outpoint@,
            script_code: self.inputs[i].output.spec_script_code(),
            value: self.inputs[i].output.spec_value(),
            sequence: self.inputs[i].sequence,
            hash_outputs: self.hash_outputs()@,
            lock_time: self.lock_time,
            sighash_type,
        }
    }

    /// Whether pre-images can be made: every input spends an output that can
    /// be spent and whose script can be built, and every output can be written.
    pub open spec fn signable(self) -> bool {
        &&& forall|i: int|
            0 <= i < self.inputs.len() ==> (#[trigger] self.inputs[i]).output.wf()
                && self.inputs[i].output.signable()
        &&& forall|i: int| 0 <= i < self.outputs.len() ==> (#[trigger] self.outputs[i]).script.writable()
    }

    /// Input `i` as it is signed with `sig` and `pub_key`: the unlocking script
    /// is built from the signature with the byte of its kind behind it.
    pub open spec fn signed_input(self, i: int, sig: Seq<u8>, pub_key: Seq<u8>) -> TxInputView {
        TxInputView {
            outpoint: self.inputs[i].outpoint@,
            script: self.inputs[i].output.spec_sig_script(
                sig.push(0x41u8),
                pub_key,
                self.pre_image(i, 0x41),
                self.outputs,
            ),
            sequence: self.inputs[i].sequence,
        }
    }

    /// How many inputs get signed: as many as there are inputs, signatures
    /// and keys.
    pub open spec fn signed_count(self, sigs: Seq<Seq<u8>>, pub_keys: Seq<Seq<u8>>) -> int {
        min3(self.inputs.len() as int, sigs.len() as int, pub_keys.len() as int)
    }

    /// Whether the transaction can be signed with these signatures.
    pub open spec fn can_sign(self, sigs: Seq<Seq<u8>>, pub_keys: Seq<Seq<u8>>) -> bool {
        &&& self.signable()
        &&& forall|i: int|
            0 <= i < self.signed_count(sigs, pub_keys) ==> (#[trigger] self.inputs[i]).output.can_sign(
                sigs[i].push(0x41u8),
                self.outputs,
            )
    }

    /// The transaction as signed: each input with its unlocking script.
    pub open spec fn signed(self, sigs: Seq<Seq<u8>>, pub_keys: Seq<Seq<u8>>) -> TxView {
        TxView {
            version: self.version,
            inputs: Seq::new(
                self.signed_count(sigs, pub_keys) as nat,
                |i: int| self.signed_input(i, sigs[i], pub_keys[i]),
            ),
            outputs: self.outputs,
            lock_time: self.lock_time,
        }
    }

    /// Input `i` as it is reckoned for the size: unlocked with a signature of
    /// 73 zero bytes and a key of 33, over an empty pre-image.
    pub open spec fn estimate_input(self, i: int) -> TxInputView {
        TxInputView {
            outpoint: self.inputs[i].outpoint@,
            script: self.inputs[i].output.spec_sig_script(
                zeros(73),
                zeros(33),
                empty_pre_image(self.inputs[i].output.spec_script_code()),
                self.outputs,
            ),
            sequence: self.inputs[i].sequence,
        }
    }

    /// The transaction as it is reckoned for the size.
    pub open spec fn estimate_tx(self) -> TxView {
        TxView {
            version: self.version,
            inputs: Seq::new(self.inputs.len(), |i: int| self.estimate_input(i)),
            outputs: self.outputs,
            lock_time: self.lock_time,
        }
    }

    /// The size that is reckoned: that of the wire form with signatures and keys
    /// of the greatest length, and two bytes more.
    #[verifier::opaque]
    pub open spec fn estimate_size(self) -> nat {
        self.estimate_tx().wire().len() + 2
    }

    /// Whether the size can be reckoned: the transaction could be signed with
    /// signatures of 73 zero bytes, and what comes of it can be written and has
    /// a size that is a number of the machine.
    #[verifier::opaque]
    pub open spec fn can_estimate(self) -> bool {
        &&& self.signable()
        &&& forall|i: int|
            0 <= i < self.inputs.len() ==> (#[trigger] self.inputs[i]).output.can_sign(
                zeros(73),
                self.outputs,
            )
        &&& self.estimate_tx().wf()
        &&& self.estimate_size() <= usize::MAX
    }

    /// The transaction with one more output before the one at `idx`.
    pub open spec fn with_output(self, idx: int, output: TxOutputView) -> UnsignedTxView {
        UnsignedTxView { outputs: self.outputs.insert(idx, output), ..self }
    }
}

/// `n` zero bytes.
fn zero_bytes(n: usize) -> (bytes: Vec<u8>)
    ensures
        bytes@ == zeros(n as nat),
{
    let mut bytes: Vec<u8> = Vec::new();
    let mut k: usize = 0;
    while k < n
        invariant
            k <= n,
            bytes@ =~= zeros(k as nat),
        decreases n - k,
    {
        bytes.push(0);
        k += 1;
    }
    bytes
}

/// Copies of the outputs.
fn clone_outputs(outputs: &Vec<TxOutput>) -> (copy: Vec<TxOutput>)
    ensures
        view_outputs(copy@) == view_outputs(outputs@),
{
    let mut copy: Vec<TxOutput> = Vec::new();
    let mut k: usize = 0;
    while k < outputs.len()
        invariant
            k <= outputs.len(),
            copy.len() == k,
            forall|i: int| 0 <= i < k ==> copy[i]@ == outputs[i]@,
        decreases outputs.len() - k,
    {
        copy.push(outputs[k].clone());
        k += 1;
    }
    assert(view_outputs(copy@) =~= view_outputs(outputs@));
    copy
}

impl UnsignedTx {
    /// An empty transaction of version 1 without lock time.
    pub fn new_simple() -> (tx: Self)
        ensures
            tx@ == (UnsignedTxView {
                version: 1,
                inputs: Seq::empty(),
                outputs: Seq::empty(),
                lock_time: 0,
            }),
    {
        let tx = UnsignedTx { version: 1, inputs: Vec::new(), outputs: Vec::new(), lock_time: 0 };
        assert(tx@.outputs =~= Seq::<TxOutputView>::empty());
        tx
    }

    /// An empty transaction of version 1 with a lock time.
    pub fn new_locktime(lock_time: u32) -> (tx: Self)
        ensures
            tx@ == (UnsignedTxView {
                version: 1,
                inputs: Seq::empty(),
                outputs: Seq::empty(),
                lock_time,
            }),
    {
        let tx = UnsignedTx { version: 1, inputs: Vec::new(), outputs: Vec::new(), lock_time };
        assert(tx@.outputs =~= Seq::<TxOutputView>::empty());
        tx
    }

    /// Appends an input and gives its index.
    pub fn add_input(&mut self, input: UnsignedInput) -> (idx: usize)
        ensures
            final(self)@ == (UnsignedTxView {
                inputs: old(self)@.inputs.push(input),
                ..old(self)@
            }),
            idx == old(self)@.inputs.len(),
    {
        self.inputs.push(input);
        self.inputs.len() - 1
    }

    /// Puts `input` in the place of the input at `idx`.
    pub fn replace_input(&mut self, idx: usize, input: UnsignedInput)
        requires
            idx < old(self)@.inputs.len(),
        ensures
            final(self)@ == (UnsignedTxView {
                inputs: old(self)@.inputs.update(idx as int, input),
                ..old(self)@
            }),
    {
        self.inputs[idx] = input;
    }

    /// Appends an output and gives its index.
    pub fn add_output(&mut self, output: TxOutput) -> (idx: usize)
        ensures
            final(self)@ == (UnsignedTxView {
                outputs: old(self)@.outputs.push(output@),
                ..old(self)@
            }),
            idx == old(self)@.outputs.len(),
    {
        self.outputs.push(output);
        assert(self@.outputs =~= old(self)@.outputs.push(output@));
        self.outputs.len() - 1
    }

    /// Puts `output` before the output at `idx`, or at the end.
    pub fn insert_output(&mut self, idx: usize, output: TxOutput)
        requires
            idx <= old(self)@.outputs.len(),
        ensures
            final(self)@ == old(self)@.with_output(idx as int, output@),
    {
        self.outputs.insert(idx, output);
        assert(self@.outputs =~= old(self)@.outputs.insert(idx as int, output@));
    }

    /// Puts `output` in the place of the output at `idx`.
    pub fn replace_output(&mut self, idx: usize, output: TxOutput)
        requires
            idx < old(self)@.outputs.len(),
        ensures
            final(self)@ == (UnsignedTxView {
                outputs: old(self)@.outputs.update(idx as int, output@),
                ..old(self)@
            }),
    {
        self.outputs[idx] = output;
        assert(self@.outputs =~= old(self)@.outputs.update(idx as int, output@));
    }

    /// Takes the output at `idx` out.
    pub fn remove_output(&mut self, idx: usize)
        requires
            idx < old(self)@.outputs.len(),
        ensures
            final(self)@ == (UnsignedTxView {
                outputs: old(self)@.outputs.remove(idx as int),
                ..old(self)@
            }),
    {
        self.outputs.remove(idx);
        assert(self@.outputs =~= old(self)@.outputs.remove(idx as int));
    }

    /// SHA-256 twice of the places of the outputs that the inputs spend.
    fn hash_prevouts(&self) -> (hash: [u8; 32])
        ensures
            hash == self@.hash_prevouts(),
    {
        let mut outpoints_serialized: Vec<u8> = Vec::new();
        let mut k: usize = 0;
        proof {
            assert(self.inputs@.take(0) =~= Seq::<UnsignedInput>::empty());
        }
        while k < self.inputs.len()
            invariant
                k <= self.inputs.len(),
                outpoints_serialized@ == outpoints_wire(self.inputs@.take(k as int)),
            decreases self.inputs.len() - k,
        {
            proof {
                assert(self.inputs@.take(k + 1).drop_last() =~= self.inputs@.take(k as int));
            }
            let key = self.inputs[k].outpoint.bytes();
            outpoints_serialized.extend_from_slice(key.as_slice());
            k += 1;
        }
        proof {
            assert(self.inputs@.take(k as int) =~= self.inputs@);
        }
        double_sha256(outpoints_serialized.as_slice())
    }

    /// SHA-256 twice of the sequence numbers of the inputs.
    fn hash_sequence(&self) -> (hash: [u8; 32])
        ensures
            hash == self@.hash_sequence(),
    {
        let mut sequence_serialized: Vec<u8> = Vec::new();
        let mut k: usize = 0;
        proof {
            assert(self.inputs@.take(0) =~= Seq::<UnsignedInput>::empty());
        }
        while k < self.inputs.len()
            invariant
                k <= self.inputs.len(),
                sequence_serialized@ == sequences_wire(self.inputs@.take(k as int)),
            decreases self.inputs.len() - k,
        {
            proof {
                assert(self.inputs@.take(k + 1).drop_last() =~= self.inputs@.take(k as int));
            }
            put_u32_le(&mut sequence_serialized, self.inputs[k].sequence);
            k += 1;
        }
        proof {
            assert(self.inputs@.take(k as int) =~= self.inputs@);
        }
        double_sha256(sequence_serialized.as_slice())
    }

    /// SHA-256 twice of the wire forms of the outputs.
    fn hash_outputs(&self) -> (hash: [u8; 32])
        requires
            forall|i: int| 0 <= i < self@.outputs.len() ==> (#[trigger] self@.outputs[i]).script.writable(),
        ensures
            hash == self@.hash_outputs(),
    {
        let mut outputs_serialized: Vec<u8> = Vec::new();
        proof {
            let all = view_outputs(self.outputs@);
            assert(all.subrange(0, all.len() as int) =~= all);
            assert(all == self@.outputs);
            assert forall|i: int| 0 <= i < self.outputs.len() implies self.outputs[i]@.script.writable() by {
                assert(self@.outputs[i].script.writable());
                assert(all[i] == self.outputs[i]@);
            }
        }
        write_outputs(self.outputs.as_slice(), 0, self.outputs.len(), &mut outputs_serialized);
        assert(outputs_serialized@ =~= outputs_wire(view_outputs(self.outputs@)));
        double_sha256(outputs_serialized.as_slice())
    }

    /// What the signature of each input covers, in the order of the inputs.
    /// All share the three hashes over the inputs and outputs.
    pub fn pre_images(&self, sighash_type: u32) -> (pre_images: Vec<PreImage>)
        requires
            self@.signable(),
        ensures
            pre_images.len() == self@.inputs.len(),
            forall|i: int|
                0 <= i < pre_images.len() ==> (#[trigger] pre_images[i])@ == self@.pre_image(
                    i,
                    sighash_type,
                ),
    {
        let hash_prevouts = self.hash_prevouts();
        let hash_sequence = self.hash_sequence();
        let hash_outputs = self.hash_outputs();
        let mut pre_images: Vec<PreImage> = Vec::new();
        let mut k: usize = 0;
        while k < self.inputs.len()
            invariant
                k <= self.inputs.len(),
                self@.signable(),
                pre_images.len() == k,
                hash_prevouts == self@.hash_prevouts(),
                hash_sequence == self@.hash_sequence(),
                hash_outputs == self@.hash_outputs(),
                forall|i: int|
                    0 <= i < k ==> (#[trigger] pre_images[i])@ == self@.pre_image(i, sighash_type),
            decreases self.inputs.len() - k,
        {
            let input = &self.inputs[k];
            assert(self@.inputs[k as int].output.wf());
            pre_images.push(
                PreImage {
                    version: self.version,
                    hash_prevouts,
                    hash_sequence,
                    outpoint: input.outpoint,
                    script_code: input.output.script_code(),
                    value: input.output.value(),
                    sequence: input.sequence,
                    hash_outputs,
                    lock_time: self.lock_time,
                    sighash_type,
                },
            );
            k += 1;
        }
        pre_images
    }

    /// The size that the signed transaction will have at most: its size with
    /// signatures of 73 bytes and keys of 33, and two bytes more.
    pub fn estimate_size(&self) -> (size: usize)
        requires
            self@.can_estimate(),
        ensures
            size == self@.estimate_size(),
    {
        reveal(UnsignedTxView::can_estimate);
        reveal(UnsignedTxView::estimate_size);
        let mut tx_inputs: Vec<TxInput> = Vec::with_capacity(self.inputs.len());
        let mut k: usize = 0;
        while k < self.inputs.len()
            invariant
                k <= self.inputs.len(),
                self@.can_estimate(),
                tx_inputs.len() == k,
                forall|i: int| 0 <= i < k ==> (#[trigger] tx_inputs[i])@ == self@.estimate_input(i),
            decreases self.inputs.len() - k,
        {
            reveal(UnsignedTxView::can_estimate);
            let input = &self.inputs[k];
            assert(self@.inputs[k as int].output.wf());
            let sig_ser = zero_bytes(MAX_SIGNATURE_SIZE);
            let pub_key_ser = zero_bytes(PUBKEY_SIZE);
            let pre_image = PreImage::empty(input.output.script_code());
            let script = input.output.sig_script(
                sig_ser,
                pub_key_ser,
                &pre_image,
                self.outputs.as_slice(),
            );
            tx_inputs.push(TxInput::new(input.outpoint, script, input.sequence));
            k += 1;
        }
        assert(view_inputs(tx_inputs@) =~= self@.estimate_tx().inputs);
        let mut vec = Vec::new();
        let tx = Tx::new(self.version, tx_inputs, clone_outputs(&self.outputs), self.lock_time);
        tx.write_to_stream(&mut vec);
        assert(vec@ =~= self@.estimate_tx().wire());
        vec.len() + 2
    }

    /// The transaction with its unlocking scripts. Input `i` is unlocked with
    /// signature `i`, behind which the byte of its kind is put, and public key
    /// `i`; inputs without a signature or key are left out.
    pub fn sign(&self, serialized_signatures: Vec<Vec<u8>>, serialized_pub_keys: Vec<Vec<u8>>) -> (tx:
        Tx)
        requires
            self@.can_sign(
                crate::outputs::view_pushes(serialized_signatures@),
                crate::outputs::view_pushes(serialized_pub_keys@),
            ),
        ensures
            tx@ == self@.signed(
                crate::outputs::view_pushes(serialized_signatures@),
                crate::outputs::view_pushes(serialized_pub_keys@),
            ),
    {
        let sighash_type: u32 = SIGHASH_ALL_FORKID;
        let ghost sigs = crate::outputs::view_pushes(serialized_signatures@);
        let ghost pub_keys = crate::outputs::view_pushes(serialized_pub_keys@);
        let pre_images = self.pre_images(sighash_type);
        let mut count = self.inputs.len();
        if serialized_signatures.len() < count {
            count = serialized_signatures.len();
        }
        if serialized_pub_keys.len() < count {
            count = serialized_pub_keys.len();
        }
        let mut tx_inputs: Vec<TxInput> = Vec::with_capacity(self.inputs.len());
        let mut k: usize = 0;
        while k < count
            invariant
                k <= count,
                count == self@.signed_count(sigs, pub_keys),
                sigs == crate::outputs::view_pushes(serialized_signatures@),
                pub_keys == crate::outputs::view_pushes(serialized_pub_keys@),
                self@.can_sign(sigs, pub_keys),
                pre_images.len() == self@.inputs.len(),
                forall|i: int|
                    0 <= i < pre_images.len() ==> (#[trigger] pre_images[i])@ == self@.pre_image(
                        i,
                        0x41,
                    ),
                tx_inputs.len() == k,
                forall|i: int|
                    0 <= i < k ==> (#[trigger] tx_inputs[i])@ == self@.signed_input(
                        i,
                        sigs[i],
                        pub_keys[i],
                    ),
            decreases count - k,
        {
            let input = &self.inputs[k];
            let mut serialized_signature = serialized_signatures[k].clone();
            serialized_signature.push(0x41);
            let serialized_pub_key = serialized_pub_keys[k].clone();
            assert(self@.inputs[k as int].output.can_sign(sigs[k as int].push(0x41u8), self@.outputs));
            let script = input.output.sig_script(
                serialized_signature,
                serialized_pub_key,
                &pre_images[k],
                self.outputs.as_slice(),
            );
            tx_inputs.push(TxInput::new(input.outpoint, script, input.sequence));
            k += 1;
        }
        assert(view_inputs(tx_inputs@) =~= self@.signed(sigs, pub_keys).inputs);
        Tx::new(self.version, tx_inputs, clone_outputs(&self.outputs), self.lock_time)
    }
}

/// What comes of putting in an output for what is left over.
pub enum Leftover {
    /// The inputs do not pay for the outputs and the fee; this much is missing.
    Shortfall(u64),
    /// What is left over is below the dust limit: no output is put in.
    Dust,
    /// An output with this amount is put in.
    Change(u64),
}

impl UnsignedTxView {
    /// The transaction with the placeholder for the leftover output: an
    /// output to `address` with the greatest amount there is.
    pub open spec fn with_placeholder(self, idx: int, address: Address) -> UnsignedTxView {
        self.with_output(idx, p2pkh_output(u64::MAX, address))
    }

    /// The amounts of the outputs and the fee for the size without a leftover
    /// output.
    pub open spec fn spent_without(self, fee_per_kb: u64) -> nat {
        sum_outputs(self.outputs) + spec_fee(self.estimate_size(), fee_per_kb)
    }

    /// The amounts of the outputs and the fee for the size with a leftover
    /// output at `idx`.
    pub open spec fn spent_with(self, idx: int, address: Address, fee_per_kb: u64) -> nat {
        sum_outputs(self.outputs) + spec_fee(
            self.with_placeholder(idx, address).estimate_size(),
            fee_per_kb,
        )
    }

    /// What comes of putting in a leftover output at `idx`. Where the inputs do
    /// not pay for the outputs and the fee without it, what is missing with it;
    /// where less than the dust limit is left over without it, nothing; else the
    /// amount that is left over with it.
    pub open spec fn leftover(self, idx: int, address: Address, fee_per_kb: u64, dust_limit: u64)
        -> Leftover {
        let total_input = sum_inputs(self.inputs);
        let spent_without = self.spent_without(fee_per_kb);
        let spent = self.spent_with(idx, address, fee_per_kb);
        if spent_without > total_input {
            Leftover::Shortfall((spent - total_input) as u64)
        } else if total_input - spent_without < dust_limit {
            Leftover::Dust
        } else {
            Leftover::Change((total_input - spent) as u64)
        }
    }

    /// Whether a leftover output can be put in at `idx`: the place is there,
    /// the size can be reckoned with and without it, and the sums, the fees and
    /// the differences that are taken are numbers of 64 bits.
    pub open spec fn can_insert_leftover(
        self,
        idx: int,
        address: Address,
        fee_per_kb: u64,
        dust_limit: u64,
    ) -> bool {
        let total_input = sum_inputs(self.inputs);
        let spent_without = self.spent_without(fee_per_kb);
        let spent = self.spent_with(idx, address, fee_per_kb);
        &&& 0 <= idx <= self.outputs.len()
        &&& self.can_estimate()
        &&& self.with_placeholder(idx, address).can_estimate()
        &&& total_input <= u64::MAX
        &&& self.estimate_size() * fee_per_kb <= u64::MAX
        &&& self.with_placeholder(idx, address).estimate_size() * fee_per_kb <= u64::MAX
        &&& spent_without <= u64::MAX
        &&& spent <= u64::MAX
        &&& spent_without > total_input ==> spent >= total_input
        &&& spent_without <= total_input && total_input - spent_without >= dust_limit ==> spent
            <= total_input
    }
}

/// The first outputs hold no more than all of them.
pub proof fn lemma_sum_outputs_take(outputs: Seq<TxOutputView>, k: int)
    requires
        0 <= k <= outputs.len(),
    ensures
        sum_outputs(outputs.take(k)) <= sum_outputs(outputs),
    decreases outputs.len() - k,
{
    if k < outputs.len() {
        lemma_sum_outputs_take(outputs, k + 1);
        assert(outputs.take(k + 1).drop_last() =~= outputs.take(k));
    } else {
        assert(outputs.take(k) =~= outputs);
    }
}

/// The first inputs hold no more than all of them.
pub proof fn lemma_sum_inputs_take(inputs: Seq<UnsignedInput>, k: int)
    requires
        0 <= k <= inputs.len(),
    ensures
        sum_inputs(inputs.take(k)) <= sum_inputs(inputs),
    decreases inputs.len() - k,
{
    if k < inputs.len() {
        lemma_sum_inputs_take(inputs, k + 1);
        assert(inputs.take(k + 1).drop_last() =~= inputs.take(k));
    } else {
        assert(inputs.take(k) =~= inputs);
    }
}

/// One more output adds its amount to the sum.
pub proof fn lemma_sum_outputs_insert(outputs: Seq<TxOutputView>, idx: int, output: TxOutputView)
    requires
        0 <= idx <= outputs.len(),
    ensures
        sum_outputs(outputs.insert(idx, output)) == sum_outputs(outputs) + output.value,
    decreases outputs.len(),
{
    let more = outputs.insert(idx, output);
    if idx == outputs.len() {
        assert(more.drop_last() =~= outputs);
    } else {
        lemma_sum_outputs_insert(outputs.drop_last(), idx, output);
        assert(more.drop_last() =~= outputs.drop_last().insert(idx, output));
        assert(more.last() == outputs.last());
    }
}

impl UnsignedTx {
    /// The sum of the amounts of the outputs.
    fn total_output_amount(&self) -> (total: u64)
        requires
            sum_outputs(self@.outputs) <= u64::MAX,
        ensures
            total == sum_outputs(self@.outputs),
    {
        let ghost all = view_outputs(self.outputs@);
        let mut total: u64 = 0;
        let mut k: usize = 0;
        proof {
            assert(all.take(0) =~= Seq::<TxOutputView>::empty());
        }
        while k < self.outputs.len()
            invariant
                k <= self.outputs.len(),
                all == view_outputs(self.outputs@),
                sum_outputs(all) <= u64::MAX,
                total == sum_outputs(all.take(k as int)),
            decreases self.outputs.len() - k,
        {
            proof {
                lemma_sum_outputs_take(all, k + 1);
                assert(all.take(k + 1).drop_last() =~= all.take(k as int));
            }
            total = total + self.outputs[k].value;
            k += 1;
        }
        proof {
            assert(all.take(k as int) =~= all);
        }
        total
    }

    /// The sum of the amounts that the inputs spend.
    fn total_input_amount(&self) -> (total: u64)
        requires
            sum_inputs(self@.inputs) <= u64::MAX,
        ensures
            total == sum_inputs(self@.inputs),
    {
        let mut total: u64 = 0;
        let mut k: usize = 0;
        proof {
            assert(self.inputs@.take(0) =~= Seq::<UnsignedInput>::empty());
        }
        while k < self.inputs.len()
            invariant
                k <= self.inputs.len(),
                sum_inputs(self.inputs@) <= u64::MAX,
                total == sum_inputs(self.inputs@.take(k as int)),
            decreases self.inputs.len() - k,
        {
            proof {
                lemma_sum_inputs_take(self.inputs@, k + 1);
                assert(self.inputs@.take(k + 1).drop_last() =~= self.inputs@.take(k as int));
            }
            total = total + self.inputs[k].output.value();
            k += 1;
        }
        proof {
            assert(self.inputs@.take(k as int) =~= self.inputs@);
        }
        total
    }

    /// Puts in, before the output at `leftover_idx`, an output to
    /// `leftover_addr` that takes what the inputs leave over after the outputs
    /// and the fee, and gives its index. The fee is reckoned from the size with
    /// that output, at `fee_per_kb` for a thousand bytes. Where the inputs do
    /// not pay for the outputs and the fee without it, the error is what is
    /// missing with it; where less than `dust_limit` is left over without it,
    /// nothing is given; in both cases the transaction stays as it was. Where
    /// the output is put in, what the inputs hold is what the outputs hold and
    /// the fee, and the fee is that for the size of the transaction as it then
    /// stands.
    pub fn insert_leftover_output(
        &mut self,
        leftover_idx: usize,
        leftover_addr: Address,
        fee_per_kb: u64,
        dust_limit: u64,
    ) -> (r: Result<Option<usize>, u64>)
        requires
            old(self)@.can_insert_leftover(
                leftover_idx as int,
                leftover_addr,
                fee_per_kb,
                dust_limit,
            ),
        ensures
            match old(self)@.leftover(leftover_idx as int, leftover_addr, fee_per_kb, dust_limit) {
                Leftover::Shortfall(missing) => r == Err::<Option<usize>, u64>(missing)
                    && final(self)@ == old(self)@,
                Leftover::Dust => r == Ok::<Option<usize>, u64>(None) && final(self)@ == old(
                    self,
                )@,
                Leftover::Change(value) => r == Ok::<Option<usize>, u64>(Some(leftover_idx))
                    && final(self)@ == old(self)@.with_output(
                    leftover_idx as int,
                    p2pkh_output(value, leftover_addr),
                ) && sum_inputs(final(self)@.inputs) == sum_outputs(final(self)@.outputs)
                    + spec_fee(
                    old(self)@.with_placeholder(leftover_idx as int, leftover_addr).estimate_size(),
                    fee_per_kb,
                ) && (final(self)@.can_estimate() ==> final(self)@.estimate_size() == old(
                    self,
                )@.with_placeholder(leftover_idx as int, leftover_addr).estimate_size()),
            },
    {
        let ghost before = self@;
        let total_output_amount = self.total_output_amount();
        let mut leftover = P2PKHOutput {
            value: 0xffffffff_ffffffff,  // definitely invalid
            address: leftover_addr,
        };
        let tx_size_without = self.estimate_size();
        self.insert_output(
            leftover_idx,
            TxOutput { value: leftover.value(), script: leftover.script() },
        );
        let tx_size = self.estimate_size();
        let fee = fee_for(tx_size, fee_per_kb);
        let fee_without = fee_for(tx_size_without, fee_per_kb);
        let total_input_amount = self.total_input_amount();
        let total_spent = total_output_amount + fee;
        let total_spent_without = total_output_amount + fee_without;
        let ghost placeholder = p2pkh_output(u64::MAX, leftover_addr);
        assert(self@.outputs == before.outputs.insert(leftover_idx as int, placeholder));
        if total_spent_without > total_input_amount {
            self.remove_output(leftover_idx);
            assert(self@.outputs =~= before.outputs);
            return Err(total_spent - total_input_amount);
        } else if total_input_amount - total_spent_without < dust_limit {
            self.remove_output(leftover_idx);
            assert(self@.outputs =~= before.outputs);
            return Ok(None);
        }
        leftover.value = total_input_amount - total_spent;
        self.replace_output(
            leftover_idx,
            TxOutput { value: leftover.value(), script: leftover.script() },
        );
        proof {
            let output = p2pkh_output(leftover.value, leftover_addr);
            assert(self@.outputs =~= before.outputs.insert(leftover_idx as int, output));
            lemma_sum_outputs_insert(before.outputs, leftover_idx as int, output);
            if self@.can_estimate() {
                let with = before.with_placeholder(leftover_idx as int, leftover_addr);
                assert(crate::size::same_scripts(with.outputs, self@.outputs));
                crate::size::lemma_estimate_same(with, self@);
            }
        }
        Ok(Some(leftover_idx))
    }

    /// Puts the leftover output behind all others.
    pub fn add_leftover_output(&mut self, leftover_addr: Address, fee_per_kb: u64, dust_limit: u64)
        -> (r: Result<Option<usize>, u64>)
        requires
            old(self)@.can_insert_leftover(
                old(self)@.outputs.len() as int,
                leftover_addr,
                fee_per_kb,
                dust_limit,
            ),
        ensures
            match old(self)@.leftover(
                old(self)@.outputs.len() as int,
                leftover_addr,
                fee_per_kb,
                dust_limit,
            ) {
                Leftover::Shortfall(missing) => r == Err::<Option<usize>, u64>(missing)
                    && final(self)@ == old(self)@,
                Leftover::Dust => r == Ok::<Option<usize>, u64>(None) && final(self)@ == old(
                    self,
                )@,
                Leftover::Change(value) => r == Ok::<Option<usize>, u64>(
                    Some(old(self)@.outputs.len() as usize),
                ) && final(self)@ == old(self)@.with_output(
                    old(self)@.outputs.len() as int,
                    p2pkh_output(value, leftover_addr),
                ) && sum_inputs(final(self)@.inputs) == sum_outputs(final(self)@.outputs)
                    + spec_fee(
                    old(self)@.with_placeholder(
                        old(self)@.outputs.len() as int,
                        leftover_addr,
                    ).estimate_size(),
                    fee_per_kb,
                ) && (final(self)@.can_estimate() ==> final(self)@.estimate_size() == old(
                    self,
                )@.with_placeholder(
                    old(self)@.outputs.len() as int,
                    leftover_addr,
                ).estimate_size()),
            },
    {
        let idx = self.outputs.len();
        self.insert_leftover_output(idx, leftover_addr, fee_per_kb, dust_limit)
    }
}

} // verus!
