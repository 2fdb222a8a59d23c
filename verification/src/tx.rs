//! Transactions and their wire form.

use crate::hash::{double_sha256, spec_double_sha256};
use crate::script::{parse_script, Script, ScriptView};
use crate::serialize::{
    bits_i32, get_i32_le, get_u32_le, get_u64_le, i32_bits, le_bytes, le_value,
    lemma_le_bytes_len, lemma_le_value_le_bytes, lemma_pow256_values, lemma_var_int_round_trip,
    lemma_var_str_round_trip, put_i32_le, put_u32_le, put_u64_le, read_var_int, read_var_str,
    spec_read_var_int, spec_read_var_str, spec_var_int, spec_var_str, write_var_int,
    write_var_str, InvalidData,
};
use vstd::prelude::*;

verus! {

/// What a [`TxOutpoint`] is.
pub struct TxOutpointView {
    pub tx_hash: Seq<u8>,
    pub vout: u32,
}

/// The place of an output: the hash of its transaction and its index there.
#[derive(Clone, Copy, Debug)]
pub struct TxOutpoint {
    pub tx_hash: [u8; 32],
    pub vout: u32,
}

impl View for TxOutpoint {
    type V = TxOutpointView;

    open spec fn view(&self) -> TxOutpointView {
        TxOutpointView { tx_hash: self.tx_hash@, vout: self.vout }
    }
}

impl TxOutpointView {
    /// The wire form: the hash, then the index, least significant byte first.
    pub open spec fn wire(self) -> Seq<u8> {
        self.tx_hash + le_bytes(self.vout as nat, 4)
    }
}

/// What a [`TxInput`] is.
pub struct TxInputView {
    pub outpoint: TxOutpointView,
    pub script: ScriptView,
    pub sequence: u32,
}

/// An input: the output it spends, the script that unlocks it, and a
/// sequence number.
#[derive(Debug)]
pub struct TxInput {
    pub outpoint: TxOutpoint,
    pub script: Script,
    pub sequence: u32,
}

impl View for TxInput {
    type V = TxInputView;

    open spec fn view(&self) -> TxInputView {
        TxInputView { outpoint: self.outpoint@, script: self.script@, sequence: self.sequence }
    }
}

impl TxInputView {
    /// The wire form: the place of the output that is spent, the script behind
    /// its length, and the sequence number.
    pub open spec fn wire(self) -> Seq<u8> {
        self.outpoint.wire() + spec_var_str(self.script.wire()) + le_bytes(
            self.sequence as nat,
            4,
        )
    }

    /// Whether the input can be written and read back: its hash has 32
    /// bytes, and its script has a wire form whose length is a compact size.
    pub open spec fn wf(self) -> bool {
        &&& self.outpoint.tx_hash.len() == 32
        &&& self.script.writable()
        &&& self.script.wire().len() <= u64::MAX
    }
}

/// What a [`TxOutput`] is.
pub struct TxOutputView {
    pub value: u64,
    pub script: ScriptView,
}

/// An output: an amount and the script that locks it.
#[derive(Debug)]
pub struct TxOutput {
    pub value: u64,
    pub script: Script,
}

impl View for TxOutput {
    type V = TxOutputView;

    open spec fn view(&self) -> TxOutputView {
        TxOutputView { value: self.value, script: self.script@ }
    }
}

impl TxOutputView {
    /// The wire form: the amount in eight bytes and the script behind its
    /// length.
    pub open spec fn wire(self) -> Seq<u8> {
        le_bytes(self.value as nat, 8) + spec_var_str(self.script.wire())
    }

    /// Whether the output can be written and read back.
    pub open spec fn wf(self) -> bool {
        &&& self.script.writable()
        &&& self.script.wire().len() <= u64::MAX
    }
}

/// The views of inputs.
pub open spec fn view_inputs(inputs: Seq<TxInput>) -> Seq<TxInputView> {
    Seq::new(inputs.len(), |i: int| inputs[i]@)
}

/// The views of outputs.
pub open spec fn view_outputs(outputs: Seq<TxOutput>) -> Seq<TxOutputView> {
    Seq::new(outputs.len(), |i: int| outputs[i]@)
}

/// The wire forms of inputs, one behind the other.
pub open spec fn inputs_wire(inputs: Seq<TxInputView>) -> Seq<u8>
    decreases inputs.len(),
{
    if inputs.len() == 0 {
        Seq::empty()
    } else {
        inputs_wire(inputs.drop_last()) + inputs.last().wire()
    }
}

/// The wire forms of outputs, one behind the other.
pub open spec fn outputs_wire(outputs: Seq<TxOutputView>) -> Seq<u8>
    decreases outputs.len(),
{
    if outputs.len() == 0 {
        Seq::empty()
    } else {
        outputs_wire(outputs.drop_last()) + outputs.last().wire()
    }
}

/// Whether every input can be written.
pub open spec fn inputs_wf(inputs: Seq<TxInputView>) -> bool {
    forall|i: int| 0 <= i < inputs.len() ==> (#[trigger] inputs[i]).wf()
}

/// Whether every output can be written.
pub open spec fn outputs_wf(outputs: Seq<TxOutputView>) -> bool {
    forall|i: int| 0 <= i < outputs.len() ==> (#[trigger] outputs[i]).wf()
}

/// What a [`Tx`] is.
pub struct TxView {
    pub version: i32,
    pub inputs: Seq<TxInputView>,
    pub outputs: Seq<TxOutputView>,
    pub lock_time: u32,
}

/// A transaction.
#[derive(Debug)]
pub struct Tx {
    version: i32,
    inputs: Vec<TxInput>,
    outputs: Vec<TxOutput>,
    lock_time: u32,
}

impl View for Tx {
    type V = TxView;

    closed spec fn view(&self) -> TxView {
        TxView {
            version: self.version,
            inputs: view_inputs(self.inputs@),
            outputs: view_outputs(self.outputs@),
            lock_time: self.lock_time,
        }
    }
}

impl TxView {
    /// The wire form: version, inputs behind their count, outputs behind their
    /// count, lock time.
    pub open spec fn wire(self) -> Seq<u8> {
        le_bytes(i32_bits(self.version), 4) + spec_var_int(self.inputs.len() as u64)
            + inputs_wire(self.inputs) + spec_var_int(self.outputs.len() as u64) + outputs_wire(
            self.outputs,
        ) + le_bytes(self.lock_time as nat, 4)
    }

    /// Whether the transaction can be written and read back.
    pub open spec fn wf(self) -> bool {
        &&& self.inputs.len() <= u64::MAX
        &&& self.outputs.len() <= u64::MAX
        &&& inputs_wf(self.inputs)
        &&& outputs_wf(self.outputs)
    }
}

/// The input at the start of `s` and the count of bytes it takes.
#[verifier::opaque]
pub open spec fn parse_input(s: Seq<u8>) -> Result<(TxInputView, nat), InvalidData> {
    if s.len() < 36 {
        Err(InvalidData::Truncated)
    } else {
        match spec_read_var_str(s.skip(36)) {
            None => Err(InvalidData::Truncated),
            Some((script, used)) => if s.len() < 36 + used + 4 {
                Err(InvalidData::Truncated)
            } else {
                match parse_script(script) {
                    None => Err(InvalidData::BadScript),
                    Some(script) => Ok(
                        (
                            TxInputView {
                                outpoint: TxOutpointView {
                                    tx_hash: s.subrange(0, 32),
                                    vout: le_value(s.subrange(32, 36)) as u32,
                                },
                                script,
                                sequence: le_value(
                                    s.subrange((36 + used) as int, (36 + used + 4) as int),
                                ) as u32,
                            },
                            (36 + used + 4) as nat,
                        ),
                    ),
                }
            },
        }
    }
}

/// The output at the start of `s` and the count of bytes it takes.
#[verifier::opaque]
pub open spec fn parse_output(s: Seq<u8>) -> Result<(TxOutputView, nat), InvalidData> {
    if s.len() < 8 {
        Err(InvalidData::Truncated)
    } else {
        match spec_read_var_str(s.skip(8)) {
            None => Err(InvalidData::Truncated),
            Some((script, used)) => match parse_script(script) {
                None => Err(InvalidData::BadScript),
                Some(script) => Ok(
                    (
                        TxOutputView { value: le_value(s.subrange(0, 8)) as u64, script },
                        (8 + used) as nat,
                    ),
                ),
            },
        }
    }
}

/// The `n` inputs at the start of `s` and the count of bytes they take.
#[verifier::opaque]
pub open spec fn parse_inputs(s: Seq<u8>, n: nat) -> Result<(Seq<TxInputView>, nat), InvalidData>
    decreases n,
{
    if n == 0 {
        Ok((Seq::empty(), 0nat))
    } else {
        match parse_input(s) {
            Err(e) => Err(e),
            Ok((first, used)) => match parse_inputs(s.skip(used as int), (n - 1) as nat) {
                Err(e) => Err(e),
                Ok((rest, more)) => Ok((seq![first] + rest, used + more)),
            },
        }
    }
}

/// The `n` outputs at the start of `s` and the count of bytes they take.
#[verifier::opaque]
pub open spec fn parse_outputs(s: Seq<u8>, n: nat) -> Result<
    (Seq<TxOutputView>, nat),
    InvalidData,
>
    decreases n,
{
    if n == 0 {
        Ok((Seq::empty(), 0nat))
    } else {
        match parse_output(s) {
            Err(e) => Err(e),
            Ok((first, used)) => match parse_outputs(s.skip(used as int), (n - 1) as nat) {
                Err(e) => Err(e),
                Ok((rest, more)) => Ok((seq![first] + rest, used + more)),
            },
        }
    }
}

/// The inputs behind their count at the start of `s`, and the count of bytes
/// that both take.
#[verifier::opaque]
pub open spec fn parse_counted_inputs(s: Seq<u8>) -> Result<(Seq<TxInputView>, nat), InvalidData> {
    match spec_read_var_int(s) {
        None => Err(InvalidData::Truncated),
        Some((n, used)) => match parse_inputs(s.skip(used as int), n as nat) {
            Err(e) => Err(e),
            Ok((inputs, len)) => Ok((inputs, used + len)),
        },
    }
}

/// The outputs behind their count at the start of `s`, and the count of bytes
/// that both take.
#[verifier::opaque]
pub open spec fn parse_counted_outputs(s: Seq<u8>) -> Result<
    (Seq<TxOutputView>, nat),
    InvalidData,
> {
    match spec_read_var_int(s) {
        None => Err(InvalidData::Truncated),
        Some((n, used)) => match parse_outputs(s.skip(used as int), n as nat) {
            Err(e) => Err(e),
            Ok((outputs, len)) => Ok((outputs, used + len)),
        },
    }
}

/// The transaction at the start of `s` and the count of bytes it takes.
pub open spec fn parse_tx(s: Seq<u8>) -> Result<(TxView, nat), InvalidData> {
    if s.len() < 4 {
        Err(InvalidData::Truncated)
    } else {
        match parse_counted_inputs(s.skip(4)) {
            Err(e) => Err(e),
            Ok((inputs, len_in)) => match parse_counted_outputs(s.skip(4 + len_in as int)) {
                Err(e) => Err(e),
                Ok((outputs, len_out)) => {
                    let at_lock: int = 4 + len_in as int + len_out as int;
                    if s.len() < at_lock + 4 {
                        Err(InvalidData::Truncated)
                    } else {
                        Ok(
                            (
                                TxView {
                                    version: bits_i32(le_value(s.subrange(0, 4))),
                                    inputs,
                                    outputs,
                                    lock_time: le_value(s.subrange(at_lock, at_lock + 4)) as u32,
                                },
                                (at_lock + 4) as nat,
                            ),
                        )
                    }
                },
            },
        }
    }
}

/// The bytes of `data` from `at` on as an array of `N`.
pub(crate) fn array_from_slice<const N: usize>(data: &[u8], at: usize) -> (arr: [u8; N])
    requires
        at + N <= data.len(),
    ensures
        arr@ == data@.subrange(at as int, at + N),
{
    let mut arr = [0u8;N];
    let mut i: usize = 0;
    while i < N
        invariant
            i <= N,
            at + N <= data.len(),
            forall|k: int| 0 <= k < i ==> arr@[k] == data@[at + k],
        decreases N - i,
    {
        arr[i] = data[at + i];
        i += 1;
    }
    assert(arr@ =~= data@.subrange(at as int, at + N));
    arr
}

impl TxOutpoint {
    /// The wire form: the hash, then the index, least significant byte first.
    pub fn bytes(&self) -> (key: [u8; 36])
        ensures
            key@ == self@.wire(),
    {
        let mut vec: Vec<u8> = Vec::new();
        vec.extend_from_slice(self.tx_hash.as_slice());
        put_u32_le(&mut vec, self.vout);
        proof {
            lemma_le_bytes_len(self.vout as nat, 4);
        }
        let key = array_from_slice::<36>(vec.as_slice(), 0);
        assert(key@ =~= self@.wire());
        key
    }
}

impl Clone for TxInput {
    fn clone(&self) -> (input: Self)
        ensures
            input@ == self@,
    {
        TxInput { outpoint: self.outpoint, script: self.script.clone(), sequence: self.sequence }
    }
}

impl Clone for TxOutput {
    fn clone(&self) -> (output: Self)
        ensures
            output@ == self@,
    {
        TxOutput { value: self.value, script: self.script.clone() }
    }
}

impl TxInput {
    /// An input of these parts.
    pub fn new(outpoint: TxOutpoint, script: Script, sequence: u32) -> (input: Self)
        ensures
            input == (TxInput { outpoint, script, sequence }),
    {
        TxInput { outpoint, script, sequence }
    }

    /// The script.
    pub fn script(&self) -> (script: &Script)
        ensures
            script == self.script,
    {
        &self.script
    }

    /// Reads the input that starts at `pos`; gives it and the position behind
    /// it.
    pub fn read_from_stream(data: &[u8], pos: usize) -> (r: Result<(Self, usize), InvalidData>)
        requires
            pos <= data.len(),
        ensures
            match parse_input(data@.skip(pos as int)) {
                Ok((input, used)) => r matches Ok((i, end)) && i@ == input && end == pos + used
                    && end <= data.len(),
                Err(e) => r matches Err(x) && x == e,
            },
    {
        reveal(parse_input);
        let ghost s = data@.skip(pos as int);
        if data.len() - pos < 36 {
            return Err(InvalidData::Truncated);
        }
        let tx_hash = array_from_slice::<32>(data, pos);
        assert(tx_hash@ =~= s.subrange(0, 32));
        let vout = match get_u32_le(data, pos + 32) {
            Some(vout) => vout,
            None => {
                return Err(InvalidData::Truncated);
            },
        };
        assert(s.subrange(32, 36) =~= data@.subrange(pos + 32, pos + 36));
        assert(s.skip(36) =~= data@.skip(pos + 36));
        let (script, at) = match read_var_str(data, pos + 36) {
            Ok(read) => read,
            Err(e) => {
                return Err(e);
            },
        };
        let sequence = match get_u32_le(data, at) {
            Some(sequence) => sequence,
            None => {
                return Err(InvalidData::Truncated);
            },
        };
        assert(s.subrange(at - pos, at - pos + 4) =~= data@.subrange(at as int, at + 4));
        match Script::from_serialized(script.as_slice()) {
            Some(script) => Ok(
                (TxInput { outpoint: TxOutpoint { tx_hash, vout }, script, sequence }, at + 4),
            ),
            None => Err(InvalidData::BadScript),
        }
    }

    /// Appends the wire form to `write`.
    pub fn write_to_stream(&self, write: &mut Vec<u8>)
        requires
            self@.script.writable(),
        ensures
            final(write)@ == old(write)@ + self@.wire(),
    {
        write.extend_from_slice(self.outpoint.tx_hash.as_slice());
        put_u32_le(write, self.outpoint.vout);
        let script = self.script.to_vec();
        write_var_str(write, script.as_slice());
        put_u32_le(write, self.sequence);
        assert(write@ =~= old(write)@ + self@.wire());
    }
}

impl TxOutput {
    /// An output of these parts.
    pub fn new(value: u64, script: Script) -> (output: Self)
        ensures
            output == (TxOutput { value, script }),
    {
        TxOutput { value, script }
    }

    /// Reads the output that starts at `pos`; gives it and the position behind
    /// it.
    pub fn read_from_stream(data: &[u8], pos: usize) -> (r: Result<(Self, usize), InvalidData>)
        requires
            pos <= data.len(),
        ensures
            match parse_output(data@.skip(pos as int)) {
                Ok((output, used)) => r matches Ok((o, end)) && o@ == output && end == pos + used
                    && end <= data.len(),
                Err(e) => r matches Err(x) && x == e,
            },
    {
        reveal(parse_output);
        let ghost s = data@.skip(pos as int);
        let value = match get_u64_le(data, pos) {
            Some(value) => value,
            None => {
                return Err(InvalidData::Truncated);
            },
        };
        assert(s.subrange(0, 8) =~= data@.subrange(pos as int, pos + 8));
        assert(s.skip(8) =~= data@.skip(pos + 8));
        let (script, at) = match read_var_str(data, pos + 8) {
            Ok(read) => read,
            Err(e) => {
                return Err(e);
            },
        };
        match Script::from_serialized(script.as_slice()) {
            Some(script) => Ok((TxOutput { value, script }, at)),
            None => Err(InvalidData::BadScript),
        }
    }

    /// Appends the wire form to `write`.
    pub fn write_to_stream(&self, write: &mut Vec<u8>)
        requires
            self@.script.writable(),
        ensures
            final(write)@ == old(write)@ + self@.wire(),
    {
        put_u64_le(write, self.value);
        let script = self.script.to_vec();
        write_var_str(write, script.as_slice());
        assert(write@ =~= old(write)@ + self@.wire());
    }

    /// The script.
    pub fn script(&self) -> (script: &Script)
        ensures
            script == self.script,
    {
        &self.script
    }
}

/// Appends the wire forms of `outputs[from..to]` to `write`.
pub fn write_outputs(outputs: &[TxOutput], from: usize, to: usize, write: &mut Vec<u8>)
    requires
        from <= to <= outputs.len(),
        forall|i: int| from <= i < to ==> outputs[i]@.script.writable(),
    ensures
        final(write)@ == old(write)@ + outputs_wire(
            view_outputs(outputs@).subrange(from as int, to as int),
        ),
{
    let ghost all = view_outputs(outputs@);
    let mut idx = from;
    proof {
        assert(all.subrange(from as int, from as int) =~= Seq::<TxOutputView>::empty());
        assert(write@ =~= old(write)@ + Seq::<u8>::empty());
    }
    while idx < to
        invariant
            from <= idx <= to <= outputs.len(),
            all == view_outputs(outputs@),
            forall|i: int| from <= i < to ==> outputs[i]@.script.writable(),
            write@ == old(write)@ + outputs_wire(all.subrange(from as int, idx as int)),
        decreases to - idx,
    {
        proof {
            let done = all.subrange(from as int, idx as int);
            let next = all.subrange(from as int, idx + 1);
            assert(next.drop_last() =~= done);
            assert(next.last() == outputs[idx as int]@);
            assert(old(write)@ + outputs_wire(done) + outputs[idx as int]@.wire() =~= old(write)@
                + outputs_wire(next));
        }
        outputs[idx].write_to_stream(write);
        idx += 1;
    }
}

/// Reads the inputs behind their count at `start`; gives them and the position
/// behind them.
fn read_counted_inputs(data: &[u8], start: usize) -> (r: Result<
    (Vec<TxInput>, usize),
    InvalidData,
>)
    requires
        start <= data.len(),
    ensures
        match parse_counted_inputs(data@.skip(start as int)) {
            Ok((inputs, used)) => r matches Ok((v, end)) && view_inputs(v@) == inputs && end
                == start + used && end <= data.len(),
            Err(e) => r matches Err(x) && x == e,
        },
{
    reveal(parse_counted_inputs);
    let (n, at) = match read_var_int(data, start) {
        Ok(read) => read,
        Err(e) => {
            return Err(e);
        },
    };
    assert(data@.skip(start as int).skip(at - start) =~= data@.skip(at as int));
    read_inputs(data, at, n)
}

/// Reads the outputs behind their count at `start`; gives them and the
/// position behind them.
fn read_counted_outputs(data: &[u8], start: usize) -> (r: Result<
    (Vec<TxOutput>, usize),
    InvalidData,
>)
    requires
        start <= data.len(),
    ensures
        match parse_counted_outputs(data@.skip(start as int)) {
            Ok((outputs, used)) => r matches Ok((v, end)) && view_outputs(v@) == outputs && end
                == start + used && end <= data.len(),
            Err(e) => r matches Err(x) && x == e,
        },
{
    reveal(parse_counted_outputs);
    let (n, at) = match read_var_int(data, start) {
        Ok(read) => read,
        Err(e) => {
            return Err(e);
        },
    };
    assert(data@.skip(start as int).skip(at - start) =~= data@.skip(at as int));
    read_outputs(data, at, n)
}

/// Reads `n` inputs from `start` on; gives them and the position behind them.
fn read_inputs(data: &[u8], start: usize, n: u64) -> (r: Result<(Vec<TxInput>, usize), InvalidData>)
    requires
        start <= data.len(),
    ensures
        match parse_inputs(data@.skip(start as int), n as nat) {
            Ok((inputs, used)) => r matches Ok((v, end)) && view_inputs(v@) == inputs && end
                == start + used && end <= data.len(),
            Err(e) => r matches Err(x) && x == e,
        },
{
    reveal_with_fuel(parse_inputs, 2);
    let mut inputs: Vec<TxInput> = Vec::new();
    let mut at = start;
    let mut k: u64 = 0;
    proof {
        match parse_inputs(data@.skip(start as int), n as nat) {
            Ok((rest, more)) => {
                assert(view_inputs(inputs@) + rest =~= rest);
            },
            Err(e) => {},
        }
    }
    while k < n
        invariant
            k <= n,
            start <= at <= data.len(),
            parse_inputs(data@.skip(start as int), n as nat) == match parse_inputs(
                data@.skip(at as int),
                (n - k) as nat,
            ) {
                Ok((rest, more)) => Ok::<(Seq<TxInputView>, nat), InvalidData>(
                    (view_inputs(inputs@) + rest, (at - start + more) as nat),
                ),
                Err(e) => Err(e),
            },
        decreases n - k,
    {
        reveal_with_fuel(parse_inputs, 2);
        let ghost before = view_inputs(inputs@);
        let (input, next) = match TxInput::read_from_stream(data, at) {
            Ok(read) => read,
            Err(e) => {
                return Err(e);
            },
        };
        proof {
            assert(data@.skip(at as int).skip(next - at) =~= data@.skip(next as int));
            match parse_inputs(data@.skip(next as int), (n - k - 1) as nat) {
                Ok((rest, more)) => {
                    assert(before + (seq![input@] + rest) =~= before.push(input@) + rest);
                },
                Err(e) => {},
            }
        }
        inputs.push(input);
        assert(view_inputs(inputs@) =~= before.push(input@));
        at = next;
        k += 1;
    }
    proof {
        assert(view_inputs(inputs@) + Seq::<TxInputView>::empty() =~= view_inputs(inputs@));
    }
    Ok((inputs, at))
}

/// Reads `n` outputs from `start` on; gives them and the position behind them.
fn read_outputs(data: &[u8], start: usize, n: u64) -> (r: Result<
    (Vec<TxOutput>, usize),
    InvalidData,
>)
    requires
        start <= data.len(),
    ensures
        match parse_outputs(data@.skip(start as int), n as nat) {
            Ok((outputs, used)) => r matches Ok((v, end)) && view_outputs(v@) == outputs && end
                == start + used && end <= data.len(),
            Err(e) => r matches Err(x) && x == e,
        },
{
    reveal_with_fuel(parse_outputs, 2);
    let mut outputs: Vec<TxOutput> = Vec::new();
    let mut at = start;
    let mut k: u64 = 0;
    proof {
        match parse_outputs(data@.skip(start as int), n as nat) {
            Ok((rest, more)) => {
                assert(view_outputs(outputs@) + rest =~= rest);
            },
            Err(e) => {},
        }
    }
    while k < n
        invariant
            k <= n,
            start <= at <= data.len(),
            parse_outputs(data@.skip(start as int), n as nat) == match parse_outputs(
                data@.skip(at as int),
                (n - k) as nat,
            ) {
                Ok((rest, more)) => Ok::<(Seq<TxOutputView>, nat), InvalidData>(
                    (view_outputs(outputs@) + rest, (at - start + more) as nat),
                ),
                Err(e) => Err(e),
            },
        decreases n - k,
    {
        reveal_with_fuel(parse_outputs, 2);
        let ghost before = view_outputs(outputs@);
        let (output, next) = match TxOutput::read_from_stream(data, at) {
            Ok(read) => read,
            Err(e) => {
                return Err(e);
            },
        };
        proof {
            assert(data@.skip(at as int).skip(next - at) =~= data@.skip(next as int));
            match parse_outputs(data@.skip(next as int), (n - k - 1) as nat) {
                Ok((rest, more)) => {
                    assert(before + (seq![output@] + rest) =~= before.push(output@) + rest);
                },
                Err(e) => {},
            }
        }
        outputs.push(output);
        assert(view_outputs(outputs@) =~= before.push(output@));
        at = next;
        k += 1;
    }
    proof {
        assert(view_outputs(outputs@) + Seq::<TxOutputView>::empty() =~= view_outputs(outputs@));
    }
    Ok((outputs, at))
}

impl Tx {
    /// A transaction of these parts.
    pub fn new(version: i32, inputs: Vec<TxInput>, outputs: Vec<TxOutput>, lock_time: u32) -> (tx:
        Self)
        ensures
            tx@ == (TxView {
                version,
                inputs: view_inputs(inputs@),
                outputs: view_outputs(outputs@),
                lock_time,
            }),
    {
        Tx { version, inputs, outputs, lock_time }
    }

    /// The hash that names the transaction: SHA-256 twice of the wire form.
    pub fn hash(&self) -> (hash: [u8; 32])
        requires
            self@.wf(),
        ensures
            hash == spec_double_sha256(self@.wire()),
    {
        let mut vec = Vec::new();
        self.write_to_stream(&mut vec);
        assert(vec@ =~= self@.wire());
        double_sha256(vec.as_slice())
    }

    /// Reads the transaction that starts at `pos`; gives it and the position
    /// behind it.
    pub fn read_from_stream(data: &[u8], pos: usize) -> (r: Result<(Self, usize), InvalidData>)
        requires
            pos <= data.len(),
        ensures
            match parse_tx(data@.skip(pos as int)) {
                Ok((tx, used)) => r matches Ok((t, end)) && t@ == tx && end == pos + used && end
                    <= data.len(),
                Err(e) => r matches Err(x) && x == e,
            },
    {
        let ghost s = data@.skip(pos as int);
        let version = match get_i32_le(data, pos) {
            Some(version) => version,
            None => {
                return Err(InvalidData::Truncated);
            },
        };
        assert(s.subrange(0, 4) =~= data@.subrange(pos as int, pos + 4));
        assert(s.skip(4) =~= data@.skip(pos + 4));
        let (inputs, at) = match read_counted_inputs(data, pos + 4) {
            Ok(read) => read,
            Err(e) => {
                return Err(e);
            },
        };
        assert(s.skip(at - pos) =~= data@.skip(at as int));
        let (outputs, at) = match read_counted_outputs(data, at) {
            Ok(read) => read,
            Err(e) => {
                return Err(e);
            },
        };
        let lock_time = match get_u32_le(data, at) {
            Some(lock_time) => lock_time,
            None => {
                return Err(InvalidData::Truncated);
            },
        };
        assert(s.subrange(at - pos, at - pos + 4) =~= data@.subrange(at as int, at + 4));
        Ok((Tx { version, inputs, outputs, lock_time }, at + 4))
    }

    /// Appends the wire form to `write`.
    pub fn write_to_stream(&self, write: &mut Vec<u8>)
        requires
            self@.wf(),
        ensures
            final(write)@ == old(write)@ + self@.wire(),
    {
        put_i32_le(write, self.version);
        write_var_int(write, self.inputs.len() as u64);
        let ghost head = write@;
        let ghost all = view_inputs(self.inputs@);
        let mut idx: usize = 0;
        proof {
            assert(all.take(0) =~= Seq::<TxInputView>::empty());
            assert(write@ =~= head + Seq::<u8>::empty());
        }
        while idx < self.inputs.len()
            invariant
                idx <= self.inputs.len(),
                all == view_inputs(self.inputs@),
                inputs_wf(all),
                write@ == head + inputs_wire(all.take(idx as int)),
            decreases self.inputs.len() - idx,
        {
            proof {
                let done = all.take(idx as int);
                let next = all.take(idx + 1);
                assert(all[idx as int].wf());
                assert(next.drop_last() =~= done);
                assert(next.last() == self.inputs[idx as int]@);
                assert(head + inputs_wire(done) + self.inputs[idx as int]@.wire() =~= head
                    + inputs_wire(next));
            }
            self.inputs[idx].write_to_stream(write);
            idx += 1;
        }
        proof {
            assert(all.take(idx as int) =~= all);
        }
        write_var_int(write, self.outputs.len() as u64);
        proof {
            let outs = view_outputs(self.outputs@);
            assert(outs.subrange(0, outs.len() as int) =~= outs);
            assert forall|i: int| 0 <= i < self.outputs.len() implies self.outputs[i]@.script.writable() by {
                assert(outs[i].wf());
            }
        }
        write_outputs(self.outputs.as_slice(), 0, self.outputs.len(), write);
        put_u32_le(write, self.lock_time);
        assert(write@ =~= old(write)@ + self@.wire());
    }

    /// The inputs.
    pub fn inputs(&self) -> (inputs: &[TxInput])
        ensures
            view_inputs(inputs@) == self@.inputs,
    {
        self.inputs.as_slice()
    }

    /// The outputs.
    pub fn outputs(&self) -> (outputs: &[TxOutput])
        ensures
            view_outputs(outputs@) == self@.outputs,
    {
        self.outputs.as_slice()
    }
}

impl TxInputView {
    /// Whether the input can be written and then read: its hash has 32
    /// bytes, and the wire form of its script is a script.
    pub open spec fn readable(self) -> bool {
        &&& self.outpoint.tx_hash.len() == 32
        &&& self.script.wire().len() <= u64::MAX
        &&& parse_script(self.script.wire()) is Some
    }

    /// The input as reading gives it: the script is the one read from the
    /// wire form.
    pub open spec fn reread(self) -> TxInputView {
        TxInputView { script: parse_script(self.script.wire()).unwrap(), ..self }
    }
}

impl TxOutputView {
    /// Whether the output can be written and then read: the wire form of
    /// its script is a script.
    pub open spec fn readable(self) -> bool {
        &&& self.script.wire().len() <= u64::MAX
        &&& parse_script(self.script.wire()) is Some
    }

    /// The output as reading gives it.
    pub open spec fn reread(self) -> TxOutputView {
        TxOutputView { script: parse_script(self.script.wire()).unwrap(), ..self }
    }
}

impl TxView {
    /// Whether the transaction can be written and then read.
    pub open spec fn readable(self) -> bool {
        &&& self.inputs.len() <= u64::MAX
        &&& self.outputs.len() <= u64::MAX
        &&& forall|i: int| 0 <= i < self.inputs.len() ==> (#[trigger] self.inputs[i]).readable()
        &&& forall|i: int| 0 <= i < self.outputs.len() ==> (#[trigger] self.outputs[i]).readable()
    }

    /// The transaction as reading gives it.
    pub open spec fn reread(self) -> TxView {
        TxView {
            inputs: Seq::new(self.inputs.len(), |i: int| self.inputs[i].reread()),
            outputs: Seq::new(self.outputs.len(), |i: int| self.outputs[i].reread()),
            ..self
        }
    }
}

/// An input in front adds its wire form in front.
pub proof fn lemma_inputs_wire_prepend(first: TxInputView, rest: Seq<TxInputView>)
    ensures
        inputs_wire(seq![first] + rest) == first.wire() + inputs_wire(rest),
    decreases rest.len(),
{
    let all = seq![first] + rest;
    if rest.len() == 0 {
        assert(all.drop_last() =~= Seq::<TxInputView>::empty());
        assert(inputs_wire(all.drop_last()) =~= Seq::<u8>::empty());
        assert(all.last() == first);
        assert(inputs_wire(all) =~= first.wire() + inputs_wire(rest));
    } else {
        lemma_inputs_wire_prepend(first, rest.drop_last());
        assert(all.drop_last() =~= seq![first] + rest.drop_last());
        assert(all.last() == rest.last());
        assert(inputs_wire(all) =~= first.wire() + inputs_wire(rest));
    }
}

/// An output in front adds its wire form in front.
pub proof fn lemma_outputs_wire_prepend(first: TxOutputView, rest: Seq<TxOutputView>)
    ensures
        outputs_wire(seq![first] + rest) == first.wire() + outputs_wire(rest),
    decreases rest.len(),
{
    let all = seq![first] + rest;
    if rest.len() == 0 {
        assert(all.drop_last() =~= Seq::<TxOutputView>::empty());
        assert(outputs_wire(all.drop_last()) =~= Seq::<u8>::empty());
        assert(all.last() == first);
        assert(outputs_wire(all) =~= first.wire() + outputs_wire(rest));
    } else {
        lemma_outputs_wire_prepend(first, rest.drop_last());
        assert(all.drop_last() =~= seq![first] + rest.drop_last());
        assert(all.last() == rest.last());
        assert(outputs_wire(all) =~= first.wire() + outputs_wire(rest));
    }
}

/// Reading the wire form of an input gives the input back, with its script
/// as read, and that has the same wire form.
pub proof fn lemma_input_round_trip(input: TxInputView, rest: Seq<u8>)
    requires
        input.readable(),
    ensures
        parse_input(input.wire() + rest) == Ok::<(TxInputView, nat), InvalidData>(
            (input.reread(), input.wire().len()),
        ),
        input.reread().wire() == input.wire(),
{
    reveal(parse_input);
    let s = input.wire() + rest;
    let script = input.script.wire();
    let tail = le_bytes(input.sequence as nat, 4);
    let framed = spec_var_str(script);
    lemma_pow256_values();
    lemma_le_bytes_len(input.outpoint.vout as nat, 4);
    lemma_le_bytes_len(input.sequence as nat, 4);
    lemma_le_value_le_bytes(input.outpoint.vout as nat, 4);
    lemma_le_value_le_bytes(input.sequence as nat, 4);
    assert(s.skip(36) =~= framed + (tail + rest));
    lemma_var_str_round_trip(script, tail + rest);
    assert(s.subrange(0, 32) =~= input.outpoint.tx_hash);
    assert(s.subrange(32, 36) =~= le_bytes(input.outpoint.vout as nat, 4));
    assert(s.subrange(36 + framed.len() as int, 36 + framed.len() as int + 4) =~= tail);
    assert(input.wire().len() == 36 + framed.len() + 4);
}

/// Reading the wire form of an output gives the output back, with its script
/// as read, and that has the same wire form.
pub proof fn lemma_output_round_trip(output: TxOutputView, rest: Seq<u8>)
    requires
        output.readable(),
    ensures
        parse_output(output.wire() + rest) == Ok::<(TxOutputView, nat), InvalidData>(
            (output.reread(), output.wire().len()),
        ),
        output.reread().wire() == output.wire(),
{
    reveal(parse_output);
    let s = output.wire() + rest;
    let script = output.script.wire();
    let framed = spec_var_str(script);
    lemma_pow256_values();
    lemma_le_bytes_len(output.value as nat, 8);
    lemma_le_value_le_bytes(output.value as nat, 8);
    assert(s.skip(8) =~= framed + rest);
    lemma_var_str_round_trip(script, rest);
    assert(s.subrange(0, 8) =~= le_bytes(output.value as nat, 8));
}

/// Reading the wire forms of inputs gives the inputs back, with their scripts
/// as read, and those have the same wire form.
pub proof fn lemma_inputs_round_trip(inputs: Seq<TxInputView>, rest: Seq<u8>)
    requires
        forall|i: int| 0 <= i < inputs.len() ==> (#[trigger] inputs[i]).readable(),
    ensures
        parse_inputs(inputs_wire(inputs) + rest, inputs.len()) == Ok::<
            (Seq<TxInputView>, nat),
            InvalidData,
        >((Seq::new(inputs.len(), |i: int| inputs[i].reread()), inputs_wire(inputs).len())),
        inputs_wire(Seq::new(inputs.len(), |i: int| inputs[i].reread())) == inputs_wire(inputs),
    decreases inputs.len(),
{
    reveal_with_fuel(parse_inputs, 2);
    let read = Seq::new(inputs.len(), |i: int| inputs[i].reread());
    if inputs.len() == 0 {
        assert(read =~= Seq::<TxInputView>::empty());
    } else {
        let first = inputs[0];
        let tail = inputs.drop_first();
        let read_tail = Seq::new(tail.len(), |i: int| tail[i].reread());
        assert(first.readable());
        assert forall|i: int| 0 <= i < tail.len() implies (#[trigger] tail[i]).readable() by {
            assert(inputs[i + 1].readable());
        }
        assert(inputs =~= seq![first] + tail);
        assert(read =~= seq![first.reread()] + read_tail);
        lemma_inputs_wire_prepend(first, tail);
        lemma_inputs_wire_prepend(first.reread(), read_tail);
        let s = inputs_wire(inputs) + rest;
        assert(s =~= first.wire() + (inputs_wire(tail) + rest));
        lemma_input_round_trip(first, inputs_wire(tail) + rest);
        assert(s.skip(first.wire().len() as int) =~= inputs_wire(tail) + rest);
        lemma_inputs_round_trip(tail, rest);
    }
}

/// Reading the wire forms of outputs gives the outputs back, with their
/// scripts as read, and those have the same wire form.
pub proof fn lemma_outputs_round_trip(outputs: Seq<TxOutputView>, rest: Seq<u8>)
    requires
        forall|i: int| 0 <= i < outputs.len() ==> (#[trigger] outputs[i]).readable(),
    ensures
        parse_outputs(outputs_wire(outputs) + rest, outputs.len()) == Ok::<
            (Seq<TxOutputView>, nat),
            InvalidData,
        >((Seq::new(outputs.len(), |i: int| outputs[i].reread()), outputs_wire(outputs).len())),
        outputs_wire(Seq::new(outputs.len(), |i: int| outputs[i].reread())) == outputs_wire(
            outputs,
        ),
    decreases outputs.len(),
{
    reveal_with_fuel(parse_outputs, 2);
    let read = Seq::new(outputs.len(), |i: int| outputs[i].reread());
    if outputs.len() == 0 {
        assert(read =~= Seq::<TxOutputView>::empty());
    } else {
        let first = outputs[0];
        let tail = outputs.drop_first();
        let read_tail = Seq::new(tail.len(), |i: int| tail[i].reread());
        assert(first.readable());
        assert forall|i: int| 0 <= i < tail.len() implies (#[trigger] tail[i]).readable() by {
            assert(outputs[i + 1].readable());
        }
        assert(outputs =~= seq![first] + tail);
        assert(read =~= seq![first.reread()] + read_tail);
        lemma_outputs_wire_prepend(first, tail);
        lemma_outputs_wire_prepend(first.reread(), read_tail);
        let s = outputs_wire(outputs) + rest;
        assert(s =~= first.wire() + (outputs_wire(tail) + rest));
        lemma_output_round_trip(first, outputs_wire(tail) + rest);
        assert(s.skip(first.wire().len() as int) =~= outputs_wire(tail) + rest);
        lemma_outputs_round_trip(tail, rest);
    }
}

/// Reading inputs behind their count gives the inputs back, with their
/// scripts as read.
pub proof fn lemma_counted_inputs_round_trip(inputs: Seq<TxInputView>, rest: Seq<u8>)
    requires
        inputs.len() <= u64::MAX,
        forall|i: int| 0 <= i < inputs.len() ==> (#[trigger] inputs[i]).readable(),
    ensures
        parse_counted_inputs(spec_var_int(inputs.len() as u64) + inputs_wire(inputs) + rest)
            == Ok::<(Seq<TxInputView>, nat), InvalidData>(
            (
                Seq::new(inputs.len(), |i: int| inputs[i].reread()),
                (spec_var_int(inputs.len() as u64) + inputs_wire(inputs)).len(),
            ),
        ),
{
    reveal(parse_counted_inputs);
    let count = spec_var_int(inputs.len() as u64);
    let s = count + inputs_wire(inputs) + rest;
    assert(s =~= count + (inputs_wire(inputs) + rest));
    lemma_var_int_round_trip(inputs.len() as u64, inputs_wire(inputs) + rest);
    assert(s.skip(count.len() as int) =~= inputs_wire(inputs) + rest);
    lemma_inputs_round_trip(inputs, rest);
}

/// Reading outputs behind their count gives the outputs back, with their
/// scripts as read.
pub proof fn lemma_counted_outputs_round_trip(outputs: Seq<TxOutputView>, rest: Seq<u8>)
    requires
        outputs.len() <= u64::MAX,
        forall|i: int| 0 <= i < outputs.len() ==> (#[trigger] outputs[i]).readable(),
    ensures
        parse_counted_outputs(spec_var_int(outputs.len() as u64) + outputs_wire(outputs) + rest)
            == Ok::<(Seq<TxOutputView>, nat), InvalidData>(
            (
                Seq::new(outputs.len(), |i: int| outputs[i].reread()),
                (spec_var_int(outputs.len() as u64) + outputs_wire(outputs)).len(),
            ),
        ),
{
    reveal(parse_counted_outputs);
    let count = spec_var_int(outputs.len() as u64);
    let s = count + outputs_wire(outputs) + rest;
    assert(s =~= count + (outputs_wire(outputs) + rest));
    lemma_var_int_round_trip(outputs.len() as u64, outputs_wire(outputs) + rest);
    assert(s.skip(count.len() as int) =~= outputs_wire(outputs) + rest);
    lemma_outputs_round_trip(outputs, rest);
}

/// Reading the wire form of a transaction, whatever follows it, takes exactly
/// its bytes and gives a transaction with the same wire form: writing what was
/// read gives the same bytes again. This holds of every transaction whose
/// scripts have a wire form that is a script.
pub proof fn lemma_tx_round_trip(tx: TxView, rest: Seq<u8>)
    requires
        tx.readable(),
    ensures
        parse_tx(tx.wire() + rest) == Ok::<(TxView, nat), InvalidData>(
            (tx.reread(), tx.wire().len()),
        ),
        tx.reread().wire() == tx.wire(),
{
    let s = tx.wire() + rest;
    let version = le_bytes(i32_bits(tx.version), 4);
    let ins = spec_var_int(tx.inputs.len() as u64) + inputs_wire(tx.inputs);
    let outs = spec_var_int(tx.outputs.len() as u64) + outputs_wire(tx.outputs);
    let lock = le_bytes(tx.lock_time as nat, 4);
    lemma_pow256_values();
    lemma_le_bytes_len(i32_bits(tx.version), 4);
    lemma_le_bytes_len(tx.lock_time as nat, 4);
    lemma_le_value_le_bytes(i32_bits(tx.version), 4);
    lemma_le_value_le_bytes(tx.lock_time as nat, 4);
    assert(tx.wire() =~= version + ins + outs + lock);
    assert(s.subrange(0, 4) =~= version);
    assert(s.skip(4) =~= spec_var_int(tx.inputs.len() as u64) + inputs_wire(tx.inputs) + (outs
        + lock + rest));
    lemma_counted_inputs_round_trip(tx.inputs, outs + lock + rest);
    assert(s.skip(4 + ins.len() as int) =~= spec_var_int(tx.outputs.len() as u64) + outputs_wire(
        tx.outputs,
    ) + (lock + rest));
    lemma_counted_outputs_round_trip(tx.outputs, lock + rest);
    let at_lock: int = 4 + ins.len() as int + outs.len() as int;
    assert(s.subrange(at_lock, at_lock + 4) =~= lock);
    lemma_inputs_round_trip(tx.inputs, rest);
    lemma_outputs_round_trip(tx.outputs, rest);
}

/// The value of a hexadecimal digit, of either case.
pub open spec fn hex_digit_value(c: char) -> Option<u8> {
    let code = c as u32;
    if 0x30 <= code <= 0x39 {
        Some((code - 0x30) as u8)
    } else if 0x61 <= code <= 0x66 {
        Some((code - 0x61 + 10) as u8)
    } else if 0x41 <= code <= 0x46 {
        Some((code - 0x41 + 10) as u8)
    } else {
        None
    }
}

/// The lower-case hexadecimal digit of a value below 16.
pub open spec fn hex_digit(value: u8) -> char {
    if value < 10 {
        (0x30 + value) as char
    } else {
        (0x61 + value - 10) as char
    }
}

/// The bytes that a hexadecimal string denotes, two digits for each; `None`
/// where the count of characters is odd or one of them is no digit.
pub open spec fn spec_hex_decode(s: Seq<char>) -> Option<Seq<u8>> {
    if s.len() % 2 != 0 || exists|i: int| 0 <= i < s.len() && hex_digit_value(s[i]) is None {
        None
    } else {
        Some(
            Seq::new(
                s.len() / 2,
                |i: int|
                    (16 * hex_digit_value(s[2 * i]).unwrap() + hex_digit_value(
                        s[2 * i + 1],
                    ).unwrap()) as u8,
            ),
        )
    }
}

/// The lower-case hexadecimal string of `bytes`, two digits for each.
pub open spec fn spec_hex_encode(bytes: Seq<u8>) -> Seq<char> {
    Seq::new(
        2 * bytes.len(),
        |i: int|
            hex_digit(
                if i % 2 == 0 {
                    bytes[i / 2] / 16
                } else {
                    bytes[i / 2] % 16
                },
            ),
    )
}

/// Decodes a hexadecimal string by `hex::decode`, which takes digits of either
/// case and fails on an odd count of characters and on any other character.
#[verifier::external_body]
fn hex_decode(s: &str) -> (r: Option<Vec<u8>>)
    ensures
        match spec_hex_decode(s@) {
            Some(bytes) => r matches Some(v) && v@ == bytes,
            None => r is None,
        },
{
    hex::decode(s).ok()
}

/// Encodes bytes by `hex::encode`, which writes two lower-case digits for
/// each byte.
#[verifier::external_body]
fn hex_encode(data: &[u8]) -> (r: String)
    ensures
        r@ == spec_hex_encode(data@),
{
    hex::encode(data)
}

/// The bytes of `data` in reverse order.
fn reversed(data: &[u8]) -> (out: Vec<u8>)
    ensures
        out@ == data@.reverse(),
{
    let mut out: Vec<u8> = Vec::new();
    let mut i = data.len();
    while i > 0
        invariant
            i <= data.len(),
            out.len() == data.len() - i,
            forall|k: int| 0 <= k < out.len() ==> out[k] == data[data.len() - 1 - k],
        decreases i,
    {
        i -= 1;
        out.push(data[i]);
    }
    assert(out@ =~= data@.reverse());
    out
}

/// The hash that a transaction is shown by: 64 hexadecimal digits, which hold
/// the hash in reverse byte order. `None` for any other string.
pub fn tx_hex_to_hash(s: &str) -> (r: Option<[u8; 32]>)
    ensures
        match spec_hex_decode(s@) {
            Some(bytes) => if bytes.len() == 32 {
                r matches Some(hash) && hash@ == bytes.reverse()
            } else {
                r is None
            },
            None => r is None,
        },
{
    let tx_hash_slice = match hex_decode(s) {
        Some(bytes) => bytes,
        None => {
            return None;
        },
    };
    if tx_hash_slice.len() != 32 {
        return None;
    }
    let turned = reversed(tx_hash_slice.as_slice());
    let tx_hash = array_from_slice::<32>(turned.as_slice(), 0);
    assert(tx_hash@ =~= tx_hash_slice@.reverse());
    Some(tx_hash)
}

/// The string that shows a transaction hash: its bytes in reverse order as
/// lower-case hexadecimal digits.
pub fn tx_hash_to_hex(tx_hash: &[u8; 32]) -> (hex: String)
    ensures
        hex@ == spec_hex_encode(tx_hash@.reverse()),
{
    let turned = reversed(tx_hash.as_slice());
    hex_encode(turned.as_slice())
}

/// Decoding the hexadecimal string of bytes gives the bytes.
pub proof fn lemma_hex_round_trip(bytes: Seq<u8>)
    ensures
        spec_hex_decode(spec_hex_encode(bytes)) == Some(bytes),
{
    let s = spec_hex_encode(bytes);
    assert forall|i: int| 0 <= i < s.len() implies hex_digit_value(s[i]) == Some(
        if i % 2 == 0 {
            bytes[i / 2] / 16
        } else {
            bytes[i / 2] % 16
        },
    ) by {
        let v = if i % 2 == 0 {
            bytes[i / 2] / 16
        } else {
            bytes[i / 2] % 16
        };
        assert(v < 16);
        assert(s[i] == hex_digit(v));
    }
    let decoded = spec_hex_decode(s).unwrap();
    assert forall|i: int| 0 <= i < bytes.len() implies decoded[i] == bytes[i] by {
        assert(hex_digit_value(s[2 * i]) == Some(bytes[i] / 16));
        assert(hex_digit_value(s[2 * i + 1]) == Some(bytes[i] % 16));
    }
    assert(decoded =~= bytes);
}

} // verus!
