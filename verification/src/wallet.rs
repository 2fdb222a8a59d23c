//! A wallet of one address: it turns unspent outputs into transactions.

use crate::address::{cash_addr_sized, spec_from_cash_addr, Address, AddressError};
use crate::outputs::{p2pkh_ops, Output, P2PKHOutput};
use crate::script::ScriptView;
use crate::size::{all_p2pkh, lemma_p2pkh_tx_size, p2pkh_size};
use crate::tx::{spec_hex_decode, tx_hex_to_hash, TxOutpoint, TxOutpointView};
use crate::unsigned_tx::{
    p2pkh_output, spec_fee, sum_inputs, sum_outputs, UnsignedInput, UnsignedTx, UnsignedTxView,
};
use vstd::prelude::*;
use vstd::utf8::*;

verus! {

/// The amount below which an output is not worth its fee.
pub const DUST_AMOUNT: u64 = 546;

/// An address and the fee rate that it pays.
#[derive(Debug)]
pub struct Wallet {
    address: Address,
    fee_per_kb: u64,
}

/// An unspent output of the wallet's address: the transaction that made it, as
/// it is shown, its index there, and its amount.
#[derive(Debug)]
pub struct UtxoEntry {
    pub tx_id_hex: String,
    pub vout: u32,
    pub amount: u64,
}

impl UtxoEntry {
    /// Whether the transaction is named by 64 hexadecimal digits.
    pub open spec fn wf(&self) -> bool {
        spec_hex_decode(self.tx_id_hex@) matches Some(bytes) && bytes.len() == 32
    }
}

/// The sum of the amounts of unspent outputs.
pub open spec fn sum_amounts(utxos: Seq<UtxoEntry>) -> nat
    decreases utxos.len(),
{
    if utxos.len() == 0 {
        0
    } else {
        sum_amounts(utxos.drop_last()) + utxos.last().amount as nat
    }
}

/// A greater size has no smaller fee.
pub proof fn lemma_fee_grows(a: nat, b: nat, fee_per_kb: u64)
    requires
        a <= b,
    ensures
        spec_fee(a, fee_per_kb) <= spec_fee(b, fee_per_kb),
        a * fee_per_kb <= b * fee_per_kb,
{
    assert(a * fee_per_kb as nat <= b * fee_per_kb as nat) by (nonlinear_arith)
        requires
            a <= b,
    ;
    vstd::arithmetic::div_mod::lemma_div_is_ordered(
        (a * fee_per_kb as nat) as int,
        (b * fee_per_kb as nat) as int,
        1000,
    );
}

impl Wallet {
    /// The fee of a transaction with `inputs` inputs that pays to one address.
    pub open spec fn fee_without_change(&self, inputs: nat) -> nat {
        spec_fee(p2pkh_size(inputs, 1), self.spec_fee_per_kb())
    }

    /// The fee of a transaction with `inputs` inputs that pays to one address
    /// and gives back what is left over.
    pub open spec fn fee_with_change(&self, inputs: nat) -> nat {
        spec_fee(p2pkh_size(inputs, 2), self.spec_fee_per_kb())
    }

    /// A transaction that spends unspent outputs holds their amounts.
    pub proof fn lemma_sum_inputs(&self, tx: UnsignedTxView, utxos: Seq<UtxoEntry>)
        requires
            tx.inputs.len() == utxos.len(),
            forall|i: int| 0 <= i < utxos.len() ==> self.spends(#[trigger] tx.inputs[i], utxos[i]),
        ensures
            sum_inputs(tx.inputs) == sum_amounts(utxos),
        decreases utxos.len(),
    {
        if utxos.len() > 0 {
            let fewer = UnsignedTxView { inputs: tx.inputs.drop_last(), ..tx };
            assert forall|i: int| 0 <= i < utxos.drop_last().len() implies self.spends(
                #[trigger] fewer.inputs[i],
                utxos.drop_last()[i],
            ) by {
                assert(self.spends(tx.inputs[i], utxos[i]));
            }
            self.lemma_sum_inputs(fewer, utxos.drop_last());
            assert(self.spends(tx.inputs[utxos.len() - 1], utxos[utxos.len() - 1]));
        }
    }

    /// The address of the wallet.
    pub closed spec fn spec_address(&self) -> Address {
        self.address
    }

    /// The fee rate of the wallet, for a thousand bytes.
    pub closed spec fn spec_fee_per_kb(&self) -> u64 {
        self.fee_per_kb
    }

    /// Whether `input` spends `utxo` as an output to the wallet's address,
    /// with the greatest sequence number.
    pub open spec fn spends(&self, input: UnsignedInput, utxo: UtxoEntry) -> bool {
        &&& input.outpoint@ == (TxOutpointView {
            tx_hash: spec_hex_decode(utxo.tx_id_hex@).unwrap().reverse(),
            vout: utxo.vout,
        })
        &&& input.output == Output::P2PKH(
            P2PKHOutput { value: utxo.amount, address: self.spec_address() },
        )
        &&& input.sequence == 0xffff_ffff
    }

    /// Whether `tx` is the transaction of version 1, without lock time and
    /// without outputs, that spends `utxos` in their order.
    pub open spec fn spends_all(&self, tx: UnsignedTxView, utxos: Seq<UtxoEntry>) -> bool {
        &&& tx.version == 1
        &&& tx.lock_time == 0
        &&& tx.outputs.len() == 0
        &&& tx.inputs.len() == utxos.len()
        &&& forall|i: int| 0 <= i < utxos.len() ==> self.spends(#[trigger] tx.inputs[i], utxos[i])
    }

    /// Whether `tx` spends `utxos` and pays `amount` to `address` in its one
    /// output.
    pub open spec fn pays(
        &self,
        tx: UnsignedTxView,
        address: Address,
        amount: u64,
        utxos: Seq<UtxoEntry>,
    ) -> bool {
        &&& self.spends_all(UnsignedTxView { outputs: Seq::empty(), ..tx }, utxos)
        &&& tx.outputs == Seq::<crate::tx::TxOutputView>::empty().push(
            p2pkh_output(amount, address),
        )
    }

    /// The wallet of an address given as text, with a fee of 1000 for a
    /// thousand bytes.
    pub fn from_cash_addr(cash_addr: String) -> (r: Result<Self, AddressError>)
        requires
            cash_addr_sized(encode_utf8(cash_addr@)),
        ensures
            match spec_from_cash_addr(encode_utf8(cash_addr@)) {
                Ok((bytes, addr_type, prefix)) => r matches Ok(wallet)
                    && wallet.spec_address()@.bytes == bytes && wallet.spec_address()@.addr_type
                    == addr_type && encode_utf8(wallet.spec_address()@.prefix) == prefix
                    && wallet.spec_address()@.cash_addr == cash_addr@
                    && wallet.spec_fee_per_kb() == 1000,
                Err(e) => r matches Err(x) && x == e,
            },
    {
        match Address::from_cash_addr(cash_addr) {
            Ok(addr) => Ok(Wallet { address: addr, fee_per_kb: 1000 }),
            Err(e) => Err(e),
        }
    }

    /// The address of the wallet.
    pub fn address(&self) -> (address: &Address)
        ensures
            *address == self.spec_address(),
    {
        &self.address
    }

    /// A transaction that spends `utxos`, each of which must name its
    /// transaction by 64 hexadecimal digits.
    pub fn init_tx(&self, utxos: &[UtxoEntry]) -> (tx_build: UnsignedTx)
        requires
            forall|i: int| 0 <= i < utxos.len() ==> (#[trigger] utxos[i]).wf(),
        ensures
            self.spends_all(tx_build@, utxos@),
    {
        let mut tx_build = UnsignedTx::new_simple();
        let mut k: usize = 0;
        while k < utxos.len()
            invariant
                k <= utxos.len(),
                forall|i: int| 0 <= i < utxos.len() ==> (#[trigger] utxos[i]).wf(),
                self.spends_all(tx_build@, utxos@.take(k as int)),
            decreases utxos.len() - k,
        {
            let utxo = &utxos[k];
            assert(utxo.wf());
            let tx_hash = match tx_hex_to_hash(utxo.tx_id_hex.as_str()) {
                Some(tx_hash) => tx_hash,
                None => {
                    proof {
                        assert(false);
                    }
                    [0u8;32]
                },
            };
            let ghost before = tx_build@;
            let input = UnsignedInput {
                output: Output::P2PKH(
                    P2PKHOutput { address: self.address.clone(), value: utxo.amount },
                ),
                outpoint: TxOutpoint { tx_hash, vout: utxo.vout },
                sequence: 0xffff_ffff,
            };
            tx_build.add_input(input);
            k += 1;
            proof {
                let done = utxos@.take(k as int);
                assert forall|i: int| 0 <= i < done.len() implies self.spends(
                    #[trigger] tx_build@.inputs[i],
                    done[i],
                ) by {
                    if i < k - 1 {
                        assert(tx_build@.inputs[i] == before.inputs[i]);
                        assert(utxos@.take(k - 1)[i] == done[i]);
                        assert(self.spends(before.inputs[i], utxos@.take(k - 1)[i]));
                    }
                }
            }
        }
        proof {
            assert(utxos@.take(k as int) =~= utxos@);
        }
        tx_build
    }

    /// A transaction that spends `utxos` and pays `amount` to `address`, with
    /// what is left over going back to the wallet behind it. The fee is that
    /// for the size of the transaction with the output for what is left over;
    /// where the inputs do not pay for the amount and the fee without that
    /// output, the error is what they lack with it; where less than the dust
    /// limit is left over without it, it is left out.
    pub fn send_to_address(&self, address: Address, amount: u64, utxos: &[UtxoEntry]) -> (r:
        Result<UnsignedTx, u64>)
        requires
            forall|i: int| 0 <= i < utxos.len() ==> (#[trigger] utxos[i]).wf(),
            utxos.len() <= 0xffff,
            sum_amounts(utxos@) <= u64::MAX,
            p2pkh_size(utxos.len() as nat, 2) * self.spec_fee_per_kb() <= u64::MAX,
            amount + self.fee_with_change(utxos.len() as nat) <= u64::MAX,
            self.fee_with_change(utxos.len() as nat) - self.fee_without_change(
                utxos.len() as nat,
            ) <= DUST_AMOUNT,
        ensures
            ({
                let held = sum_amounts(utxos@);
                let spent_without = amount + self.fee_without_change(utxos.len() as nat);
                let spent = amount + self.fee_with_change(utxos.len() as nat);
                if spent_without > held {
                    r matches Err(missing) && missing == spent - held
                } else if held - spent_without < DUST_AMOUNT {
                    r matches Ok(tx) && self.pays(tx@, address, amount, utxos@)
                } else {
                    r matches Ok(tx) && self.pays(
                        UnsignedTxView { outputs: tx@.outputs.take(1), ..tx@ },
                        address,
                        amount,
                        utxos@,
                    ) && tx@.outputs == Seq::<crate::tx::TxOutputView>::empty().push(
                        p2pkh_output(amount, address),
                    ).push(p2pkh_output((held - spent) as u64, self.spec_address()))
                }
            }),
    {
        let mut tx_build = self.init_tx(utxos);
        let ghost empty = tx_build@;
        tx_build.add_output(P2PKHOutput { address, value: amount }.to_output());
        let ghost paid = tx_build@;
        let leftover_addr = self.address.clone();
        proof {
            let n = utxos.len() as nat;
            assert(empty.outputs =~= Seq::<crate::tx::TxOutputView>::empty());
            assert(UnsignedTxView { outputs: Seq::empty(), ..paid } == empty);
            assert(paid.outputs =~= Seq::<crate::tx::TxOutputView>::empty().push(
                p2pkh_output(amount, address),
            ));
            assert(self.pays(paid, address, amount, utxos@));
            self.lemma_sum_inputs(empty, utxos@);
            assert(paid.inputs == empty.inputs);
            address.lemma_hash_len();
            leftover_addr.lemma_hash_len();
            let with = paid.with_placeholder(1, leftover_addr);
            assert(with.outputs =~= paid.outputs.push(p2pkh_output(u64::MAX, leftover_addr)));
            assert forall|i: int| 0 <= i < paid.inputs.len() implies (#[trigger] paid.inputs[i]).output is P2PKH by {
                assert(self.spends(empty.inputs[i], utxos@[i]));
            }
            assert(all_p2pkh(paid)) by {
                assert(paid.outputs[0].script == ScriptView::new(p2pkh_ops(address@.bytes)));
            }
            assert(all_p2pkh(with)) by {
                assert(with.outputs[0].script == ScriptView::new(p2pkh_ops(address@.bytes)));
                assert(with.outputs[1].script == ScriptView::new(
                    p2pkh_ops(leftover_addr@.bytes),
                ));
            }
            crate::size::lemma_var_int_len(n as u64, 0xffff);
            lemma_p2pkh_tx_size(paid);
            lemma_p2pkh_tx_size(with);
            assert(sum_outputs(paid.outputs) == amount) by {
                reveal_with_fuel(sum_outputs, 2);
                assert(paid.outputs.drop_last() =~= Seq::<crate::tx::TxOutputView>::empty());
            }
            assert(p2pkh_size(n, 1) + 34 == p2pkh_size(n, 2));
            lemma_fee_grows(p2pkh_size(n, 1), p2pkh_size(n, 2), self.fee_per_kb);
            assert(paid.can_insert_leftover(1, leftover_addr, self.fee_per_kb, DUST_AMOUNT));
        }
        match tx_build.add_leftover_output(leftover_addr, self.fee_per_kb, self.dust_amount()) {
            Ok(_) => {
                proof {
                    if tx_build@ != paid {
                        assert(tx_build@.outputs.take(1) =~= paid.outputs);
                        let change = tx_build@.outputs[1];
                        assert(tx_build@.outputs =~= paid.outputs.push(change));
                    }
                }
                Ok(tx_build)
            },
            Err(missing) => Err(missing),
        }
    }

    /// The dust limit of the wallet.
    pub fn dust_amount(&self) -> (dust: u64)
        ensures
            dust == DUST_AMOUNT,
    {
        DUST_AMOUNT
    }
}

} // verus!
