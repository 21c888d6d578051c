//! Assembling an unsigned transaction: inputs from the chosen outputs, the primary
//! output, and change back to the wallet when it is worth keeping.
use vstd::prelude::*;
use vstd::string::*;
use crate::address::Address;
use crate::bytes::clone_bytes;
use crate::utxo::{Outpoint, Utxo};

verus! {

/// Change below this many satoshi is left to the miners rather than paid back.
pub const DUST_THRESHOLD: u64 = 1_000;

/// Sequence number that sets no relative timelock.
pub const SEQUENCE_MAX: u32 = 0xFFFF_FFFF;

/// Transaction version used for new transactions.
pub const TX_VERSION: i32 = 2;

/// The output a transaction is for.
pub enum PrimaryOutput {
    /// Pay someone (spendable output): destination address, amount in satoshi.
    Address(Address, u64),
    /// Embed data (unspendable output); the script already starts with `OP_RETURN`.
    OpReturn(Vec<u8>),
}

/// A transaction input.
pub struct TxIn {
    pub previous_output: Outpoint,
    pub sequence: u32,
    pub witness: Vec<Vec<u8>>,
    pub script_sig: Vec<u8>,
}

/// A transaction output.
pub struct TxOut {
    /// Value in satoshi.
    pub value: u64,
    pub script_pubkey: Vec<u8>,
}

/// An unsigned transaction.
pub struct Transaction {
    pub version: i32,
    pub lock_time: u32,
    pub input: Vec<TxIn>,
    pub output: Vec<TxOut>,
}

/// Total value of the outputs being spent.
pub open spec fn spent_total(utxos: Seq<&Utxo>) -> int
    decreases utxos.len(),
{
    if utxos.len() == 0 {
        0
    } else {
        spent_total(utxos.drop_last()) + utxos.last().value
    }
}

/// Total value of a list of outputs.
pub open spec fn outputs_total(outputs: Seq<TxOut>) -> int
    decreases outputs.len(),
{
    if outputs.len() == 0 {
        0
    } else {
        outputs_total(outputs.drop_last()) + outputs.last().value
    }
}

/// The value the primary output carries (nothing for `OP_RETURN`).
pub open spec fn primary_value(p: PrimaryOutput) -> u64 {
    match p {
        PrimaryOutput::Address(_, amount) => amount,
        PrimaryOutput::OpReturn(_) => 0,
    }
}

/// The script of the primary output.
pub open spec fn primary_script(p: PrimaryOutput) -> Seq<u8> {
    match p {
        PrimaryOutput::Address(addr, _) => addr.script_pubkey@,
        PrimaryOutput::OpReturn(script) => script@,
    }
}

/// `input` spends `utxo`, with no timelock and empty witness and signature script.
pub open spec fn spends(input: TxIn, utxo: Utxo) -> bool {
    &&& input.previous_output.txid@ == utxo.outpoint.txid@
    &&& input.previous_output.vout == utxo.outpoint.vout
    &&& input.sequence == SEQUENCE_MAX
    &&& input.witness@.len() == 0
    &&& input.script_sig@.len() == 0
}

proof fn lemma_spent_total_prefix(utxos: Seq<&Utxo>, i: int)
    requires
        0 <= i <= utxos.len(),
    ensures
        spent_total(utxos.take(i)) <= spent_total(utxos),
    decreases utxos.len(),
{
    if i < utxos.len() {
        assert(utxos.take(i) =~= utxos.drop_last().take(i));
        lemma_spent_total_prefix(utxos.drop_last(), i);
    } else {
        assert(utxos.take(i) =~= utxos);
    }
}

fn copy_outpoint(o: &Outpoint) -> (r: Outpoint)
    ensures
        r.txid@ == o.txid@,
        r.vout == o.vout,
{
    Outpoint { txid: clone_bytes(&o.txid), vout: o.vout }
}

/// Builds the unsigned transaction that spends `utxos_to_spend`, pays `primary_output`,
/// leaves `fee` to the miners and sends the change back to `own_address` when it is at
/// least the dust threshold (smaller change goes to the miners too). Also returns the
/// outputs being spent, which signing needs. Fails when the inputs do not cover the
/// primary output and the fee.
pub fn build_transaction_with_fee(
    utxos_to_spend: Vec<&Utxo>,
    own_address: &Address,
    primary_output: &PrimaryOutput,
    fee: u64,
) -> (r: Result<(Transaction, Vec<TxOut>), String>)
    requires
        forall|i: int|
            0 <= i < utxos_to_spend@.len() ==> (#[trigger] utxos_to_spend@[i]).outpoint.txid@.len()
                == 32,
        spent_total(utxos_to_spend@) <= u64::MAX,
        primary_value(*primary_output) + fee <= u64::MAX,
    ensures
        r is Err <==> spent_total(utxos_to_spend@) < primary_value(*primary_output) + fee,
        r is Err ==> r->Err_0@ == "fee exceeds inputs"@,
        r is Ok ==> ({
            let tx = r->Ok_0.0;
            let prevouts = r->Ok_0.1;
            let change = spent_total(utxos_to_spend@) - primary_value(*primary_output) - fee;
            &&& tx.version == TX_VERSION
            &&& tx.lock_time == 0
            &&& tx.input@.len() == utxos_to_spend@.len()
            &&& forall|i: int|
                0 <= i < utxos_to_spend@.len() ==> spends(
                    #[trigger] tx.input@[i],
                    *utxos_to_spend@[i],
                )
            &&& prevouts@.len() == utxos_to_spend@.len()
            &&& forall|i: int|
                0 <= i < utxos_to_spend@.len() ==> (#[trigger] prevouts@[i]).value
                    == utxos_to_spend@[i].value && prevouts@[i].script_pubkey@
                    == own_address.script_pubkey@
            &&& tx.output@.len() == if change >= DUST_THRESHOLD {
                2int
            } else {
                1int
            }
            &&& tx.output@[0].value == primary_value(*primary_output)
            &&& tx.output@[0].script_pubkey@ == primary_script(*primary_output)
            &&& change >= DUST_THRESHOLD ==> tx.output@[1].value == change
                && tx.output@[1].script_pubkey@ == own_address.script_pubkey@
            &&& spent_total(utxos_to_spend@) == outputs_total(tx.output@) + fee + (if change
                >= DUST_THRESHOLD {
                0
            } else {
                change
            })
        }),
{
    let ghost spent = utxos_to_spend@;
    let n = utxos_to_spend.len();
    let mut inputs: Vec<TxIn> = Vec::new();
    let mut prevouts: Vec<TxOut> = Vec::new();
    let mut total_in: u64 = 0;
    let mut i: usize = 0;
    assert(spent.take(0) =~= Seq::<&Utxo>::empty());
    while i < n
        invariant
            spent == utxos_to_spend@,
            n == spent.len(),
            i <= n,
            forall|j: int| 0 <= j < n ==> (#[trigger] spent[j]).outpoint.txid@.len() == 32,
            spent_total(spent) <= u64::MAX,
            inputs@.len() == i,
            prevouts@.len() == i,
            forall|j: int| 0 <= j < i ==> spends(#[trigger] inputs@[j], *spent[j]),
            forall|j: int|
                0 <= j < i ==> (#[trigger] prevouts@[j]).value == spent[j].value
                    && prevouts@[j].script_pubkey@ == own_address.script_pubkey@,
            total_in == spent_total(spent.take(i as int)),
        decreases n - i,
    {
        let utxo = utxos_to_spend[i];
        let ghost before = spent.take(i as int);
        assert(spent.take(i + 1).drop_last() =~= before);
        proof {
            lemma_spent_total_prefix(spent, i + 1);
        }
        total_in = total_in + utxo.value;
        inputs.push(
            TxIn {
                previous_output: copy_outpoint(&utxo.outpoint),
                sequence: SEQUENCE_MAX,
                witness: Vec::new(),
                script_sig: Vec::new(),
            },
        );
        prevouts.push(TxOut { value: utxo.value, script_pubkey: clone_bytes(&own_address.script_pubkey) });
        i = i + 1;
    }
    assert(spent.take(n as int) =~= spent);
    let mut outputs: Vec<TxOut> = Vec::new();
    match primary_output {
        PrimaryOutput::Address(addr, amt) => {
            outputs.push(TxOut { script_pubkey: clone_bytes(&addr.script_pubkey), value: *amt });
        },
        PrimaryOutput::OpReturn(script) => {
            outputs.push(TxOut { script_pubkey: clone_bytes(script), value: 0 });
        },
    }
    let primary = outputs[0].value;
    assert(outputs_total(outputs@) == primary) by {
        assert(outputs@.drop_last() =~= Seq::<TxOut>::empty());
        assert(outputs_total(outputs@.drop_last()) == 0);
    }
    let change = match total_in.checked_sub(primary + fee) {
        Some(c) => c,
        None => {
            return Err(String::from_str("fee exceeds inputs"));
        },
    };
    if change >= DUST_THRESHOLD {
        let ghost before = outputs@;
        outputs.push(TxOut { script_pubkey: clone_bytes(&own_address.script_pubkey), value: change });
        assert(outputs@.drop_last() =~= before);
    }
    Ok(
        (
            Transaction { input: inputs, output: outputs, lock_time: 0, version: TX_VERSION },
            prevouts,
        ),
    )
}

} // verus!
