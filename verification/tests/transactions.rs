use usdb_runes::address::Address;
use usdb_runes::transaction::{build_transaction_with_fee, PrimaryOutput};
use usdb_runes::utxo::{fee_per_byte_from_percentiles, select_one_utxo, select_utxos_greedy, Outpoint, Utxo};

fn utxo(tag: u8, value: u64) -> Utxo {
    Utxo { outpoint: Outpoint { txid: vec![tag; 32], vout: tag as u32 }, value, height: 100 + tag as u32 }
}

fn own() -> Address {
    Address { text: "own".to_string(), script_pubkey: vec![0x51, 0x20, 7, 7] }
}

#[test]
fn greedy_takes_newest_first_until_covered() {
    let utxos = vec![utxo(1, 500), utxo(2, 300), utxo(3, 400)];
    let chosen = select_utxos_greedy(&utxos, 600, 50).unwrap();
    assert_eq!(chosen.len(), 2);
    assert_eq!(chosen[0], &utxos[2]);
    assert_eq!(chosen[1], &utxos[1]);
}

#[test]
fn greedy_takes_everything_when_needed() {
    let utxos = vec![utxo(1, 500), utxo(2, 300), utxo(3, 400)];
    let chosen = select_utxos_greedy(&utxos, 1100, 100).unwrap();
    assert_eq!(chosen.len(), 3);
    assert_eq!(chosen[2], &utxos[0]);
}

#[test]
fn greedy_reports_insufficient_balance() {
    let utxos = vec![utxo(1, 500), utxo(2, 300)];
    assert_eq!(
        select_utxos_greedy(&utxos, 1000, 10),
        Err("Insufficient balance: 800, trying to transfer 1000 satoshi with fee 10".to_string())
    );
    assert_eq!(
        select_utxos_greedy(&[], 1, 0),
        Err("Insufficient balance: 0, trying to transfer 1 satoshi with fee 0".to_string())
    );
}

#[test]
fn greedy_edge_cases() {
    assert_eq!(select_utxos_greedy(&[], 0, 0).unwrap().len(), 0);
    let utxos = vec![utxo(1, 500), utxo(2, 300)];
    // A zero target still takes the newest output, as the scan checks after taking.
    let chosen = select_utxos_greedy(&utxos, 0, 0).unwrap();
    assert_eq!(chosen, vec![&utxos[1]]);
}

#[test]
fn one_utxo_is_the_newest_large_enough() {
    let utxos = vec![utxo(1, 900), utxo(2, 300), utxo(3, 1000), utxo(4, 100)];
    let chosen = select_one_utxo(&utxos, 800, 50).unwrap();
    assert_eq!(chosen, vec![&utxos[2]]);
    assert_eq!(
        select_one_utxo(&utxos, 1000, 1),
        Err("No sufficiently large utxo found: amount 1000 satoshi, fee 1".to_string())
    );
}

#[test]
fn fee_rate_from_percentiles() {
    assert_eq!(fee_per_byte_from_percentiles(&[]), 2000);
    let p: Vec<u64> = (0..101).map(|i| i * 10).collect();
    assert_eq!(fee_per_byte_from_percentiles(&p), 500);
}

#[test]
fn transaction_with_change() {
    let utxos = vec![utxo(1, 5000), utxo(2, 3000)];
    let dest = Address { text: "dest".to_string(), script_pubkey: vec![0x00, 0x14, 9] };
    let refs: Vec<&Utxo> = utxos.iter().collect();
    let (tx, prevouts) =
        build_transaction_with_fee(refs, &own(), &PrimaryOutput::Address(dest, 4000), 1500).unwrap();
    assert_eq!(tx.version, 2);
    assert_eq!(tx.lock_time, 0);
    assert_eq!(tx.input.len(), 2);
    assert_eq!(tx.input[1].previous_output.txid, vec![2u8; 32]);
    assert_eq!(tx.input[1].previous_output.vout, 2);
    assert_eq!(tx.input[0].sequence, 0xFFFF_FFFF);
    assert!(tx.input[0].witness.is_empty());
    assert!(tx.input[0].script_sig.is_empty());
    assert_eq!(tx.output.len(), 2);
    assert_eq!(tx.output[0].value, 4000);
    assert_eq!(tx.output[0].script_pubkey, vec![0x00, 0x14, 9]);
    assert_eq!(tx.output[1].value, 2500);
    assert_eq!(tx.output[1].script_pubkey, own().script_pubkey);
    assert_eq!(prevouts.len(), 2);
    assert_eq!(prevouts[0].value, 5000);
    assert_eq!(prevouts[1].script_pubkey, own().script_pubkey);
}

#[test]
fn dust_change_is_dropped() {
    let utxos = vec![utxo(1, 5000)];
    let refs: Vec<&Utxo> = utxos.iter().collect();
    let (tx, _) = build_transaction_with_fee(refs, &own(), &PrimaryOutput::OpReturn(vec![0x6a, 0x5d, 0]), 4001)
        .unwrap();
    assert_eq!(tx.output.len(), 1);
    assert_eq!(tx.output[0].value, 0);
    assert_eq!(tx.output[0].script_pubkey, vec![0x6a, 0x5d, 0]);
    let refs: Vec<&Utxo> = utxos.iter().collect();
    let (tx, _) = build_transaction_with_fee(refs, &own(), &PrimaryOutput::OpReturn(vec![0x6a]), 4000).unwrap();
    assert_eq!(tx.output.len(), 2);
    assert_eq!(tx.output[1].value, 1000);
}

#[test]
fn fee_exceeding_inputs_is_refused() {
    let utxos = vec![utxo(1, 5000)];
    let refs: Vec<&Utxo> = utxos.iter().collect();
    let dest = Address { text: "dest".to_string(), script_pubkey: vec![1] };
    assert_eq!(
        build_transaction_with_fee(refs, &own(), &PrimaryOutput::Address(dest, 4500), 501).err(),
        Some("fee exceeds inputs".to_string())
    );
}
