use lipnode::chain::{ChainView, Transaction, TxOutput, Utxo};
use lipnode::codec::encode_pages;
use lipnode::config::Config;
use lipnode::error::Error;
use lipnode::scan::{
    all_confirmed, in_order, is_due, order_utxos, republish, scan_cycle, Spend,
};
use lipnode::store::{BlobStore, MemoryStore};
use lipnode::structs::{DataBlob, UnpublishedPage};
use lipnode::verror::VError;

fn unhex(text: &str) -> Vec<u8> {
    let mut out = Vec::new();
    let mut i = 0;
    while i + 1 < text.len() {
        out.push(u8::from_str_radix(&text[i..i + 2], 16).unwrap());
        i += 2;
    }
    out
}

fn utxo(txid: &str, amount: u64, confirmations: u32) -> Utxo {
    Utxo { txid: txid.to_string(), amount, confirmations }
}

fn publish(store: &mut MemoryStore, weights: &[i64], tag: u8) -> String {
    let mut batch = Vec::new();
    for (i, w) in weights.iter().enumerate() {
        batch.push(UnpublishedPage::new(format!("p{}", i), *w, vec![tag, i as u8]).unwrap());
    }
    let (root, _, blobs) = encode_pages(batch).unwrap();
    for blob in blobs {
        store.put(blob).unwrap();
    }
    root
}

fn spend(txid: &str, amount: u64, confirmations: u32, root: &str) -> Spend {
    let mut script = vec![0x6a, 0x14];
    script.extend(unhex(root));
    Spend {
        utxo: utxo(txid, amount, confirmations),
        chain: ChainView {
            vout: vec![script],
            block: Some(vec![Transaction {
                txid: txid.to_string(),
                output: vec![TxOutput { value: amount, script_pubkey: vec![] }],
            }]),
        },
    }
}

fn config() -> Config {
    Config::defaults("d".to_string())
}

#[test]
fn payment_is_due_above_the_mark() {
    assert!(is_due(5, 10, 3));
    assert!(is_due(6, 10, 3));
    assert!(!is_due(7, 10, 3));
    assert!(!is_due(8, 10, 3));
    assert!(is_due(0, 1, 0));
    assert!(!is_due(0, 0, 0));
    assert!(!is_due(0, 2, 3));
    assert!(!is_due(u64::MAX, u64::MAX, 0));
    assert!(is_due(u64::MAX - 1, u64::MAX, 0));
}

#[test]
fn payments_are_put_oldest_first() {
    let ordered = order_utxos(vec![
        utxo("a", 1, 2),
        utxo("b", 1, 9),
        utxo("c", 1, 2),
        utxo("d", 1, 5),
        utxo("e", 1, 9),
    ]);
    let names: Vec<&str> = ordered.iter().map(|u| u.txid.as_str()).collect();
    assert_eq!(names, vec!["b", "e", "d", "a", "c"]);
    assert_eq!(order_utxos(vec![]).len(), 0);
    assert_eq!(order_utxos(vec![utxo("a", 7, 1)])[0].amount, 7);
}

#[test]
fn cycle_accepts_payments_in_order_and_moves_the_mark() {
    let mut store = MemoryStore::new();
    let first = publish(&mut store, &[100, 150, 200], 1);
    let second = publish(&mut store, &[300], 2);
    let spends = vec![spend("t1", 450, 10, &first), spend("t2", 300, 4, &second)];
    let outcome = scan_cycle(&config(), 80, 100, &spends, &store);
    assert_eq!(outcome.rejected, None);
    assert_eq!(outcome.high_water_mark, 90);
    assert_eq!(outcome.accepted.len(), 2);
    assert_eq!(outcome.accepted[0].0.len(), 3);
    assert_eq!(outcome.accepted[0].0[0].block_height, 91);
    assert_eq!(outcome.accepted[0].1.len(), 4);
    assert_eq!(outcome.accepted[1].0.len(), 1);
    assert_eq!(outcome.accepted[1].0[0].block_height, 97);
    assert_eq!(outcome.accepted[1].0[0].n_value, 300);
}

#[test]
fn cycle_stops_at_the_first_rejection() {
    let mut store = MemoryStore::new();
    let first = publish(&mut store, &[100, 150, 200], 1);
    let second = publish(&mut store, &[300], 2);
    let third = publish(&mut store, &[500], 3);
    let spends = vec![
        spend("t1", 450, 10, &first),
        spend("t2", 299, 4, &second),
        spend("t3", 500, 2, &third),
    ];
    let outcome = scan_cycle(&config(), 80, 100, &spends, &store);
    assert_eq!(outcome.accepted.len(), 1);
    assert_eq!(outcome.rejected, Some(VError::NotEnoughSpent("t2".to_string())));
    assert_eq!(outcome.high_water_mark, 90);
}

#[test]
fn cycle_moves_the_mark_past_a_rejected_first_payment() {
    let store = MemoryStore::new();
    let missing = "370132406aa47050aed9ae3e59f94b195f4d81a6";
    let spends = vec![spend("t1", 450, 10, missing), spend("t2", 450, 4, missing)];
    let outcome = scan_cycle(&config(), 80, 100, &spends, &store);
    assert_eq!(outcome.accepted.len(), 0);
    assert_eq!(outcome.rejected, Some(VError::DataNotFound(missing.to_string())));
    assert_eq!(outcome.high_water_mark, 90);
}

#[test]
fn cycle_stops_at_a_payment_at_or_under_the_mark() {
    let mut store = MemoryStore::new();
    let first = publish(&mut store, &[100], 1);
    let spends = vec![spend("t1", 100, 10, &first), spend("t2", 100, 4, &first)];
    let outcome = scan_cycle(&config(), 90, 100, &spends, &store);
    assert_eq!(outcome.accepted.len(), 0);
    assert_eq!(outcome.rejected, None);
    assert_eq!(outcome.high_water_mark, 90);
    let outcome = scan_cycle(&config(), 89, 100, &spends, &store);
    assert_eq!(outcome.accepted.len(), 2);
    assert_eq!(outcome.high_water_mark, 90);
}

#[test]
fn cycle_over_nothing_keeps_the_mark() {
    let store = MemoryStore::new();
    let outcome = scan_cycle(&config(), 42, 100, &vec![], &store);
    assert_eq!(outcome.accepted.len(), 0);
    assert_eq!(outcome.rejected, None);
    assert_eq!(outcome.high_water_mark, 42);
}

#[test]
fn lost_blobs_are_announced_again() {
    let kept = DataBlob::leaf(100, &vec![1]);
    let lost = DataBlob::leaf(100, &vec![2]);
    let mut store = MemoryStore::new();
    let kept_key = store.put(kept.clone()).unwrap();
    let done = republish(&mut store, vec![kept.clone(), lost.clone(), lost.clone()]).unwrap();
    assert_eq!(done.len(), 1);
    assert_eq!(store.get(&done[0]), Some(lost));
    assert_ne!(done[0], kept_key);
    assert_eq!(store.len(), 2);
    assert_eq!(republish(&mut store, vec![kept]).unwrap(), Vec::<String>::new());
}

#[test]
fn republish_into_an_empty_store_puts_everything() {
    let blobs = vec![DataBlob::leaf(1, &vec![1]), DataBlob::leaf(2, &vec![2])];
    let mut store = MemoryStore::new();
    let done = republish(&mut store, blobs.clone()).unwrap();
    assert_eq!(done.len(), 2);
    assert_eq!(store.get(&done[0]), Some(blobs[0].clone()));
    assert_eq!(store.get(&done[1]), Some(blobs[1].clone()));
}

#[test]
fn republish_stops_at_a_blob_that_the_store_refuses() {
    let good = DataBlob::leaf(1, &vec![1]);
    let huge = DataBlob { data: vec![0; 2000] };
    let late = DataBlob::leaf(3, &vec![3]);
    let mut store = MemoryStore::new();
    assert_eq!(
        republish(&mut store, vec![good.clone(), huge, late]),
        Err(Error::MaxVectorSize(1000))
    );
    assert_eq!(store.len(), 1);
}

#[test]
fn order_of_payments_is_checked() {
    let root = "370132406aa47050aed9ae3e59f94b195f4d81a6";
    assert!(in_order(&vec![]));
    assert!(in_order(&vec![spend("a", 1, 3, root)]));
    assert!(in_order(&vec![spend("a", 1, 3, root), spend("b", 1, 3, root), spend("c", 1, 1, root)]));
    assert!(!in_order(&vec![spend("a", 1, 3, root), spend("b", 1, 4, root)]));
    assert!(!in_order(&vec![spend("a", 1, 9, root), spend("b", 1, 4, root), spend("c", 1, 5, root)]));
}

#[test]
fn mark_never_falls() {
    let store = MemoryStore::new();
    let root = "370132406aa47050aed9ae3e59f94b195f4d81a6";
    for mark in [0u64, 50, 89, 90, 95, 100, 200] {
        let outcome = scan_cycle(&config(), mark, 100, &vec![spend("t", 1, 10, root)], &store);
        assert!(outcome.high_water_mark >= mark);
    }
}

#[test]
fn payments_without_a_confirmation_are_found() {
    let root = "370132406aa47050aed9ae3e59f94b195f4d81a6";
    assert!(all_confirmed(&vec![]));
    assert!(all_confirmed(&vec![spend("a", 1, 3, root), spend("b", 1, 1, root)]));
    assert!(!all_confirmed(&vec![spend("a", 1, 3, root), spend("b", 1, 0, root)]));
    assert!(!all_confirmed(&vec![spend("a", 1, 0, root)]));
}

#[test]
fn republish_over_a_store_that_holds_every_blob_puts_nothing() {
    let blobs = vec![DataBlob::leaf(1, &vec![1]), DataBlob::leaf(2, &vec![2])];
    let mut store = MemoryStore::new();
    for blob in &blobs {
        store.put(blob.clone()).unwrap();
    }
    let again = vec![blobs[1].clone(), blobs[0].clone(), blobs[1].clone()];
    assert_eq!(republish(&mut store, again), Ok(vec![]));
    assert_eq!(store.len(), 2);
}

#[test]
fn republish_fails_only_at_a_blob_that_is_lacking() {
    let good = DataBlob::leaf(1, &vec![1]);
    let huge = DataBlob { data: vec![0; 2000] };
    let mut store = MemoryStore::new();
    let key = store.put(good.clone()).unwrap();
    assert_eq!(
        republish(&mut store, vec![good.clone(), huge, good.clone()]),
        Err(Error::MaxVectorSize(1000))
    );
    assert_eq!(store.len(), 1);
    assert_eq!(store.get(&key), Some(good));
}
