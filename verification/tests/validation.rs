use lipnode::chain::{ChainView, Transaction, TxOutput, Utxo};
use lipnode::codec::encode_pages;
use lipnode::config::Config;
use lipnode::store::{BlobStore, MemoryStore};
use lipnode::structs::{DataBlob, Page, UnpublishedPage};
use lipnode::validation::{
    find_commitment, is_largest_library_tx, max_branch_index, outbids, pages_from_blobs,
    validate_utxo,
};
use lipnode::verror::VError;

const ADDRESS: &str = "37gsHDLSG5TJvApGfiUZDaDo9mSr6rjLv6";

fn unhex(text: &str) -> Vec<u8> {
    let mut out = Vec::new();
    let bytes = text.as_bytes();
    let mut i = 0;
    while i + 1 < bytes.len() {
        out.push(u8::from_str_radix(&text[i..i + 2], 16).unwrap());
        i += 2;
    }
    out
}

fn address_script() -> Vec<u8> {
    unhex("a91441c98a140039816273e50db317422c11c2bfcc8887")
}

fn other_script() -> Vec<u8> {
    unhex("76a914000000000000000000000000000000000000000088ac")
}

fn commitment_script(key: &str) -> Vec<u8> {
    let mut script = vec![0x6a, 0x14];
    script.extend(unhex(key));
    script
}

fn config() -> Config {
    Config::defaults("data".to_string())
}

fn utxo(amount: u64) -> Utxo {
    Utxo { txid: "tx1".to_string(), amount, confirmations: 3 }
}

fn own_tx(amount: u64) -> Transaction {
    Transaction {
        txid: "tx1".to_string(),
        output: vec![TxOutput { value: amount, script_pubkey: address_script() }],
    }
}

fn chain_for(key: &str, amount: u64) -> ChainView {
    ChainView {
        vout: vec![address_script(), commitment_script(key)],
        block: Some(vec![own_tx(amount)]),
    }
}

fn three_pages() -> Vec<UnpublishedPage> {
    vec![
        UnpublishedPage::new("a".to_string(), 100, vec![97]).unwrap(),
        UnpublishedPage::new("b".to_string(), 150, vec![98, 99]).unwrap(),
        UnpublishedPage::new("c".to_string(), 200, vec![100, 101, 102]).unwrap(),
    ]
}

fn published(batch: Vec<UnpublishedPage>) -> (String, MemoryStore, Vec<DataBlob>) {
    let (root, _, blobs) = encode_pages(batch).unwrap();
    let mut store = MemoryStore::new();
    for blob in &blobs {
        store.put(blob.clone()).unwrap();
    }
    (root, store, blobs)
}

#[test]
fn three_pages_validate_at_exactly_what_they_cost() {
    let (root, store, blobs) = published(three_pages());
    assert_eq!(root, "370132406aa47050aed9ae3e59f94b195f4d81a6");
    let (pages, resolved) =
        validate_utxo(&config(), &utxo(450), 1000, &chain_for(&root, 450), &store).unwrap();
    assert_eq!(
        pages,
        vec![
            Page::new(998, 100, vec![97]).unwrap(),
            Page::new(998, 150, vec![98, 99]).unwrap(),
            Page::new(998, 200, vec![100, 101, 102]).unwrap(),
        ]
    );
    assert_eq!(
        resolved,
        vec![blobs[0].clone(), blobs[3].clone(), blobs[1].clone(), blobs[2].clone()]
    );
}

#[test]
fn more_than_enough_is_accepted() {
    let (root, store, _) = published(three_pages());
    let verdict = validate_utxo(&config(), &utxo(451), 1000, &chain_for(&root, 451), &store);
    assert_eq!(verdict.unwrap().0.len(), 3);
}

#[test]
fn one_unit_short_is_not_enough() {
    let (root, store, _) = published(three_pages());
    let verdict = validate_utxo(&config(), &utxo(449), 1000, &chain_for(&root, 449), &store);
    assert_eq!(verdict, Err(VError::NotEnoughSpent("tx1".to_string())));
}

#[test]
fn page_under_the_minimum_rejects_the_commitment() {
    let batch = vec![
        UnpublishedPage::new("a".to_string(), 100, vec![97]).unwrap(),
        UnpublishedPage::new("b".to_string(), 40, vec![98]).unwrap(),
        UnpublishedPage::new("c".to_string(), 200, vec![99]).unwrap(),
    ];
    let (root, store, _) = published(batch);
    let verdict = validate_utxo(&config(), &utxo(450), 1000, &chain_for(&root, 450), &store);
    assert_eq!(verdict, Err(VError::PageUnderMin("tx1".to_string())));
}

#[test]
fn page_under_the_minimum_comes_before_the_total() {
    let batch = vec![
        UnpublishedPage::new("a".to_string(), 1000, vec![97]).unwrap(),
        UnpublishedPage::new("b".to_string(), 99, vec![98]).unwrap(),
    ];
    let (root, store, _) = published(batch);
    let verdict = validate_utxo(&config(), &utxo(450), 1000, &chain_for(&root, 450), &store);
    assert_eq!(verdict, Err(VError::PageUnderMin("tx1".to_string())));
}

#[test]
fn page_at_the_minimum_is_accepted() {
    let batch = vec![UnpublishedPage::new("a".to_string(), 100, vec![97]).unwrap()];
    let (root, store, _) = published(batch);
    let verdict = validate_utxo(&config(), &utxo(100), 1000, &chain_for(&root, 100), &store);
    assert_eq!(verdict.unwrap().0, vec![Page::new(998, 100, vec![97]).unwrap()]);
}

#[test]
fn transaction_in_no_block_is_malformed() {
    let (root, store, _) = published(three_pages());
    let chain = ChainView { vout: vec![commitment_script(&root)], block: None };
    assert_eq!(
        validate_utxo(&config(), &utxo(450), 1000, &chain, &store),
        Err(VError::MalformedData("tx1".to_string()))
    );
}

#[test]
fn larger_payment_in_the_block_wins() {
    let (root, store, _) = published(three_pages());
    let rival = Transaction {
        txid: "tx2".to_string(),
        output: vec![
            TxOutput { value: 5, script_pubkey: other_script() },
            TxOutput { value: 451, script_pubkey: address_script() },
        ],
    };
    let mut chain = chain_for(&root, 450);
    chain.block = Some(vec![own_tx(450), rival]);
    assert_eq!(
        validate_utxo(&config(), &utxo(450), 1000, &chain, &store),
        Err(VError::NotLargestLibraryTx("tx1".to_string()))
    );
}

#[test]
fn equal_payment_in_the_block_rejects_too() {
    let rival = Transaction {
        txid: "tx2".to_string(),
        output: vec![TxOutput { value: 450, script_pubkey: address_script() }],
    };
    let address = ADDRESS.to_string();
    assert!(!is_largest_library_tx(&utxo(450), &vec![own_tx(450), rival], &address));
}

#[test]
fn smaller_payment_and_payment_elsewhere_do_not_count() {
    let smaller = Transaction {
        txid: "tx2".to_string(),
        output: vec![TxOutput { value: 449, script_pubkey: address_script() }],
    };
    let elsewhere = Transaction {
        txid: "tx3".to_string(),
        output: vec![
            TxOutput { value: 9000, script_pubkey: other_script() },
            TxOutput { value: 9000, script_pubkey: vec![0x6a, 0x01, 0x02] },
            TxOutput { value: 9000, script_pubkey: vec![] },
        ],
    };
    let address = ADDRESS.to_string();
    assert!(is_largest_library_tx(&utxo(450), &vec![smaller, own_tx(450), elsewhere], &address));
    assert!(is_largest_library_tx(&utxo(450), &vec![], &address));
}

#[test]
fn address_is_derived_from_the_script() {
    let rival = Transaction {
        txid: "tx2".to_string(),
        output: vec![TxOutput { value: 450, script_pubkey: address_script() }],
    };
    let wrong = "a91441c98a140039816273e50db317422c11c2bfcc8887".to_string();
    assert!(is_largest_library_tx(&utxo(450), &vec![rival], &wrong));
}

#[test]
fn outbids_needs_the_address_and_the_amount() {
    let address = ADDRESS.to_string();
    assert!(outbids(&Some(ADDRESS.to_string()), 450, &address, 450));
    assert!(outbids(&Some(ADDRESS.to_string()), 451, &address, 450));
    assert!(!outbids(&Some(ADDRESS.to_string()), 449, &address, 450));
    assert!(!outbids(&Some("other".to_string()), 900, &address, 450));
    assert!(!outbids(&None, 900, &address, 450));
}

#[test]
fn commitment_is_read_from_the_op_return() {
    let key = "370132406aa47050aed9ae3e59f94b195f4d81a6";
    let txid = "tx1".to_string();
    let vout = vec![address_script(), commitment_script(key), vec![]];
    assert_eq!(find_commitment(&vout, &txid), Ok(key.to_string()));
}

#[test]
fn commitment_is_printed_in_lower_case() {
    let mut script = vec![0x6a, 0x14];
    script.extend([0xAB; 20]);
    let txid = "tx1".to_string();
    assert_eq!(
        find_commitment(&vec![script], &txid),
        Ok("abababababababababababababababababababab".to_string())
    );
}

#[test]
fn no_op_return_is_reported() {
    let txid = "tx1".to_string();
    assert_eq!(
        find_commitment(&vec![address_script(), vec![]], &txid),
        Err(VError::NoOPReturns(txid.clone()))
    );
    assert_eq!(find_commitment(&vec![], &txid), Err(VError::NoOPReturns(txid)));
}

#[test]
fn two_op_returns_are_reported() {
    let key = "370132406aa47050aed9ae3e59f94b195f4d81a6";
    let txid = "tx1".to_string();
    let vout = vec![commitment_script(key), address_script(), commitment_script(key)];
    assert_eq!(find_commitment(&vout, &txid), Err(VError::MultipleOPReturns(txid.clone())));
    let vout = vec![commitment_script(key), vec![0x6a]];
    assert_eq!(find_commitment(&vout, &txid), Err(VError::MultipleOPReturns(txid)));
}

#[test]
fn op_return_of_another_length_has_no_hash() {
    let txid = "tx1".to_string();
    let mut long = commitment_script("370132406aa47050aed9ae3e59f94b195f4d81a6");
    long.push(0);
    for script in [vec![0x6a], vec![0x6a, 0x14, 1, 2, 3], long] {
        assert_eq!(
            find_commitment(&vec![script], &txid),
            Err(VError::NoFollowingHash(txid.clone()))
        );
    }
}

#[test]
fn several_op_returns_are_counted_before_their_shape_is_read() {
    let key = "370132406aa47050aed9ae3e59f94b195f4d81a6";
    let txid = "tx1".to_string();
    let vout = vec![vec![0x6a, 0x01], commitment_script(key)];
    assert_eq!(find_commitment(&vout, &txid), Err(VError::MultipleOPReturns(txid.clone())));
    let vout = vec![vec![0x6a], address_script(), vec![0x6a, 0x14]];
    assert_eq!(find_commitment(&vout, &txid), Err(VError::MultipleOPReturns(txid)));
}

#[test]
fn unresolvable_commitment_is_rejected_with_the_resolver_reason() {
    let (root, _, _) = published(three_pages());
    let store = MemoryStore::new();
    assert_eq!(
        validate_utxo(&config(), &utxo(450), 1000, &chain_for(&root, 450), &store),
        Err(VError::DataNotFound(root))
    );
}

#[test]
fn chain_that_the_payment_cannot_fund_is_too_long() {
    let mut batch = Vec::new();
    for i in 0..50u8 {
        batch.push(UnpublishedPage::new(format!("p{}", i), 100, vec![i]).unwrap());
    }
    let (root, store, _) = published(batch);
    assert_eq!(
        validate_utxo(&config(), &utxo(4899), 1000, &chain_for(&root, 4899), &store),
        Err(VError::TooManyBranches(0))
    );
    assert_eq!(
        validate_utxo(&config(), &utxo(4900), 1000, &chain_for(&root, 4900), &store),
        Err(VError::NotEnoughSpent("tx1".to_string()))
    );
    let verdict = validate_utxo(&config(), &utxo(5000), 1000, &chain_for(&root, 5000), &store);
    assert_eq!(verdict.unwrap().0.len(), 50);
}

#[test]
fn depth_limit_is_amount_by_minimum_by_fan_out() {
    assert_eq!(max_branch_index(0, 100), 0);
    assert_eq!(max_branch_index(450, 100), 0);
    assert_eq!(max_branch_index(4899, 100), 0);
    assert_eq!(max_branch_index(4900, 100), 1);
    assert_eq!(max_branch_index(49000, 100), 10);
    assert_eq!(max_branch_index(u64::MAX, 1), (u64::MAX / 49) as i64);
    assert_eq!(max_branch_index(1000, i64::MAX), 0);
}

#[test]
fn pages_are_read_from_leaves_only() {
    let leaf = DataBlob::leaf(120, &vec![1, 2]);
    let branch = DataBlob::new_branch(&vec![leaf.clone()]).unwrap();
    let txid = "tx9".to_string();
    let pages = pages_from_blobs(&vec![leaf.clone(), branch.clone()], 100, 120, 55, &txid);
    assert_eq!(pages, Ok(vec![Page::new(55, 120, vec![1, 2]).unwrap()]));
    assert_eq!(pages_from_blobs(&vec![branch], 100, 0, 55, &txid), Ok(vec![]));
    assert_eq!(
        pages_from_blobs(&vec![leaf.clone(), leaf.clone()], 100, 239, 55, &txid),
        Err(VError::NotEnoughSpent(txid.clone()))
    );
    assert_eq!(
        pages_from_blobs(&vec![leaf], 121, 1000, 55, &txid),
        Err(VError::PageUnderMin(txid))
    );
}

#[test]
fn negative_weight_is_under_the_minimum() {
    let leaf = DataBlob::leaf(-5, &vec![1]);
    let txid = "tx9".to_string();
    assert_eq!(
        pages_from_blobs(&vec![leaf], 1, 1000, 55, &txid),
        Err(VError::PageUnderMin(txid))
    );
}

#[test]
fn very_large_weights_do_not_wrap() {
    let leaf = DataBlob::leaf(i64::MAX, &vec![1]);
    let txid = "tx9".to_string();
    assert_eq!(
        pages_from_blobs(&vec![leaf.clone(), leaf.clone(), leaf], 1, u64::MAX, 55, &txid),
        Err(VError::NotEnoughSpent(txid))
    );
}

#[test]
fn page_height_is_that_of_the_paying_block() {
    let batch = vec![UnpublishedPage::new("a".to_string(), 100, vec![97]).unwrap()];
    let (root, store, _) = published(batch);
    for (confirmations, height) in [(1u32, 1000u64), (2, 999), (3, 998), (1000, 1)] {
        let spend = Utxo { txid: "tx1".to_string(), amount: 100, confirmations };
        let verdict = validate_utxo(&config(), &spend, 1000, &chain_for(&root, 100), &store);
        assert_eq!(verdict.unwrap().0[0].block_height, height);
    }
}

#[test]
fn op_return_without_the_push_of_twenty_bytes_has_no_hash() {
    let (root, store, _) = published(three_pages());
    let txid = "tx1".to_string();
    for push in [0x00u8, 0x13, 0x15, 0x4c, 0xff] {
        let mut script = commitment_script(&root);
        assert_eq!(script.len(), 22);
        script[1] = push;
        assert_eq!(
            find_commitment(&vec![script.clone()], &txid),
            Err(VError::NoFollowingHash(txid.clone()))
        );
        let chain = ChainView {
            vout: vec![address_script(), script],
            block: Some(vec![own_tx(450)]),
        };
        assert_eq!(
            validate_utxo(&config(), &utxo(450), 1000, &chain, &store),
            Err(VError::NoFollowingHash(txid.clone()))
        );
    }
}

#[test]
fn validated_blobs_and_pages_are_within_their_limits() {
    let mut batch = Vec::new();
    for i in 0..60u8 {
        batch.push(UnpublishedPage::new(format!("p{}", i), 100, vec![i; 991]).unwrap());
    }
    let (root, store, _) = published(batch);
    let (pages, blobs) =
        validate_utxo(&config(), &utxo(6000), 1000, &chain_for(&root, 6000), &store).unwrap();
    assert_eq!(pages.len(), 60);
    for page in &pages {
        assert!(page.data.len() <= 991);
    }
    for blob in &blobs {
        assert!(blob.data.len() <= 1000);
    }
}
