use lipnode::codec::encode_pages;
use lipnode::resolver::{validate_branch, validate_page};
use lipnode::store::{BlobStore, MemoryStore};
use lipnode::structs::{DataBlob, UnpublishedPage};
use lipnode::verror::VError;

fn pages(count: usize) -> Vec<UnpublishedPage> {
    let mut out = Vec::new();
    for i in 0..count {
        let data = vec![(i % 251) as u8, (i / 251) as u8, 7];
        out.push(UnpublishedPage::new(format!("page{}", i), 100 + i as i64, data).unwrap());
    }
    out
}

fn store_of(blobs: &[DataBlob]) -> MemoryStore {
    let mut store = MemoryStore::new();
    for blob in blobs {
        store.put(blob.clone()).unwrap();
    }
    store
}

fn leaves_of(blobs: &[DataBlob]) -> Vec<(i64, Vec<u8>)> {
    blobs
        .iter()
        .filter(|b| b.data[0] == 0)
        .map(|b| {
            let mut weight = [0u8; 8];
            weight.copy_from_slice(&b.data[1..9]);
            (i64::from_le_bytes(weight), b.data[9..].to_vec())
        })
        .collect()
}

fn branch_of(children: &[DataBlob]) -> DataBlob {
    DataBlob::new_branch(&children.to_vec()).unwrap()
}

fn key_of(blob: &DataBlob) -> String {
    let mut store = MemoryStore::new();
    store.put(blob.clone()).unwrap()
}

fn full_branch(first: &DataBlob, tag: u8) -> (DataBlob, Vec<DataBlob>) {
    let mut children = vec![first.clone()];
    for i in 0..48u8 {
        children.push(DataBlob::leaf(100, &vec![tag, i]));
    }
    (branch_of(&children), children)
}

#[test]
fn encoded_pages_resolve_to_themselves() {
    for count in [1usize, 2, 3, 48, 49, 50, 51, 97, 98, 150, 300] {
        let batch = pages(count);
        let expected: Vec<(i64, Vec<u8>)> =
            batch.iter().map(|p| (p.n_value, p.data.clone())).collect();
        let (root, _, blobs) = encode_pages(batch).unwrap();
        let store = store_of(&blobs);
        let limit = ((count + 48) / 49) as i64;
        let resolved = validate_branch(root, 0, limit, &store).unwrap();
        assert_eq!(resolved.len(), blobs.len(), "{} pages", count);
        assert_eq!(leaves_of(&resolved), expected, "{} pages", count);
    }
}

#[test]
fn resolution_puts_each_branch_between_its_first_child_and_its_leaves() {
    let (root, _, blobs) = encode_pages(pages(50)).unwrap();
    let store = store_of(&blobs);
    let resolved = validate_branch(root, 0, 1, &store).unwrap();
    let mut expected = vec![blobs[0].clone(), blobs[50].clone()];
    expected.extend_from_slice(&blobs[1..49]);
    expected.push(blobs[51].clone());
    expected.push(blobs[49].clone());
    assert_eq!(resolved, expected);
}

#[test]
fn single_page_resolves_to_leaf_then_branch() {
    let (root, _, blobs) = encode_pages(pages(1)).unwrap();
    let store = store_of(&blobs);
    let resolved = validate_branch(root, 0, 0, &store).unwrap();
    assert_eq!(resolved, vec![blobs[0].clone(), blobs[1].clone()]);
}

#[test]
fn leaf_resolves_to_itself_at_any_depth() {
    let leaf = DataBlob::leaf(100, &vec![1]);
    let store = store_of(&[leaf.clone()]);
    assert_eq!(validate_branch(key_of(&leaf), 7, 0, &store), Ok(vec![leaf.clone()]));
    assert_eq!(validate_page(key_of(&leaf), &store), Ok(leaf));
}

#[test]
fn missing_root_is_not_found() {
    let store = MemoryStore::new();
    let key = "0b5ed93a524009f13dd86a1f1b30a9b8f9481377".to_string();
    assert_eq!(validate_branch(key.clone(), 0, 5, &store), Err(VError::DataNotFound(key.clone())));
    assert_eq!(validate_page(key.clone(), &store), Err(VError::DataNotFound(key)));
}

#[test]
fn missing_leaf_is_not_found_under_its_own_key() {
    let (root, _, blobs) = encode_pages(pages(3)).unwrap();
    let store = store_of(&[blobs[0].clone(), blobs[1].clone(), blobs[3].clone()]);
    assert_eq!(
        validate_branch(root, 0, 5, &store),
        Err(VError::DataNotFound(key_of(&blobs[2])))
    );
}

#[test]
fn missing_first_child_is_not_found() {
    let (root, _, blobs) = encode_pages(pages(3)).unwrap();
    let store = store_of(&blobs[1..]);
    assert_eq!(
        validate_branch(root, 0, 5, &store),
        Err(VError::DataNotFound(key_of(&blobs[0])))
    );
}

#[test]
fn leaf_without_data_is_malformed() {
    let short = DataBlob::leaf(100, &vec![]);
    assert_eq!(short.data.len(), 9);
    let store = store_of(&[short.clone()]);
    let key = key_of(&short);
    assert_eq!(validate_branch(key.clone(), 0, 5, &store), Err(VError::MalformedData(key.clone())));
    assert_eq!(validate_page(key.clone(), &store), Err(VError::MalformedData(key)));
}

#[test]
fn leaf_with_one_byte_of_data_is_taken() {
    let leaf = DataBlob::leaf(100, &vec![5]);
    assert_eq!(leaf.data.len(), 10);
    let store = store_of(&[leaf.clone()]);
    assert_eq!(validate_page(key_of(&leaf), &store), Ok(leaf));
}

#[test]
fn empty_blob_is_malformed_at_the_root_and_no_page_below() {
    let empty = DataBlob::new(vec![]).unwrap();
    let store = store_of(&[empty.clone()]);
    let key = key_of(&empty);
    assert_eq!(validate_branch(key.clone(), 0, 5, &store), Err(VError::MalformedData(key.clone())));
    assert_eq!(validate_page(key.clone(), &store), Err(VError::ExpectedPage(key)));
}

#[test]
fn unknown_tag_is_malformed_at_the_root_and_no_page_below() {
    let odd = DataBlob::new(vec![2; 30]).unwrap();
    let store = store_of(&[odd.clone()]);
    let key = key_of(&odd);
    assert_eq!(validate_branch(key.clone(), 0, 5, &store), Err(VError::MalformedData(key.clone())));
    assert_eq!(validate_page(key.clone(), &store), Err(VError::ExpectedPage(key)));
}

#[test]
fn branch_without_children_is_malformed() {
    let bare = DataBlob::new(vec![1]).unwrap();
    let store = store_of(&[bare.clone()]);
    let key = key_of(&bare);
    assert_eq!(validate_branch(key.clone(), 0, 5, &store), Err(VError::MalformedData(key.clone())));
    assert_eq!(validate_branch(key.clone(), 1, 5, &store), Err(VError::MalformedData(key)));
}

#[test]
fn branch_with_a_short_last_chunk_is_malformed() {
    let leaf = DataBlob::leaf(100, &vec![1]);
    let mut data = branch_of(&[leaf.clone()]).data;
    data.extend_from_slice(&[9; 19]);
    let ragged = DataBlob::new(data).unwrap();
    let store = store_of(&[leaf, ragged.clone()]);
    let key = key_of(&ragged);
    assert_eq!(validate_branch(key.clone(), 0, 5, &store), Err(VError::MalformedData(key)));
}

#[test]
fn branch_child_that_is_a_branch_is_no_page() {
    let leaf = DataBlob::leaf(100, &vec![1]);
    let inner = branch_of(&[leaf.clone()]);
    let outer = branch_of(&[leaf.clone(), inner.clone()]);
    let store = store_of(&[leaf, inner.clone(), outer.clone()]);
    assert_eq!(
        validate_branch(key_of(&outer), 0, 5, &store),
        Err(VError::ExpectedPage(key_of(&inner)))
    );
}

#[test]
fn short_branch_below_the_root_is_not_full() {
    let leaf = DataBlob::leaf(100, &vec![1]);
    let mut children = vec![leaf.clone()];
    for i in 0..47u8 {
        children.push(DataBlob::leaf(100, &vec![2, i]));
    }
    let short = branch_of(&children);
    assert_eq!(short.data.len(), 1 + 48 * 20);
    let key = key_of(&short);
    let mut all = children.clone();
    all.push(short.clone());
    let full_store = store_of(&all);
    let bare_store = store_of(&[short.clone()]);
    for index in [1i64, 2, 5] {
        assert_eq!(
            validate_branch(key.clone(), index, 5, &full_store),
            Err(VError::NotFullBranch(key.clone()))
        );
        assert_eq!(
            validate_branch(key.clone(), index, 5, &bare_store),
            Err(VError::NotFullBranch(key.clone()))
        );
    }
    assert_eq!(validate_branch(key, 0, 5, &full_store).unwrap().len(), 49);
}

#[test]
fn short_inner_branch_fails_the_whole_chain() {
    let leaf = DataBlob::leaf(100, &vec![1]);
    let inner = branch_of(&[leaf.clone(), DataBlob::leaf(100, &vec![2])]);
    let outer = branch_of(&[inner.clone(), DataBlob::leaf(100, &vec![3])]);
    let store = store_of(&[
        leaf,
        DataBlob::leaf(100, &vec![2]),
        DataBlob::leaf(100, &vec![3]),
        inner.clone(),
        outer.clone(),
    ]);
    assert_eq!(
        validate_branch(key_of(&outer), 0, 5, &store),
        Err(VError::NotFullBranch(key_of(&inner)))
    );
}

#[test]
fn branch_deeper_than_the_limit_is_too_many() {
    let (root, _, blobs) = encode_pages(pages(100)).unwrap();
    assert_eq!(blobs.len(), 103);
    let store = store_of(&blobs);
    assert_eq!(validate_branch(root.clone(), 0, 0, &store), Err(VError::TooManyBranches(0)));
    assert_eq!(validate_branch(root.clone(), 0, 1, &store), Err(VError::TooManyBranches(1)));
    assert_eq!(validate_branch(root.clone(), 0, 2, &store).unwrap().len(), 103);
    assert_eq!(validate_branch(root, 0, 3, &store).unwrap().len(), 103);
}

#[test]
fn depth_is_checked_before_the_shape_of_a_branch() {
    let bare = DataBlob::new(vec![1]).unwrap();
    let store = store_of(&[bare.clone()]);
    assert_eq!(validate_branch(key_of(&bare), 3, 2, &store), Err(VError::TooManyBranches(2)));
    assert_eq!(validate_branch(key_of(&bare), 0, -1, &store), Err(VError::TooManyBranches(-1)));
}

#[test]
fn long_chain_resolves_without_deep_calls() {
    let mut first = DataBlob::leaf(100, &vec![0]);
    let mut all = vec![first.clone()];
    let levels = 400usize;
    for level in 0..levels {
        let (branch, children) = full_branch(&first, (level % 250) as u8 + 1);
        for child in &children[1..] {
            all.push(child.clone());
        }
        all.push(branch.clone());
        first = branch;
    }
    let root = branch_of(&[first.clone(), DataBlob::leaf(100, &vec![255, 255])]);
    all.push(DataBlob::leaf(100, &vec![255, 255]));
    all.push(root.clone());
    let mut store = MemoryStore::new();
    let mut count = 0;
    for blob in &all {
        store.put(blob.clone()).unwrap();
        count += 1;
    }
    assert_eq!(count, all.len());
    let resolved = validate_branch(key_of(&root), 0, levels as i64, &store).unwrap();
    assert_eq!(resolved.len(), 1 + levels * 49 + 2);
    assert_eq!(
        validate_branch(key_of(&root), 0, levels as i64 - 1, &store),
        Err(VError::TooManyBranches(levels as i64 - 1))
    );
}

#[test]
fn limit_of_the_largest_number_is_taken() {
    let (root, _, blobs) = encode_pages(pages(50)).unwrap();
    let store = store_of(&blobs);
    assert_eq!(validate_branch(root, 0, i64::MAX, &store).unwrap().len(), 52);
}

#[test]
fn one_level_for_each_full_branch_of_pages_is_enough_up_to_2449_pages() {
    let (root, _, blobs) = encode_pages(pages(2449)).unwrap();
    assert_eq!(blobs.len(), 2449 + 51);
    let store = store_of(&blobs);
    assert_eq!(validate_branch(root.clone(), 0, 50, &store).unwrap().len(), blobs.len());
    assert_eq!(validate_branch(root, 0, 49, &store), Err(VError::TooManyBranches(49)));
}

#[test]
fn chain_over_2450_pages_is_one_level_deeper() {
    let (root, _, blobs) = encode_pages(pages(2450)).unwrap();
    assert_eq!(blobs.len(), 2450 + 52);
    let store = store_of(&blobs);
    assert_eq!(validate_branch(root.clone(), 0, 50, &store), Err(VError::TooManyBranches(50)));
    assert_eq!(validate_branch(root, 0, 51, &store).unwrap().len(), blobs.len());
}

#[test]
fn resolution_gives_no_more_blobs_than_the_limit_allows() {
    for (count, limit) in [(1usize, 0i64), (49, 0), (50, 1), (98, 2), (300, 6)] {
        let (root, _, blobs) = encode_pages(pages(count)).unwrap();
        let store = store_of(&blobs);
        let resolved = validate_branch(root, 0, limit, &store).unwrap();
        assert!(resolved.len() as i64 <= 1 + 49 * (limit + 1), "{} pages", count);
    }
}
