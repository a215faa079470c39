use lipnode::codec::encode_pages;
use lipnode::structs::{DataBlob, UnpublishedPage};

fn pages(count: usize) -> Vec<UnpublishedPage> {
    let mut out = Vec::new();
    for i in 0..count {
        let data = vec![(i % 251) as u8, (i / 251) as u8, 7];
        out.push(UnpublishedPage::new(format!("page{}", i), 100 + i as i64, data).unwrap());
    }
    out
}

fn hex(bytes: &[u8]) -> String {
    let mut out = String::new();
    for b in bytes {
        out.push_str(&format!("{:02x}", b));
    }
    out
}

#[test]
fn single_page_makes_a_leaf_and_a_root() {
    let page = UnpublishedPage::new("one".to_string(), 100, vec![1, 2, 3]).unwrap();
    let (root, total, blobs) = encode_pages(vec![page]).unwrap();
    assert_eq!(total, 100);
    assert_eq!(blobs.len(), 2);
    assert_eq!(blobs[0].data, vec![0, 100, 0, 0, 0, 0, 0, 0, 0, 1, 2, 3]);
    assert_eq!(
        blobs[1].data,
        vec![
            1, 120, 84, 156, 88, 255, 51, 60, 58, 145, 68, 169, 164, 37, 251, 42, 127, 240, 148,
            128, 245
        ]
    );
    assert_eq!(root, "7a03f3cdb3d689ab2463b56f8e3e6de889ffad78");
}

#[test]
fn three_pages_make_three_leaves_and_one_branch() {
    let batch = vec![
        UnpublishedPage::new("a".to_string(), 100, vec![97]).unwrap(),
        UnpublishedPage::new("b".to_string(), 150, vec![98, 99]).unwrap(),
        UnpublishedPage::new("c".to_string(), 200, vec![100, 101, 102]).unwrap(),
    ];
    let (root, total, blobs) = encode_pages(batch).unwrap();
    assert_eq!(total, 450);
    assert_eq!(total as f64 / 1e8, 450.0 / 1e8);
    assert_eq!(blobs.len(), 4);
    assert_eq!(blobs[0].data, vec![0, 100, 0, 0, 0, 0, 0, 0, 0, 97]);
    assert_eq!(blobs[1].data, vec![0, 150, 0, 0, 0, 0, 0, 0, 0, 98, 99]);
    assert_eq!(blobs[2].data, vec![0, 200, 0, 0, 0, 0, 0, 0, 0, 100, 101, 102]);
    assert_eq!(blobs[3].data.len(), 61);
    assert_eq!(blobs[3].data[0], 1);
    assert_eq!(hex(&blobs[3].data[1..21]), "0b5ed93a524009f13dd86a1f1b30a9b8f9481377");
    assert_eq!(hex(&blobs[3].data[21..41]), "dadede0a2ba0b4d78088b881a11d5eaf952c6244");
    assert_eq!(hex(&blobs[3].data[41..61]), "9b54618c0b963beba01fb5bc62c7b88ddbed65b9");
    assert_eq!(root, "370132406aa47050aed9ae3e59f94b195f4d81a6");
}

#[test]
fn forty_nine_pages_fit_one_branch() {
    let (root, total, blobs) = encode_pages(pages(49)).unwrap();
    assert_eq!(blobs.len(), 50);
    assert_eq!(blobs[49].data.len(), 1 + 49 * 20);
    assert_eq!(root, hex(&blobs[49].hash()));
    assert_eq!(total, (0..49).map(|i| 100 + i as i128).sum::<i128>());
}

#[test]
fn fifty_pages_chain_two_branches() {
    let (root, _, blobs) = encode_pages(pages(50)).unwrap();
    assert_eq!(blobs.len(), 52);
    let first = &blobs[50];
    let last = &blobs[51];
    assert_eq!(first.data.len(), 1 + 49 * 20);
    assert_eq!(&first.data[1..21], &blobs[0].hash()[..]);
    assert_eq!(&first.data[961..981], &blobs[48].hash()[..]);
    assert_eq!(last.data.len(), 1 + 2 * 20);
    assert_eq!(&last.data[1..21], &first.hash()[..]);
    assert_eq!(&last.data[21..41], &blobs[49].hash()[..]);
    assert_eq!(root, hex(&last.hash()));
}

#[test]
fn chain_grows_by_one_branch_for_each_48_pages() {
    for (count, branches) in [(1, 1), (49, 1), (50, 2), (97, 2), (98, 3), (145, 3), (146, 4)] {
        let (_, _, blobs) = encode_pages(pages(count)).unwrap();
        assert_eq!(blobs.len(), count + branches, "{} pages", count);
        for blob in &blobs[..count] {
            assert_eq!(blob.data[0], 0);
        }
        for (i, blob) in blobs[count..].iter().enumerate() {
            assert_eq!(blob.data[0], 1);
            if i + 1 < branches {
                assert_eq!(blob.data.len(), 1 + 49 * 20);
            }
            if i > 0 {
                assert_eq!(&blob.data[1..21], &blobs[count + i - 1].hash()[..]);
            }
        }
    }
}

#[test]
fn leaves_come_in_page_order() {
    let batch = pages(60);
    let expected: Vec<DataBlob> =
        batch.iter().map(|p| DataBlob::leaf(p.n_value, &p.data)).collect();
    let (_, _, blobs) = encode_pages(batch).unwrap();
    assert_eq!(&blobs[..60], &expected[..]);
}

#[test]
fn every_encoded_blob_is_within_the_limit() {
    let mut batch = Vec::new();
    for i in 0..60 {
        batch.push(UnpublishedPage::new(format!("p{}", i), 1, vec![i as u8; 991]).unwrap());
    }
    let (_, total, blobs) = encode_pages(batch).unwrap();
    assert_eq!(total, 60);
    for blob in &blobs {
        assert!(blob.data.len() <= 1000);
    }
}

#[test]
fn sum_of_weights_is_exact_for_any_weights() {
    let batch = vec![
        UnpublishedPage::new("a".to_string(), i64::MAX, vec![1]).unwrap(),
        UnpublishedPage::new("b".to_string(), i64::MAX, vec![2]).unwrap(),
        UnpublishedPage::new("c".to_string(), 2, vec![3]).unwrap(),
    ];
    let (_, total, _) = encode_pages(batch).unwrap();
    assert_eq!(total, 2 * (i64::MAX as i128) + 2);
    let batch = vec![
        UnpublishedPage::new("a".to_string(), i64::MIN, vec![1]).unwrap(),
        UnpublishedPage::new("b".to_string(), -1, vec![2]).unwrap(),
    ];
    let (_, total, _) = encode_pages(batch).unwrap();
    assert_eq!(total, i64::MIN as i128 - 1);
}
