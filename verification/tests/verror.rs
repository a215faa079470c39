use lipnode::verror::VError;

#[test]
fn transaction_rejections_name_the_transaction() {
    let txid = "ab12".to_string();
    assert_eq!(
        VError::NotLargestLibraryTx(txid.clone()).to_string(),
        "Txid(ab12): Was not the largest library transaction in the block"
    );
    assert_eq!(
        VError::MultipleOPReturns(txid.clone()).to_string(),
        "Txid(ab12): Multiple outputs start with OP_Return"
    );
    assert_eq!(
        VError::NoFollowingHash(txid.clone()).to_string(),
        "Txid(ab12): OP_Return not followed by 160 bit hash"
    );
    assert_eq!(
        VError::NoOPReturns(txid.clone()).to_string(),
        "Txid(ab12): No outputs starting with OP_Return"
    );
    assert_eq!(
        VError::NotEnoughSpent(txid.clone()).to_string(),
        "Txid(ab12): Amount spent on pages exceeded amount destroyed"
    );
    assert_eq!(
        VError::PageUnderMin(txid).to_string(),
        "Txid(ab12): Contains a page with a fee that is under the minimum"
    );
}

#[test]
fn blob_rejections_name_the_key() {
    let key = "00ff".to_string();
    assert_eq!(
        VError::NotFullBranch(key.clone()).to_string(),
        "Hash(00ff): Found a branch that was not full, ignoring"
    );
    assert_eq!(
        VError::DataNotFound(key.clone()).to_string(),
        "Hash(00ff): No data found in mainline for hash"
    );
    assert_eq!(VError::ExpectedPage(key.clone()).to_string(), "Hash(00ff): Expected a page");
    assert_eq!(VError::MalformedData(key).to_string(), "Hash(00ff): Contains malformed data");
}

#[test]
fn depth_rejection_prints_the_limit() {
    assert_eq!(
        VError::TooManyBranches(5).to_string(),
        "Contained more then the 5 branch limit"
    );
    assert_eq!(
        VError::TooManyBranches(0).to_string(),
        "Contained more then the 0 branch limit"
    );
    assert_eq!(
        VError::TooManyBranches(-12).to_string(),
        "Contained more then the -12 branch limit"
    );
    assert_eq!(
        VError::TooManyBranches(i64::MAX).to_string(),
        "Contained more then the 9223372036854775807 branch limit"
    );
    assert_eq!(
        VError::TooManyBranches(i64::MIN).to_string(),
        "Contained more then the -9223372036854775808 branch limit"
    );
}

#[test]
fn rejections_compare_by_kind_and_subject() {
    assert_eq!(VError::DataNotFound("a".to_string()), VError::DataNotFound("a".to_string()));
    assert_ne!(VError::DataNotFound("a".to_string()), VError::DataNotFound("b".to_string()));
    assert_ne!(VError::DataNotFound("a".to_string()), VError::ExpectedPage("a".to_string()));
}
