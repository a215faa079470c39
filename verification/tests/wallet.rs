use lipnode::error::Error;
use lipnode::scan::{republish_due, starting_mark};
use lipnode::wallet::{
    after_import, after_load_wallet, check_wallet_kind, ImportAction, LoadAction, RpcOutcome,
};

#[test]
fn loaded_wallet_is_opened() {
    for watchonly in [false, true] {
        assert_eq!(after_load_wallet(RpcOutcome::Done, watchonly), LoadAction::Open);
        assert_eq!(after_load_wallet(RpcOutcome::RpcError(-35), watchonly), LoadAction::Open);
        assert_eq!(after_load_wallet(RpcOutcome::RpcError(-4), watchonly), LoadAction::Fail);
        assert_eq!(after_load_wallet(RpcOutcome::RpcError(35), watchonly), LoadAction::Fail);
        assert_eq!(after_load_wallet(RpcOutcome::OtherError, watchonly), LoadAction::Fail);
    }
}

#[test]
fn unknown_watching_wallet_is_created() {
    assert_eq!(after_load_wallet(RpcOutcome::RpcError(-18), true), LoadAction::CreateWatchOnly);
    assert_eq!(after_load_wallet(RpcOutcome::RpcError(-18), false), LoadAction::Fail);
}

#[test]
fn wallet_must_be_of_the_wanted_kind() {
    let name = "w".to_string();
    assert_eq!(check_wallet_kind(true, false, &name), Ok(()));
    assert_eq!(check_wallet_kind(false, true, &name), Ok(()));
    assert_eq!(check_wallet_kind(true, true, &name), Err(Error::WalletNotWatchOnly(name.clone())));
    assert_eq!(check_wallet_kind(false, false, &name), Err(Error::WalletWatchOnly(name.clone())));
}

#[test]
fn import_is_offered_again_while_the_wallet_is_busy() {
    assert_eq!(after_import(RpcOutcome::Done), ImportAction::Finished);
    assert_eq!(after_import(RpcOutcome::RpcError(-4)), ImportAction::Retry);
    assert_eq!(after_import(RpcOutcome::RpcError(-35)), ImportAction::Fail);
    assert_eq!(after_import(RpcOutcome::OtherError), ImportAction::Fail);
}

#[test]
fn blobs_are_announced_every_thirtieth_cycle() {
    assert!(republish_due(0));
    assert!(!republish_due(1));
    assert!(!republish_due(29));
    assert!(republish_due(30));
    assert!(!republish_due(31));
    assert!(republish_due(60));
}

#[test]
fn scan_starts_at_the_set_height_or_the_kept_one() {
    assert_eq!(starting_mark(5, None), 5);
    assert_eq!(starting_mark(5, Some(9)), 5);
    assert_eq!(starting_mark(0, Some(9)), 9);
    assert_eq!(starting_mark(0, Some(0)), 0);
    assert_eq!(starting_mark(0, None), 818100);
}
