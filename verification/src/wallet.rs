//! What a node does with the answers of the RPC service while it opens a
//! wallet.

use vstd::prelude::*;
use crate::error::Error;

verus! {

/// Code with which the service says that a wallet is loaded already.
pub const RPC_WALLET_ALREADY_LOADED: i32 = -35;

/// Code with which the service says that it knows no such wallet.
pub const RPC_WALLET_NOT_FOUND: i32 = -18;

/// Code with which the service says that the wallet is busy with a rescan.
pub const RPC_WALLET_BUSY: i32 = -4;

/// How a call to the RPC service ended.
#[derive(Debug, Clone, Copy, PartialEq, Eq, Structural)]
pub enum RpcOutcome {
    /// The call succeeded.
    Done,
    /// The service answered with this error code.
    RpcError(i32),
    /// The call failed in another way.
    OtherError,
}

/// What to do after a wallet was asked to load.
#[derive(Debug, Clone, Copy, PartialEq, Eq, Structural)]
pub enum LoadAction {
    /// Use the wallet.
    Open,
    /// Create the wallet without private keys, then use it.
    CreateWatchOnly,
    /// Give up with the error of the call.
    Fail,
}

/// What to do after a descriptor was offered for import.
#[derive(Debug, Clone, Copy, PartialEq, Eq, Structural)]
pub enum ImportAction {
    /// The descriptor is imported.
    Finished,
    /// Wait and offer it again.
    Retry,
    /// Give up with the error of the call.
    Fail,
}

/// What to do after a wallet was asked to load: a wallet that loaded or was
/// loaded already is used, a watching wallet that the service does not know
/// is created, and every other answer is a failure.
pub fn after_load_wallet(outcome: RpcOutcome, watchonly: bool) -> (action: LoadAction)
    ensures
        action == match outcome {
            RpcOutcome::Done => LoadAction::Open,
            RpcOutcome::RpcError(code) => if code == RPC_WALLET_ALREADY_LOADED {
                LoadAction::Open
            } else if code == RPC_WALLET_NOT_FOUND && watchonly {
                LoadAction::CreateWatchOnly
            } else {
                LoadAction::Fail
            },
            RpcOutcome::OtherError => LoadAction::Fail,
        },
{
    match outcome {
        RpcOutcome::Done => LoadAction::Open,
        RpcOutcome::RpcError(code) => {
            if code == RPC_WALLET_ALREADY_LOADED {
                LoadAction::Open
            } else if code == RPC_WALLET_NOT_FOUND && watchonly {
                LoadAction::CreateWatchOnly
            } else {
                LoadAction::Fail
            }
        },
        RpcOutcome::OtherError => LoadAction::Fail,
    }
}

/// Checks that the wallet `wallet` is of the kind that is wanted: a watching
/// wallet holds no private keys, and a paying wallet holds them.
pub fn check_wallet_kind(private_keys_enabled: bool, watchonly: bool, wallet: &String) -> (checked:
    Result<(), Error>)
    ensures
        match checked {
            Ok(_) => private_keys_enabled != watchonly,
            Err(Error::WalletNotWatchOnly(name)) => {
                &&& watchonly
                &&& private_keys_enabled
                &&& name == *wallet
            },
            Err(Error::WalletWatchOnly(name)) => {
                &&& !watchonly
                &&& !private_keys_enabled
                &&& name == *wallet
            },
            Err(_) => false,
        },
{
    if watchonly && private_keys_enabled {
        Err(Error::WalletNotWatchOnly(wallet.clone()))
    } else if !watchonly && !private_keys_enabled {
        Err(Error::WalletWatchOnly(wallet.clone()))
    } else {
        Ok(())
    }
}

/// What to do after a descriptor was offered for import: the import is
/// offered again while the wallet is busy, and every other error is a
/// failure.
pub fn after_import(outcome: RpcOutcome) -> (action: ImportAction)
    ensures
        action == match outcome {
            RpcOutcome::Done => ImportAction::Finished,
            RpcOutcome::RpcError(code) => if code == RPC_WALLET_BUSY {
                ImportAction::Retry
            } else {
                ImportAction::Fail
            },
            RpcOutcome::OtherError => ImportAction::Fail,
        },
{
    match outcome {
        RpcOutcome::Done => ImportAction::Finished,
        RpcOutcome::RpcError(code) => {
            if code == RPC_WALLET_BUSY {
                ImportAction::Retry
            } else {
                ImportAction::Fail
            }
        },
        RpcOutcome::OtherError => ImportAction::Fail,
    }
}

} // verus!
