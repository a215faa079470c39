//! Failures that are not verdicts on a commitment.

use vstd::prelude::*;
use crate::encoding::HexError;

verus! {

/// A failure of the library outside the validation of a commitment.
#[derive(Debug, PartialEq, Eq)]
pub enum Error {
    /// A start-up argument is not of the form `key=value`.
    NodeHelpMessage,
    /// A start-up argument names an unknown key.
    UnknownArgument(String),
    /// A payload is longer than the given number of bytes or entries.
    MaxVectorSize(u32),
    /// No wallet was configured.
    NoWallet,
    /// The wallet that should only watch holds private keys.
    WalletNotWatchOnly(String),
    /// The wallet that should pay holds no private keys.
    WalletWatchOnly(String),
    /// A text that should be hexadecimal is not.
    HexError(HexError),
    /// The text, which should be a number, is none.
    ParseError(String),
    /// The wallet did not sign every input of a transaction.
    CouldNotSignTransaction,
    /// A raw transaction has no `OP_RETURN` output with an amount before it.
    MalformedRawTransaction,
    /// The RPC service answered another call than the one that was made.
    UnexpectedReply,
}

} // verus!
