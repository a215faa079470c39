//! The reasons for which a commitment is rejected.

use vstd::prelude::*;
use vstd::string::StringExecFns;
use crate::encoding::{decimal_string, i64_to_string};

verus! {

/// Why a commitment, or a blob under it, was rejected. The text names the
/// transaction or the key of the blob at fault.
#[derive(Debug, PartialEq, Eq)]
pub enum VError {
    /// Another transaction of the block pays the address at least as much.
    NotLargestLibraryTx(String),
    /// More than one output starts with `OP_RETURN`.
    MultipleOPReturns(String),
    /// The `OP_RETURN` output does not hold exactly one 20-byte push.
    NoFollowingHash(String),
    /// No output starts with `OP_RETURN`.
    NoOPReturns(String),
    /// The weights of the pages add up to more than was destroyed.
    NotEnoughSpent(String),
    /// A branch below the root has fewer than 49 children.
    NotFullBranch(String),
    /// The store holds no blob under the key.
    DataNotFound(String),
    /// A blob that should be a leaf is none.
    ExpectedPage(String),
    /// A blob is cut short or has an unknown tag.
    MalformedData(String),
    /// The chain of branches is longer than the given limit allows.
    TooManyBranches(i64),
    /// A page has a weight under the minimum.
    PageUnderMin(String),
}

/// The mathematical value of a `VError`.
pub enum Rejection {
    NotLargestLibraryTx(Seq<char>),
    MultipleOPReturns(Seq<char>),
    NoFollowingHash(Seq<char>),
    NoOPReturns(Seq<char>),
    NotEnoughSpent(Seq<char>),
    NotFullBranch(Seq<char>),
    DataNotFound(Seq<char>),
    ExpectedPage(Seq<char>),
    MalformedData(Seq<char>),
    TooManyBranches(int),
    PageUnderMin(Seq<char>),
}

impl View for VError {
    type V = Rejection;

    open spec fn view(&self) -> Rejection {
        match self {
            VError::NotLargestLibraryTx(txid) => Rejection::NotLargestLibraryTx(txid@),
            VError::MultipleOPReturns(txid) => Rejection::MultipleOPReturns(txid@),
            VError::NoFollowingHash(txid) => Rejection::NoFollowingHash(txid@),
            VError::NoOPReturns(txid) => Rejection::NoOPReturns(txid@),
            VError::NotEnoughSpent(txid) => Rejection::NotEnoughSpent(txid@),
            VError::NotFullBranch(key) => Rejection::NotFullBranch(key@),
            VError::DataNotFound(key) => Rejection::DataNotFound(key@),
            VError::ExpectedPage(key) => Rejection::ExpectedPage(key@),
            VError::MalformedData(key) => Rejection::MalformedData(key@),
            VError::TooManyBranches(limit) => Rejection::TooManyBranches(*limit as int),
            VError::PageUnderMin(txid) => Rejection::PageUnderMin(txid@),
        }
    }
}

/// The text of a rejection that names the transaction `txid`.
pub open spec fn txid_message(txid: Seq<char>, reason: Seq<char>) -> Seq<char> {
    "Txid("@ + txid + "): "@ + reason
}

/// The text of a rejection that names the blob under `key`.
pub open spec fn hash_message(key: Seq<char>, reason: Seq<char>) -> Seq<char> {
    "Hash("@ + key + "): "@ + reason
}

/// The text that reports a rejection.
pub open spec fn rejection_message(rejection: Rejection) -> Seq<char> {
    match rejection {
        Rejection::NotLargestLibraryTx(txid) => txid_message(
            txid,
            "Was not the largest library transaction in the block"@,
        ),
        Rejection::MultipleOPReturns(txid) => txid_message(
            txid,
            "Multiple outputs start with OP_Return"@,
        ),
        Rejection::NoFollowingHash(txid) => txid_message(
            txid,
            "OP_Return not followed by 160 bit hash"@,
        ),
        Rejection::NoOPReturns(txid) => txid_message(
            txid,
            "No outputs starting with OP_Return"@,
        ),
        Rejection::NotEnoughSpent(txid) => txid_message(
            txid,
            "Amount spent on pages exceeded amount destroyed"@,
        ),
        Rejection::PageUnderMin(txid) => txid_message(
            txid,
            "Contains a page with a fee that is under the minimum"@,
        ),
        Rejection::NotFullBranch(key) => hash_message(
            key,
            "Found a branch that was not full, ignoring"@,
        ),
        Rejection::DataNotFound(key) => hash_message(key, "No data found in mainline for hash"@),
        Rejection::ExpectedPage(key) => hash_message(key, "Expected a page"@),
        Rejection::MalformedData(key) => hash_message(key, "Contains malformed data"@),
        Rejection::TooManyBranches(limit) => "Contained more then the "@ + decimal_string(limit)
            + " branch limit"@,
    }
}

/// Puts `subject` between `opening` and `"): "`, and `reason` after them.
fn named_message(opening: &str, subject: &String, reason: &str) -> (text: String)
    ensures
        text@ == opening@ + subject@ + "): "@ + reason@,
{
    let mut text = String::from_str(opening);
    text.append(subject.as_str());
    text.append("): ");
    text.append(reason);
    text
}

impl VError {
    /// The text that reports this rejection.
    pub fn to_string(&self) -> (text: String)
        ensures
            text@ == rejection_message(self@),
    {
        match self {
            VError::NotLargestLibraryTx(txid) => named_message(
                "Txid(",
                txid,
                "Was not the largest library transaction in the block",
            ),
            VError::MultipleOPReturns(txid) => named_message(
                "Txid(",
                txid,
                "Multiple outputs start with OP_Return",
            ),
            VError::NoFollowingHash(txid) => named_message(
                "Txid(",
                txid,
                "OP_Return not followed by 160 bit hash",
            ),
            VError::NoOPReturns(txid) => named_message(
                "Txid(",
                txid,
                "No outputs starting with OP_Return",
            ),
            VError::NotEnoughSpent(txid) => named_message(
                "Txid(",
                txid,
                "Amount spent on pages exceeded amount destroyed",
            ),
            VError::PageUnderMin(txid) => named_message(
                "Txid(",
                txid,
                "Contains a page with a fee that is under the minimum",
            ),
            VError::NotFullBranch(key) => named_message(
                "Hash(",
                key,
                "Found a branch that was not full, ignoring",
            ),
            VError::DataNotFound(key) => named_message(
                "Hash(",
                key,
                "No data found in mainline for hash",
            ),
            VError::ExpectedPage(key) => named_message("Hash(", key, "Expected a page"),
            VError::MalformedData(key) => named_message("Hash(", key, "Contains malformed data"),
            VError::TooManyBranches(limit) => {
                let mut text = String::from_str("Contained more then the ");
                let number = i64_to_string(*limit);
                text.append(number.as_str());
                text.append(" branch limit");
                text
            },
        }
    }
}

} // verus!
