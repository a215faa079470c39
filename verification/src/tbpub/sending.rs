//! Broadcasting a tagged transaction: the script to publish, the amount that
//! its output destroys, and the calls to the RPC service that send it.

use vstd::prelude::*;
use vstd::bytes::{spec_u64_to_le_bytes, u64_to_le_bytes};
use vstd::string::StringExecFns;
use vstd::utf8::encode_utf8;
use crate::encoding::{hex_bytes, hex_decode, hex_encode, hex_string, is_hex};
use crate::error::Error;
use crate::script::OP_RETURN;
use crate::tbpub::transaction::TBPUB;

verus! {

/// Flag of a hash, in hexadecimal.
pub const FLAG_HASH_HEX: &'static str = "00";

/// Flag of an identifier, in hexadecimal.
pub const FLAG_DID_HEX: &'static str = "01";

/// Number of bytes of the amount of an output.
pub const AMOUNT_LEN: usize = 8;

/// The data of the output that publishes `payload` under the flag `flag`:
/// the tag, the flag, and the bytes of the payload in hexadecimal.
pub open spec fn output_script_of(flag: Seq<char>, payload: Seq<char>) -> Seq<char> {
    TBPUB@ + flag + hex_string(encode_utf8(payload))
}

/// Builds the data of the output that publishes `payload` under `flag`.
fn output_script(flag: &str, payload: &str) -> (script: String)
    ensures
        script@ == output_script_of(flag@, payload@),
{
    let mut script = String::from_str(TBPUB);
    script.append(flag);
    script.append(hex_encode(payload.as_bytes()).as_str());
    script
}

/// The data of the output that publishes the text `hash`.
pub fn hash_output_script(hash: &str) -> (script: String)
    ensures
        script@ == output_script_of(FLAG_HASH_HEX@, hash@),
{
    output_script(FLAG_HASH_HEX, hash)
}

/// The data of the output that publishes the identifier `did`.
pub fn did_output_script(did: &str) -> (script: String)
    ensures
        script@ == output_script_of(FLAG_DID_HEX@, did@),
{
    output_script(FLAG_DID_HEX, did)
}

/// Position of the first `OP_RETURN` byte in `raw`, or the length of `raw`.
pub open spec fn first_op_return(raw: Seq<u8>) -> int
    decreases raw.len(),
{
    if raw.len() == 0 {
        0
    } else if raw[0] == OP_RETURN {
        0
    } else {
        1 + first_op_return(raw.skip(1))
    }
}

/// The raw transaction `raw` with `price` as the amount of its data output:
/// the eight bytes that end one byte before the first `OP_RETURN` byte are
/// replaced by `price`, least significant byte first. A transaction without
/// such bytes gives nothing.
pub open spec fn priced(raw: Seq<u8>, price: u64) -> Option<Seq<u8>> {
    let at = first_op_return(raw);
    if AMOUNT_LEN + 1 <= at < raw.len() {
        Some(raw.take(at - 1 - AMOUNT_LEN) + spec_u64_to_le_bytes(price) + raw.skip(at - 1))
    } else {
        None
    }
}

/// Where no `OP_RETURN` stands among the first `k` bytes, the first stands
/// `k` bytes behind the first of what follows them.
pub proof fn lemma_first_op_return_skip(raw: Seq<u8>, k: int)
    requires
        0 <= k <= raw.len(),
        forall|j: int| 0 <= j < k ==> raw[j] != OP_RETURN,
    ensures
        first_op_return(raw) == k + first_op_return(raw.skip(k)),
    decreases k,
{
    if k > 0 {
        lemma_first_op_return_skip(raw, k - 1);
        assert(raw.skip(k - 1)[0] == raw[k - 1]);
        assert(raw.skip(k - 1).skip(1) == raw.skip(k));
    } else {
        assert(raw.skip(0) == raw);
    }
}

/// The view of optional bytes.
pub open spec fn bytes_view(bytes: Option<Vec<u8>>) -> Option<Seq<u8>> {
    match bytes {
        Some(b) => Some(b@),
        None => None,
    }
}

/// Sets the amount of the data output of a raw transaction.
pub fn with_price(raw: &Vec<u8>, price: u64) -> (patched: Option<Vec<u8>>)
    ensures
        bytes_view(patched) == priced(raw@, price),
{
    let mut at: usize = 0;
    while at < raw.len() && raw[at] != OP_RETURN
        invariant
            at <= raw@.len(),
            forall|j: int| 0 <= j < at ==> raw@[j] != OP_RETURN,
        decreases raw@.len() - at,
    {
        at += 1;
    }
    proof {
        lemma_first_op_return_skip(raw@, at as int);
        if at < raw@.len() {
            assert(raw@.skip(at as int)[0] == OP_RETURN);
        }
        assert(first_op_return(raw@) == at);
    }
    if at >= raw.len() || at < AMOUNT_LEN + 1 {
        return None;
    }
    let mut patched: Vec<u8> = Vec::new();
    let mut i: usize = 0;
    while i < at - 1 - AMOUNT_LEN
        invariant
            AMOUNT_LEN + 1 <= at < raw@.len(),
            i <= at - 1 - AMOUNT_LEN,
            patched@ == raw@.take(i as int),
        decreases at - i,
    {
        patched.push(raw[i]);
        proof {
            assert(raw@.take(i + 1) == raw@.take(i as int).push(raw@[i as int]));
        }
        i += 1;
    }
    let mut amount = u64_to_le_bytes(price);
    patched.append(&mut amount);
    let mut k: usize = at - 1;
    while k < raw.len()
        invariant
            AMOUNT_LEN + 1 <= at < raw@.len(),
            at - 1 <= k <= raw@.len(),
            patched@ == raw@.take(at - 1 - AMOUNT_LEN) + spec_u64_to_le_bytes(price)
                + raw@.subrange(at - 1, k as int),
        decreases raw@.len() - k,
    {
        patched.push(raw[k]);
        proof {
            assert(raw@.subrange(at - 1, k + 1) == raw@.subrange(at - 1, k as int).push(
                raw@[k as int],
            ));
        }
        k += 1;
    }
    proof {
        assert(raw@.subrange(at - 1, raw@.len() as int) == raw@.skip(at - 1));
    }
    Some(patched)
}

/// Sets the amount of the data output of a raw transaction in hexadecimal.
/// The result is in lower case.
pub fn patch_raw_transaction(raw_tx: &str, price: u64) -> (patched: Result<String, Error>)
    ensures
        match patched {
            Ok(text) => {
                &&& is_hex(encode_utf8(raw_tx@))
                &&& priced(hex_bytes(encode_utf8(raw_tx@)), price) matches Some(bytes)
                &&& text@ == hex_string(bytes)
            },
            Err(Error::HexError(_)) => !is_hex(encode_utf8(raw_tx@)),
            Err(Error::MalformedRawTransaction) => {
                &&& is_hex(encode_utf8(raw_tx@))
                &&& priced(hex_bytes(encode_utf8(raw_tx@)), price) is None
            },
            Err(_) => false,
        },
{
    let raw = match hex_decode(raw_tx.as_bytes()) {
        Ok(raw) => raw,
        Err(error) => {
            return Err(Error::HexError(error));
        },
    };
    match with_price(&raw, price) {
        Some(bytes) => Ok(hex_encode(bytes.as_slice())),
        None => Err(Error::MalformedRawTransaction),
    }
}

/// A call to the RPC service.
#[derive(Debug, PartialEq, Eq)]
pub enum RpcCall {
    /// Make a transaction without inputs whose one output carries `data`.
    CreateRawTransaction { data: String },
    /// Decode `hex`, to see that it is a transaction.
    DecodeRawTransaction { hex: String },
    /// Add inputs and change to `hex`.
    FundRawTransaction { hex: String },
    /// Sign `hex` with the wallet.
    SignRawTransactionWithWallet { hex: String },
    /// Broadcast `hex`.
    SendRawTransaction { hex: String },
}

/// The answer of the RPC service to a call.
#[derive(Debug, PartialEq, Eq)]
pub enum RpcReply {
    /// The transaction that was made.
    Created { hex: String },
    /// The transaction could be decoded.
    Decoded,
    /// The transaction with inputs and change.
    Funded { hex: String },
    /// The transaction with signatures, and whether every input is signed.
    Signed { hex: String, complete: bool },
    /// The identifier of the transaction that was broadcast.
    Sent { txid: String },
}

/// How far the sending of a transaction has come.
#[derive(Debug, PartialEq, Eq)]
pub enum SendState {
    /// The transaction is being made; its output is to destroy `price`.
    Creating { price: u64 },
    /// The transaction `hex` is being decoded.
    Decoding { hex: String },
    /// The transaction is being funded.
    Funding,
    /// The transaction is being signed.
    Signing,
    /// The transaction is being broadcast.
    Sending,
    /// Nothing more is to be done.
    Closed,
}

/// What to do next to send a transaction.
#[derive(Debug)]
pub enum SendStep {
    /// Make this call and come back with the answer.
    Call(RpcCall),
    /// The transaction was broadcast under this identifier.
    Done(String),
    /// The transaction was not sent.
    Failed(Error),
}

/// Starts sending a transaction whose output carries `output_script` and
/// destroys `price`: the state to keep and the first call to make.
pub fn send_transaction(output_script: String, price: u64) -> (start: (SendState, RpcCall))
    ensures
        start.0 == (SendState::Creating { price }),
        start.1 == (RpcCall::CreateRawTransaction { data: output_script }),
{
    (SendState::Creating { price }, RpcCall::CreateRawTransaction { data: output_script })
}

/// Takes the answer to the call that was made last, and says what to do
/// next.
///
/// The transaction that was made gets its amount and is decoded, funded,
/// signed and broadcast, in this order. A transaction that cannot take the
/// amount, a transaction that is not signed on every input, and an answer to
/// another call than the last end the sending with a failure.
pub fn send_next(state: SendState, reply: RpcReply) -> (next: (SendState, SendStep))
    ensures
        match (state, reply) {
            (SendState::Creating { price }, RpcReply::Created { hex }) => {
                if is_hex(encode_utf8(hex@)) && priced(hex_bytes(encode_utf8(hex@)), price)
                    is Some {
                    let patched = hex_string(priced(hex_bytes(encode_utf8(hex@)), price)->0);
                    &&& next.0 matches SendState::Decoding { hex: kept } && kept@ == patched
                    &&& next.1 matches SendStep::Call(RpcCall::DecodeRawTransaction { hex: sent })
                        && sent@ == patched
                } else {
                    &&& next.0 == SendState::Closed
                    &&& next.1 matches SendStep::Failed(error)
                    &&& is_hex(encode_utf8(hex@)) ==> error is MalformedRawTransaction
                    &&& !is_hex(encode_utf8(hex@)) ==> error is HexError
                }
            },
            (SendState::Decoding { hex }, RpcReply::Decoded) => {
                &&& next.0 == SendState::Funding
                &&& next.1 matches SendStep::Call(RpcCall::FundRawTransaction { hex: sent })
                    && sent == hex
            },
            (SendState::Funding, RpcReply::Funded { hex }) => {
                &&& next.0 == SendState::Signing
                &&& next.1 matches SendStep::Call(
                    RpcCall::SignRawTransactionWithWallet { hex: sent },
                ) && sent == hex
            },
            (SendState::Signing, RpcReply::Signed { hex, complete }) => {
                if complete {
                    &&& next.0 == SendState::Sending
                    &&& next.1 matches SendStep::Call(RpcCall::SendRawTransaction { hex: sent })
                        && sent == hex
                } else {
                    &&& next.0 == SendState::Closed
                    &&& next.1 matches SendStep::Failed(error) && error is CouldNotSignTransaction
                }
            },
            (SendState::Sending, RpcReply::Sent { txid }) => {
                &&& next.0 == SendState::Closed
                &&& next.1 matches SendStep::Done(sent) && sent == txid
            },
            _ => {
                &&& next.0 == SendState::Closed
                &&& next.1 matches SendStep::Failed(error) && error is UnexpectedReply
            },
        },
{
    match (state, reply) {
        (SendState::Creating { price }, RpcReply::Created { hex }) => {
            match patch_raw_transaction(hex.as_str(), price) {
                Ok(patched) => (
                    SendState::Decoding { hex: patched.clone() },
                    SendStep::Call(RpcCall::DecodeRawTransaction { hex: patched }),
                ),
                Err(error) => (SendState::Closed, SendStep::Failed(error)),
            }
        },
        (SendState::Decoding { hex }, RpcReply::Decoded) => (
            SendState::Funding,
            SendStep::Call(RpcCall::FundRawTransaction { hex }),
        ),
        (SendState::Funding, RpcReply::Funded { hex }) => (
            SendState::Signing,
            SendStep::Call(RpcCall::SignRawTransactionWithWallet { hex }),
        ),
        (SendState::Signing, RpcReply::Signed { hex, complete }) => {
            if complete {
                (SendState::Sending, SendStep::Call(RpcCall::SendRawTransaction { hex }))
            } else {
                (SendState::Closed, SendStep::Failed(Error::CouldNotSignTransaction))
            }
        },
        (SendState::Sending, RpcReply::Sent { txid }) => (SendState::Closed, SendStep::Done(txid)),
        _ => (SendState::Closed, SendStep::Failed(Error::UnexpectedReply)),
    }
}

} // verus!
