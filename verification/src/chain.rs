//! What the validator reads of the block chain, as plain values.

use vstd::prelude::*;

verus! {

/// An output of a transaction.
#[derive(Debug)]
pub struct TxOutput {
    /// Amount paid, in base units.
    pub value: u64,
    /// The locking script.
    pub script_pubkey: Vec<u8>,
}

/// A transaction of a block, as far as its outputs go.
#[derive(Debug)]
pub struct Transaction {
    /// Identifier of the transaction.
    pub txid: String,
    /// Its outputs, in order.
    pub output: Vec<TxOutput>,
}

/// A confirmed payment to the commitment address.
#[derive(Debug)]
pub struct Utxo {
    /// Identifier of the paying transaction.
    pub txid: String,
    /// Amount destroyed, in base units.
    pub amount: u64,
    /// Number of blocks from the paying block to the tip, both counted.
    pub confirmations: u32,
}

/// What the chain shows of the transaction behind a payment.
#[derive(Debug)]
pub struct ChainView {
    /// The script of each output of the transaction, in order.
    pub vout: Vec<Vec<u8>>,
    /// The transactions of the block that holds the transaction; `None`
    /// where the transaction is in no block.
    pub block: Option<Vec<Transaction>>,
}

} // verus!
