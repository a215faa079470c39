//! Tagged transactions: an `OP_RETURN` output that starts with the tag
//! `TBPUB` and carries a hash or a decentralised identifier.

use vstd::prelude::*;
use vstd::slice::slice_subrange;
use vstd::string::StrSliceExecFns;
use vstd::utf8::{decode_utf8, encode_utf8, valid_utf8};
use crate::chain::{Transaction, TxOutput};
use crate::encoding::{hex_encode, hex_string};
use crate::script::OP_RETURN;
use crate::text::is_text;

verus! {

/// Least amount that a tagged output must pay, in base units.
pub const MINIMUM_TBPUB_TX_PRICE: u64 = 10000;

/// The tag `TBPUB` in hexadecimal.
pub const TBPUB: &'static str = "5442505542";

/// Flag of a payload that is a hash.
pub const FLAG_HASH: u8 = 0x00;

/// Flag of a payload that is a decentralised identifier.
pub const FLAG_DID: u8 = 0x01;

/// Number of bytes of the last part of an identifier.
pub const DID_SUFFIX_LEN: usize = 52;

/// Number of bytes of a tagged script that carries a hash.
pub const HASH_SCRIPT_LEN: usize = 28;

/// The opening of an identifier.
pub const DID_PREFIX: &'static str = "did:dht:";

/// Position of the first `:` in `text`, or the length of `text`.
pub open spec fn first_colon(text: Seq<char>) -> int
    decreases text.len(),
{
    if text.len() == 0 {
        0
    } else if text[0] == ':' {
        0
    } else {
        1 + first_colon(text.skip(1))
    }
}

/// The last part of the identifier `text`: what follows `did:dht:` up to the
/// next `:`, where that is 52 bytes long.
pub open spec fn did_suffix(text: Seq<char>) -> Option<Seq<char>> {
    if text.len() >= 8 && text.take(8) == DID_PREFIX@ {
        let rest = text.skip(8);
        let suffix = rest.take(first_colon(rest));
        if encode_utf8(suffix).len() == DID_SUFFIX_LEN {
            Some(suffix)
        } else {
            None
        }
    } else {
        None
    }
}

/// The last part of the identifier that `data` spells in UTF-8.
pub open spec fn did_suffix_of(data: Seq<u8>) -> Option<Seq<char>> {
    if valid_utf8(data) {
        did_suffix(decode_utf8(data))
    } else {
        None
    }
}

/// The view of an optional text.
pub open spec fn str_view(text: Option<&str>) -> Option<Seq<char>> {
    match text {
        Some(t) => Some(t@),
        None => None,
    }
}

/// Reads bytes as text with `core::str::from_utf8`.
///
/// Trusted: the standard library returns the text that the bytes encode
/// where they are valid UTF-8, and fails where they are not.
#[verifier::external_body]
pub(crate) fn utf8_text(data: &[u8]) -> (text: Option<&str>)
    ensures
        match text {
            Some(t) => valid_utf8(data@) && t@ == decode_utf8(data@),
            None => !valid_utf8(data@),
        },
{
    core::str::from_utf8(data).ok()
}

/// Where no `:` stands among the first `k` characters, the first `:` stands
/// `k` characters behind the first of what follows them.
pub proof fn lemma_first_colon_skip(text: Seq<char>, k: int)
    requires
        0 <= k <= text.len(),
        forall|j: int| 0 <= j < k ==> text[j] != ':',
    ensures
        first_colon(text) == k + first_colon(text.skip(k)),
    decreases k,
{
    if k > 0 {
        lemma_first_colon_skip(text, k - 1);
        assert(text.skip(k - 1)[0] == text[k - 1]);
        assert(text.skip(k - 1).skip(1) == text.skip(k));
    } else {
        assert(text.skip(0) == text);
    }
}

/// The last part of the identifier that `data` spells: `data` is UTF-8 text
/// that starts with `did:dht:`, and what follows up to the next `:` is 52
/// bytes long.
pub fn did_from_bytes(data: &[u8]) -> (suffix: Option<&str>)
    ensures
        str_view(suffix) == did_suffix_of(data@),
{
    let text = match utf8_text(data) {
        Some(text) => text,
        None => {
            return None;
        },
    };
    let len = text.unicode_len();
    if len < 8 {
        return None;
    }
    if !is_text(text.substring_char(0, 8), DID_PREFIX) {
        return None;
    }
    let ghost rest = text@.skip(8);
    let mut end: usize = 8;
    while end < len && text.get_char(end) != ':'
        invariant
            len == text@.len(),
            8 <= end <= len,
            rest == text@.skip(8),
            forall|j: int| 0 <= j < end - 8 ==> rest[j] != ':',
        decreases len - end,
    {
        end += 1;
    }
    proof {
        lemma_first_colon_skip(rest, end - 8);
        if end < len {
            assert(rest.skip(end - 8)[0] == ':');
        }
        assert(first_colon(rest) == end - 8);
        assert(text@.subrange(8, end as int) == rest.take(end - 8));
    }
    let suffix = text.substring_char(8, end);
    if suffix.as_bytes().len() == DID_SUFFIX_LEN {
        Some(suffix)
    } else {
        None
    }
}

/// A tagged transaction.
#[derive(Debug, PartialEq, Eq)]
pub struct TBPubTransaction {
    /// Amount that the tagged output pays, in base units.
    pub price: u64,
    /// The payload in hexadecimal.
    pub data: String,
    /// Whether the payload is a hash; else it is an identifier.
    pub is_hash: bool,
}

/// The mathematical value of a `TBPubTransaction`.
pub struct TBPubView {
    pub price: u64,
    pub data: Seq<char>,
    pub is_hash: bool,
}

impl View for TBPubTransaction {
    type V = TBPubView;

    open spec fn view(&self) -> TBPubView {
        TBPubView { price: self.price, data: self.data@, is_hash: self.is_hash }
    }
}

/// The view of an optional tagged transaction.
pub open spec fn tagged_view(tagged: Option<TBPubTransaction>) -> Option<TBPubView> {
    match tagged {
        Some(t) => Some(t@),
        None => None,
    }
}

/// The output has a script of more than 8 bytes that starts with
/// `OP_RETURN` and holds the tag in bytes 2 to 6.
pub open spec fn is_tagged(output: TxOutput) -> bool {
    let script = output.script_pubkey@;
    script.len() > 8 && script[0] == OP_RETURN && hex_string(script.subrange(2, 7)) == TBPUB@
}

/// What a tagged output carries: a hash of 20 bytes, or an identifier. An
/// output that pays too little, or that carries neither, gives nothing.
pub open spec fn tagged_payload(output: TxOutput) -> Option<TBPubView> {
    let script = output.script_pubkey@;
    if output.value < MINIMUM_TBPUB_TX_PRICE {
        None
    } else if script[7] == FLAG_HASH && script.len() == HASH_SCRIPT_LEN {
        Some(
            TBPubView {
                price: output.value,
                data: hex_string(script.subrange(8, HASH_SCRIPT_LEN as int)),
                is_hash: true,
            },
        )
    } else if script[7] == FLAG_DID && did_suffix_of(script.skip(8)) is Some {
        Some(TBPubView { price: output.value, data: hex_string(script.skip(8)), is_hash: false })
    } else {
        None
    }
}

/// The tagged outputs among `outputs`, in order.
pub open spec fn tagged_outputs(outputs: Seq<TxOutput>) -> Seq<TxOutput> {
    outputs.filter(|output: TxOutput| is_tagged(output))
}

/// What a transaction with these outputs publishes: the payload of its one
/// tagged output.
pub open spec fn tagged_transaction(outputs: Seq<TxOutput>) -> Option<TBPubView> {
    let tagged = tagged_outputs(outputs);
    if tagged.len() == 1 {
        tagged_payload(tagged[0])
    } else {
        None
    }
}

/// Unfolds the list of tagged outputs by one output at the end.
pub proof fn lemma_tagged_push(outputs: Seq<TxOutput>, output: TxOutput)
    ensures
        tagged_outputs(outputs.push(output)) == if is_tagged(output) {
            tagged_outputs(outputs).push(output)
        } else {
            tagged_outputs(outputs)
        },
{
    reveal(Seq::filter);
    assert(outputs.push(output).drop_last() == outputs);
}

/// The tagged outputs of a prefix come first among those of the whole.
pub proof fn lemma_tagged_prefix(outputs: Seq<TxOutput>, k: int)
    requires
        0 <= k <= outputs.len(),
    ensures
        tagged_outputs(outputs) == tagged_outputs(outputs.take(k)) + tagged_outputs(
            outputs.skip(k),
        ),
{
    Seq::filter_distributes_over_add(
        outputs.take(k),
        outputs.skip(k),
        |output: TxOutput| is_tagged(output),
    );
    assert(outputs.take(k) + outputs.skip(k) == outputs);
}

/// What the first `count` transactions of a block publish together: the
/// tagged transaction that pays the most, and among those that pay the same,
/// the first.
pub open spec fn best_tagged(block: Seq<Transaction>, count: int) -> Option<TBPubView>
    decreases count,
{
    if count <= 0 {
        None
    } else {
        let before = best_tagged(block, count - 1);
        match tagged_transaction(block[count - 1].output@) {
            None => before,
            Some(found) => match before {
                Some(kept) => if kept.price < found.price {
                    Some(found)
                } else {
                    before
                },
                None => Some(found),
            },
        }
    }
}

/// No tagged transaction among the first `count` pays more than the one
/// that the block publishes, and that one is among them.
pub proof fn lemma_best_tagged_is_largest(block: Seq<Transaction>, count: int)
    requires
        0 <= count <= block.len(),
    ensures
        forall|i: int|
            0 <= i < count && (#[trigger] tagged_transaction(block[i].output@)) is Some ==> {
                &&& best_tagged(block, count) is Some
                &&& best_tagged(block, count)->0.price >= tagged_transaction(
                    block[i].output@,
                )->0.price
            },
        best_tagged(block, count) is Some ==> exists|i: int|
            0 <= i < count && #[trigger] tagged_transaction(block[i].output@) == best_tagged(
                block,
                count,
            ),
    decreases count,
{
    if count > 0 {
        lemma_best_tagged_is_largest(block, count - 1);
        if best_tagged(block, count) != best_tagged(block, count - 1) {
            assert(tagged_transaction(block[count - 1].output@) == best_tagged(block, count));
        }
    }
}

impl TBPubTransaction {
    /// What a block publishes: its tagged transaction that pays the most,
    /// the first of them where several pay the same.
    pub fn best_of_block(block: &Vec<Transaction>) -> (best: Option<TBPubTransaction>)
        ensures
            tagged_view(best) == best_tagged(block@, block@.len() as int),
    {
        let mut best: Option<TBPubTransaction> = None;
        let mut i: usize = 0;
        while i < block.len()
            invariant
                i <= block@.len(),
                tagged_view(best) == best_tagged(block@, i as int),
            decreases block@.len() - i,
        {
            match TBPubTransaction::from_transaction(&block[i]) {
                None => {},
                Some(found) => {
                    let better = match &best {
                        Some(kept) => kept.price < found.price,
                        None => true,
                    };
                    if better {
                        best = Some(found);
                    }
                },
            }
            i += 1;
        }
        best
    }

    /// What the transaction publishes, if it is a tagged transaction: it has
    /// exactly one tagged output, which pays at least the least price and
    /// carries a hash or an identifier.
    pub fn from_transaction(tx: &Transaction) -> (tagged: Option<TBPubTransaction>)
        ensures
            tagged_view(tagged) == tagged_transaction(tx.output@),
    {
        let mut result: Option<TBPubTransaction> = None;
        let mut i: usize = 0;
        proof {
            reveal(Seq::filter);
            assert(tx.output@.take(0) == Seq::<TxOutput>::empty());
        }
        while i < tx.output.len()
            invariant
                i <= tx.output@.len(),
                match result {
                    None => tagged_outputs(tx.output@.take(i as int)).len() == 0,
                    Some(found) => {
                        let tagged = tagged_outputs(tx.output@.take(i as int));
                        tagged.len() == 1 && tagged_payload(tagged[0]) == Some(found@)
                    },
                },
            decreases tx.output@.len() - i,
        {
            let output = &tx.output[i];
            let script = output.script_pubkey.as_slice();
            proof {
                assert(tx.output@.take(i + 1) == tx.output@.take(i as int).push(*output));
                lemma_tagged_push(tx.output@.take(i as int), *output);
                lemma_tagged_prefix(tx.output@, i + 1);
            }
            if script.len() > 8 {
                if script[0] == OP_RETURN && is_text(
                    hex_encode(slice_subrange(script, 2, 7)).as_str(),
                    TBPUB,
                ) {
                    if result.is_some() {
                        return None;
                    }
                    if output.value < MINIMUM_TBPUB_TX_PRICE {
                        return None;
                    }
                    let flag: u8 = script[7];
                    if flag == FLAG_HASH && script.len() == HASH_SCRIPT_LEN {
                        result = Some(
                            TBPubTransaction {
                                price: output.value,
                                data: hex_encode(slice_subrange(script, 8, HASH_SCRIPT_LEN)),
                                is_hash: true,
                            },
                        );
                    } else if flag == FLAG_DID {
                        let rest = slice_subrange(script, 8, script.len());
                        proof {
                            assert(rest@ == script@.skip(8));
                        }
                        if did_from_bytes(rest).is_none() {
                            return None;
                        }
                        result = Some(
                            TBPubTransaction {
                                price: output.value,
                                data: hex_encode(rest),
                                is_hash: false,
                            },
                        );
                    } else {
                        return None;
                    }
                }
            }
            i += 1;
        }
        proof {
            assert(tx.output@.take(i as int) == tx.output@);
        }
        result
    }
}

} // verus!
