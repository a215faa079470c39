//! The commitment validator: from a confirmed payment to the commitment
//! address to the pages that it publishes, or the reason why it publishes
//! none.

use vstd::prelude::*;
use vstd::slice::{slice_subrange, slice_to_vec};
use crate::chain::{Transaction, ChainView, TxOutput, Utxo};
use crate::config::Config;
use crate::encoding::{hex_encode, hex_string, i64_from_le_bytes, i64_of_le_bytes};
use crate::codec::blobs_wf;
use crate::resolver::{all_well_shaped, resolve, validate_branch, well_shaped, Records};
use crate::script::{address_of_script, script_address, text_view, OP_RETURN};
use crate::store::BlobStore;
use crate::structs::{
    blob_views, kind_of, page_views, BlobKind, DataBlob, Page, PageView, BRANCH_FAN_OUT,
};
use crate::verror::{Rejection, VError};

verus! {

/// Number of bytes of an output script that commits: `OP_RETURN`, the length
/// of the push, and a digest.
pub const COMMITMENT_SCRIPT_LEN: usize = 22;

/// The byte that pushes the 20 bytes that follow it.
pub const PUSH_DIGEST: u8 = 0x14;

/// The deepest branch that a payment can fund: the number of full branches
/// of pages at the least weight that `destroyed` pays for.
pub open spec fn max_branch_index_of(destroyed: int, min_page_n_value: int) -> int {
    destroyed / min_page_n_value / BRANCH_FAN_OUT as int
}

/// An output to `address` of at least `amount`.
pub open spec fn output_outbids(output: TxOutput, address: Seq<char>, amount: u64) -> bool {
    script_address(output.script_pubkey@) == Some(address) && output.value >= amount
}

/// A transaction other than `txid` with an output to `address` of at least
/// `amount`.
pub open spec fn tx_outbids(
    tx: Transaction,
    txid: Seq<char>,
    address: Seq<char>,
    amount: u64,
) -> bool {
    &&& tx.txid@ != txid
    &&& exists|j: int|
        0 <= j < tx.output@.len() && output_outbids(#[trigger] tx.output@[j], address, amount)
}

/// No other transaction of the block pays `address` at least `amount`.
pub open spec fn is_largest(
    block: Seq<Transaction>,
    txid: Seq<char>,
    address: Seq<char>,
    amount: u64,
) -> bool {
    forall|i: int| 0 <= i < block.len() ==> !tx_outbids(#[trigger] block[i], txid, address, amount)
}

/// The script starts with `OP_RETURN`.
pub open spec fn is_op_return(script: Seq<u8>) -> bool {
    script.len() > 0 && script[0] == OP_RETURN
}

/// The scripts among `vout` that start with `OP_RETURN`, in order.
pub open spec fn op_returns(vout: Seq<Seq<u8>>) -> Seq<Seq<u8>> {
    vout.filter(|script: Seq<u8>| is_op_return(script))
}

/// The script is `OP_RETURN`, then the push of 20 bytes, and nothing more.
pub open spec fn is_commitment_script(script: Seq<u8>) -> bool {
    &&& script.len() == COMMITMENT_SCRIPT_LEN
    &&& script[0] == OP_RETURN
    &&& script[1] == PUSH_DIGEST
}

/// The commitment that the outputs of transaction `txid` carry. Exactly one
/// script must start with `OP_RETURN`, and that one must be `OP_RETURN` and
/// the push of 20 bytes; the commitment is the key that those bytes spell.
pub open spec fn commitment_of(vout: Seq<Seq<u8>>, txid: Seq<char>) -> Result<
    Seq<char>,
    Rejection,
> {
    let found = op_returns(vout);
    if found.len() == 0 {
        Err(Rejection::NoOPReturns(txid))
    } else if found.len() > 1 {
        Err(Rejection::MultipleOPReturns(txid))
    } else if !is_commitment_script(found[0]) {
        Err(Rejection::NoFollowingHash(txid))
    } else {
        Ok(hex_string(found[0].subrange(2, COMMITMENT_SCRIPT_LEN as int)))
    }
}

/// The blob has the tag of a leaf.
pub open spec fn is_leaf(blob: Seq<u8>) -> bool {
    kind_of(blob) == Some(BlobKind::Leaf)
}

/// The leaves among `blobs`, in order.
pub open spec fn leaves_of(blobs: Seq<Seq<u8>>) -> Seq<Seq<u8>> {
    blobs.filter(|blob: Seq<u8>| is_leaf(blob))
}

/// The weight that a leaf declares.
pub open spec fn leaf_n_value(leaf: Seq<u8>) -> i64 {
    i64_of_le_bytes(leaf.subrange(1, 9))
}

/// The page data that a leaf carries.
pub open spec fn leaf_data(leaf: Seq<u8>) -> Seq<u8> {
    leaf.skip(9)
}

/// The sum of the weights that `leaves` declare.
pub open spec fn declared_total(leaves: Seq<Seq<u8>>) -> int
    decreases leaves.len(),
{
    if leaves.len() == 0 {
        0
    } else {
        declared_total(leaves.drop_last()) + leaf_n_value(leaves.last())
    }
}

/// Some leaf declares a weight under `min_page_n_value`.
pub open spec fn has_page_under_min(leaves: Seq<Seq<u8>>, min_page_n_value: i64) -> bool {
    exists|i: int| 0 <= i < leaves.len() && leaf_n_value(#[trigger] leaves[i]) < min_page_n_value
}

/// The page of each leaf, as committed in block `block_height`.
pub open spec fn pages_of(leaves: Seq<Seq<u8>>, block_height: u64) -> Seq<PageView> {
    Seq::new(
        leaves.len(),
        |i: int|
            PageView {
                block_height,
                n_value: leaf_n_value(leaves[i]),
                data: leaf_data(leaves[i]),
            },
    )
}

/// The pages that resolved blobs publish for a payment of `destroyed`.
pub open spec fn published_pages(
    blobs: Seq<Seq<u8>>,
    min_page_n_value: i64,
    destroyed: u64,
    block_height: u64,
    txid: Seq<char>,
) -> Result<Seq<PageView>, Rejection> {
    let leaves = leaves_of(blobs);
    if has_page_under_min(leaves, min_page_n_value) {
        Err(Rejection::PageUnderMin(txid))
    } else if declared_total(leaves) > destroyed {
        Err(Rejection::NotEnoughSpent(txid))
    } else {
        Ok(pages_of(leaves, block_height))
    }
}

/// The height of the block that holds a payment with `confirmations`
/// confirmations, where the tip stands at `block_count`: the tip itself has
/// one confirmation.
pub open spec fn paying_height(block_count: u64, confirmations: u32) -> u64 {
    (block_count - confirmations + 1) as u64
}

/// The verdict on a payment: the pages that it publishes and the blobs under
/// its commitment, or the first rule that it breaks.
pub open spec fn validate(
    records: Records,
    address: Seq<char>,
    min_page_n_value: i64,
    utxo: Utxo,
    block_count: u64,
    chain: ChainView,
) -> Result<(Seq<PageView>, Seq<Seq<u8>>), Rejection> {
    let txid = utxo.txid@;
    let block_height = paying_height(block_count, utxo.confirmations);
    let limit = max_branch_index_of(utxo.amount as int, min_page_n_value as int);
    match chain.block {
        None => Err(Rejection::MalformedData(txid)),
        Some(block) => if !is_largest(block@, txid, address, utxo.amount) {
            Err(Rejection::NotLargestLibraryTx(txid))
        } else {
            match commitment_of(script_views(chain.vout@), txid) {
                Err(rejection) => Err(rejection),
                Ok(key) => match resolve(records, key, 0, limit) {
                    Err(rejection) => Err(rejection),
                    Ok(blobs) => match published_pages(
                        blobs,
                        min_page_n_value,
                        utxo.amount,
                        block_height,
                        txid,
                    ) {
                        Err(rejection) => Err(rejection),
                        Ok(pages) => Ok((pages, blobs)),
                    },
                },
            }
        },
    }
}

/// The economic gate on resolved blobs: pages whose weights add up to more
/// than was destroyed are rejected; pages of at least the least weight whose
/// weights add up to exactly what was destroyed, or to less, are published.
pub proof fn lemma_economic_gate(
    blobs: Seq<Seq<u8>>,
    min_page_n_value: i64,
    destroyed: u64,
    block_height: u64,
    txid: Seq<char>,
)
    ensures
        declared_total(leaves_of(blobs)) > destroyed ==> published_pages(
            blobs,
            min_page_n_value,
            destroyed,
            block_height,
            txid,
        ) is Err,
        !has_page_under_min(leaves_of(blobs), min_page_n_value) && declared_total(
            leaves_of(blobs),
        ) > destroyed ==> published_pages(blobs, min_page_n_value, destroyed, block_height, txid)
            == Err::<Seq<PageView>, Rejection>(Rejection::NotEnoughSpent(txid)),
        !has_page_under_min(leaves_of(blobs), min_page_n_value) && declared_total(
            leaves_of(blobs),
        ) <= destroyed ==> published_pages(blobs, min_page_n_value, destroyed, block_height, txid)
            == Ok::<Seq<PageView>, Rejection>(pages_of(leaves_of(blobs), block_height)),
{
}

/// The economic gate on a payment: a payment is rejected whenever the
/// weights of the pages under its commitment add up to more than it
/// destroyed. Where the payment passes the checks on its block and on its
/// outputs, the rejection is that not enough was spent, or that a page is
/// under the least weight; and where no page is under the least weight and
/// the weights add up to exactly what was destroyed, the payment is accepted
/// with one page for each leaf.
pub proof fn lemma_validate_economic_gate(
    records: Records,
    address: Seq<char>,
    min_page_n_value: i64,
    utxo: Utxo,
    block_count: u64,
    chain: ChainView,
    key: Seq<char>,
    blobs: Seq<Seq<u8>>,
)
    requires
        commitment_of(script_views(chain.vout@), utxo.txid@) == Ok::<Seq<char>, Rejection>(key),
        resolve(
            records,
            key,
            0,
            max_branch_index_of(utxo.amount as int, min_page_n_value as int),
        ) == Ok::<Seq<Seq<u8>>, Rejection>(blobs),
    ensures
        declared_total(leaves_of(blobs)) > utxo.amount ==> validate(
            records,
            address,
            min_page_n_value,
            utxo,
            block_count,
            chain,
        ) is Err,
        chain.block matches Some(block) && is_largest(block@, utxo.txid@, address, utxo.amount)
            && declared_total(leaves_of(blobs)) > utxo.amount ==> {
            let verdict = validate(records, address, min_page_n_value, utxo, block_count, chain);
            ||| verdict == Err::<(Seq<PageView>, Seq<Seq<u8>>), Rejection>(
                Rejection::NotEnoughSpent(utxo.txid@),
            )
            ||| verdict == Err::<(Seq<PageView>, Seq<Seq<u8>>), Rejection>(
                Rejection::PageUnderMin(utxo.txid@),
            )
        },
        chain.block matches Some(block) && is_largest(block@, utxo.txid@, address, utxo.amount)
            && !has_page_under_min(leaves_of(blobs), min_page_n_value) && declared_total(
            leaves_of(blobs),
        ) == utxo.amount ==> {
            let pages = pages_of(
                leaves_of(blobs),
                paying_height(block_count, utxo.confirmations),
            );
            &&& validate(records, address, min_page_n_value, utxo, block_count, chain) == Ok::<
                (Seq<PageView>, Seq<Seq<u8>>),
                Rejection,
            >((pages, blobs))
            &&& pages.len() == leaves_of(blobs).len()
        },
{
}

/// A payment is accepted if and only if it is in a block, no other
/// transaction of that block pays the address as much, exactly one of its
/// output scripts starts with `OP_RETURN` and that one is `OP_RETURN` and the
/// push of 20 bytes, the commitment that those bytes spell resolves under the
/// depth that the payment funds, no page under it declares less than the
/// least weight, and the weights add up to no more than was destroyed.
pub proof fn lemma_validate_accepts_iff(
    records: Records,
    address: Seq<char>,
    min_page_n_value: i64,
    utxo: Utxo,
    block_count: u64,
    chain: ChainView,
)
    ensures
        validate(records, address, min_page_n_value, utxo, block_count, chain) is Ok <==> {
            let scripts = op_returns(script_views(chain.vout@));
            let resolved = resolve(
                records,
                hex_string(scripts[0].subrange(2, COMMITMENT_SCRIPT_LEN as int)),
                0,
                max_branch_index_of(utxo.amount as int, min_page_n_value as int),
            );
            &&& chain.block matches Some(block) && is_largest(
                block@,
                utxo.txid@,
                address,
                utxo.amount,
            )
            &&& scripts.len() == 1
            &&& is_commitment_script(scripts[0])
            &&& resolved is Ok
            &&& !has_page_under_min(leaves_of(resolved->Ok_0), min_page_n_value)
            &&& declared_total(leaves_of(resolved->Ok_0)) <= utxo.amount
        },
{
}

/// Leaves of which none is under the least weight declare together at least
/// the least weight for each.
pub proof fn lemma_declared_total_floor(leaves: Seq<Seq<u8>>, min_page_n_value: i64)
    requires
        !has_page_under_min(leaves, min_page_n_value),
    ensures
        declared_total(leaves) >= leaves.len() * min_page_n_value,
    decreases leaves.len(),
{
    if leaves.len() > 0 {
        let front = leaves.drop_last();
        assert forall|i: int| 0 <= i < front.len() implies leaf_n_value(#[trigger] front[i])
            >= min_page_n_value by {
            assert(front[i] == leaves[i]);
        }
        lemma_declared_total_floor(front, min_page_n_value);
        assert(leaf_n_value(leaves[leaves.len() - 1]) >= min_page_n_value);
        assert(leaves.len() * min_page_n_value == front.len() * min_page_n_value
            + min_page_n_value) by (nonlinear_arith)
            requires
                leaves.len() == front.len() + 1,
        ;
    }
}

/// Whatever a payment publishes, the weights of its pages add up to no more
/// than it destroyed, none is under the least weight, and so the payment
/// destroyed at least the least weight for every page.
pub proof fn lemma_validate_sound(
    records: Records,
    address: Seq<char>,
    min_page_n_value: i64,
    utxo: Utxo,
    block_count: u64,
    chain: ChainView,
)
    ensures
        validate(records, address, min_page_n_value, utxo, block_count, chain) matches Ok(
            (pages, blobs),
        ) ==> {
            &&& declared_total(leaves_of(blobs)) <= utxo.amount
            &&& !has_page_under_min(leaves_of(blobs), min_page_n_value)
            &&& pages == pages_of(leaves_of(blobs), paying_height(block_count, utxo.confirmations))
            &&& pages.len() * min_page_n_value <= utxo.amount
        },
{
    match validate(records, address, min_page_n_value, utxo, block_count, chain) {
        Ok((pages, blobs)) => {
            lemma_declared_total_floor(leaves_of(blobs), min_page_n_value);
        },
        Err(_) => {},
    }
}

/// The bytes of each script of a list.
pub open spec fn script_views(scripts: Seq<Vec<u8>>) -> Seq<Seq<u8>> {
    Seq::new(scripts.len(), |i: int| scripts[i]@)
}

/// The deepest branch that a payment of `destroyed` can fund.
pub fn max_branch_index(destroyed: u64, min_page_n_value: i64) -> (limit: i64)
    requires
        min_page_n_value > 0,
    ensures
        limit == max_branch_index_of(destroyed as int, min_page_n_value as int),
{
    let limit: u64 = (destroyed / (min_page_n_value as u64)) / (BRANCH_FAN_OUT as u64);
    limit as i64
}

/// Whether an output that pays `paid_to` the amount `value` stands against a
/// payment of `amount` to `address`.
pub fn outbids(paid_to: &Option<String>, value: u64, address: &String, amount: u64) -> (yes: bool)
    ensures
        yes == (text_view(*paid_to) == Some(address@) && value >= amount),
{
    match paid_to {
        Some(text) => *text == *address && value >= amount,
        None => false,
    }
}

/// Whether no other transaction of `block` pays `address` as much as the
/// payment `utxo` does.
pub fn is_largest_library_tx(utxo: &Utxo, block: &Vec<Transaction>, address: &String) -> (yes: bool)
    ensures
        yes == is_largest(block@, utxo.txid@, address@, utxo.amount),
{
    let mut i: usize = 0;
    while i < block.len()
        invariant
            i <= block@.len(),
            is_largest(block@.take(i as int), utxo.txid@, address@, utxo.amount),
        decreases block@.len() - i,
    {
        let tx = &block[i];
        if !(tx.txid == utxo.txid) {
            let mut j: usize = 0;
            while j < tx.output.len()
                invariant
                    j <= tx.output@.len(),
                    tx == block@[i as int],
                    i < block@.len(),
                    tx.txid@ != utxo.txid@,
                    forall|k: int|
                        0 <= k < j ==> !output_outbids(
                            #[trigger] tx.output@[k],
                            address@,
                            utxo.amount,
                        ),
                decreases tx.output@.len() - j,
            {
                let paid_to = address_of_script(tx.output[j].script_pubkey.as_slice());
                if outbids(&paid_to, tx.output[j].value, address, utxo.amount) {
                    assert(tx_outbids(block@[i as int], utxo.txid@, address@, utxo.amount));
                    return false;
                }
                j += 1;
            }
        }
        assert(!tx_outbids(block@[i as int], utxo.txid@, address@, utxo.amount));
        assert forall|k: int| 0 <= k < i + 1 implies !tx_outbids(
            #[trigger] block@.take(i + 1)[k],
            utxo.txid@,
            address@,
            utxo.amount,
        ) by {
            if k < i {
                assert(block@.take(i as int)[k] == block@[k]);
            }
        }
        i += 1;
    }
    assert(block@.take(i as int) == block@);
    true
}

/// Unfolds the list of `OP_RETURN` scripts by one script at the end.
pub proof fn lemma_op_returns_push(vout: Seq<Seq<u8>>, script: Seq<u8>)
    ensures
        op_returns(vout.push(script)) == if is_op_return(script) {
            op_returns(vout).push(script)
        } else {
            op_returns(vout)
        },
{
    reveal(Seq::filter);
    assert(vout.push(script).drop_last() == vout);
}

/// The `OP_RETURN` scripts of a prefix come first among those of the whole.
pub proof fn lemma_op_returns_prefix(vout: Seq<Seq<u8>>, k: int)
    requires
        0 <= k <= vout.len(),
    ensures
        op_returns(vout) == op_returns(vout.take(k)) + op_returns(vout.skip(k)),
{
    Seq::filter_distributes_over_add(
        vout.take(k),
        vout.skip(k),
        |script: Seq<u8>| is_op_return(script),
    );
    assert(vout.take(k) + vout.skip(k) == vout);
}

/// Reads the commitment from the output scripts of transaction `txid`.
pub fn find_commitment(vout: &Vec<Vec<u8>>, txid: &String) -> (found: Result<String, VError>)
    ensures
        match commitment_of(script_views(vout@), txid@) {
            Ok(key) => found matches Ok(text) && text@ == key,
            Err(rejection) => found matches Err(error) && error@ == rejection,
        },
{
    let ghost scripts = script_views(vout@);
    let mut first: Option<usize> = None;
    let mut i: usize = 0;
    proof {
        reveal(Seq::filter);
        assert(scripts.take(0) == Seq::<Seq<u8>>::empty());
    }
    while i < vout.len()
        invariant
            i <= vout@.len(),
            scripts == script_views(vout@),
            match first {
                None => op_returns(scripts.take(i as int)).len() == 0,
                Some(at) => at < i && op_returns(scripts.take(i as int)) == seq![
                    scripts[at as int],
                ],
            },
        decreases vout@.len() - i,
    {
        let script = &vout[i];
        proof {
            assert(scripts.take(i + 1) == scripts.take(i as int).push(script@));
            lemma_op_returns_push(scripts.take(i as int), script@);
            lemma_op_returns_prefix(scripts, i + 1);
        }
        if script.len() > 0 && script[0] == OP_RETURN {
            if first.is_some() {
                return Err(VError::MultipleOPReturns(txid.clone()));
            }
            first = Some(i);
        }
        i += 1;
    }
    proof {
        assert(scripts.take(i as int) == scripts);
    }
    match first {
        None => Err(VError::NoOPReturns(txid.clone())),
        Some(at) => {
            let script = &vout[at];
            if script.len() != COMMITMENT_SCRIPT_LEN || script[1] != PUSH_DIGEST {
                return Err(VError::NoFollowingHash(txid.clone()));
            }
            Ok(hex_encode(slice_subrange(script.as_slice(), 2, COMMITMENT_SCRIPT_LEN)))
        },
    }
}

/// Unfolds the list of leaves by one blob at the end.
pub proof fn lemma_leaves_push(blobs: Seq<Seq<u8>>, blob: Seq<u8>)
    ensures
        leaves_of(blobs.push(blob)) == if is_leaf(blob) {
            leaves_of(blobs).push(blob)
        } else {
            leaves_of(blobs)
        },
{
    reveal(Seq::filter);
    assert(blobs.push(blob).drop_last() == blobs);
}

/// The weights that leaves of a well-formed list declare add up to no more
/// than `2^63` each.
pub proof fn lemma_declared_total_bound(leaves: Seq<Seq<u8>>)
    ensures
        -0x8000_0000_0000_0000 * leaves.len() <= declared_total(leaves)
            <= 0x8000_0000_0000_0000 * leaves.len(),
    decreases leaves.len(),
{
    if leaves.len() > 0 {
        lemma_declared_total_bound(leaves.drop_last());
    }
}

/// Reads the pages out of resolved blobs and holds their weights against the
/// amount that was destroyed.
pub fn pages_from_blobs(
    blobs: &Vec<DataBlob>,
    min_page_n_value: i64,
    destroyed: u64,
    block_height: u64,
    txid: &String,
) -> (pages: Result<Vec<Page>, VError>)
    requires
        all_well_shaped(blob_views(blobs@)),
        forall|i: int| 0 <= i < blobs@.len() ==> (#[trigger] blobs@[i]).wf(),
    ensures
        match published_pages(
            blob_views(blobs@),
            min_page_n_value,
            destroyed,
            block_height,
            txid@,
        ) {
            Ok(list) => pages matches Ok(made) && page_views(made@) == list && page_list_wf(made@),
            Err(rejection) => pages matches Err(error) && error@ == rejection,
        },
{
    let ghost views = blob_views(blobs@);
    let mut total: i128 = 0;
    let mut pages: Vec<Page> = Vec::new();
    let mut i: usize = 0;
    proof {
        reveal(Seq::filter);
        assert(views.take(0) == Seq::<Seq<u8>>::empty());
        assert(page_views(pages@) =~= pages_of(leaves_of(views.take(0)), block_height));
    }
    while i < blobs.len()
        invariant
            i <= blobs@.len(),
            views == blob_views(blobs@),
            all_well_shaped(views),
            forall|k: int| 0 <= k < blobs@.len() ==> (#[trigger] blobs@[k]).wf(),
            total == declared_total(leaves_of(views.take(i as int))),
            leaves_of(views.take(i as int)).len() <= i,
            !has_page_under_min(leaves_of(views.take(i as int)), min_page_n_value),
            page_views(pages@) == pages_of(leaves_of(views.take(i as int)), block_height),
            page_list_wf(pages@),
        decreases blobs@.len() - i,
    {
        let blob = &blobs[i];
        let ghost before = leaves_of(views.take(i as int));
        proof {
            assert(views.take(i + 1) == views.take(i as int).push(blob@));
            lemma_leaves_push(views.take(i as int), blob@);
            lemma_declared_total_bound(before);
            assert(well_shaped(views[i as int]));
        }
        if blob.kind() == Some(BlobKind::Leaf) {
            let n_value = i64_from_le_bytes(slice_subrange(blob.data.as_slice(), 1, 9));
            let ghost after = before.push(blob@);
            if n_value < min_page_n_value {
                proof {
                    assert(leaf_n_value(after[before.len() as int]) < min_page_n_value);
                    let rest = views.skip(i + 1);
                    Seq::filter_distributes_over_add(
                        views.take(i + 1),
                        rest,
                        |blob: Seq<u8>| is_leaf(blob),
                    );
                    assert(views.take(i + 1) + rest == views);
                    assert(leaves_of(views)[before.len() as int] == after[before.len() as int]);
                }
                return Err(VError::PageUnderMin(txid.clone()));
            }
            proof {
                assert(after.drop_last() == before);
                assert forall|k: int| 0 <= k < after.len() implies leaf_n_value(
                    #[trigger] after[k],
                ) >= min_page_n_value by {
                    if k < before.len() {
                        assert(after[k] == before[k]);
                    }
                }
            }
            total = total + n_value as i128;
            let data = slice_to_vec(
                slice_subrange(blob.data.as_slice(), 9, blob.data.len()),
            );
            let ghost pages_before = pages@;
            match Page::new(block_height, n_value, data) {
                Ok(page) => {
                    pages.push(page);
                },
                Err(_) => {
                    assert(false);
                },
            }
            proof {
                assert(data@ =~= leaf_data(blob@));
                assert(page_views(pages_before).len() == pages_of(before, block_height).len());
                assert(pages_before.len() == before.len());
                assert(pages@ == pages_before.push(pages@.last()));
                assert(pages@.last()@ == pages_of(after, block_height)[before.len() as int]);
                assert forall|k: int| 0 <= k < before.len() implies page_views(pages@)[k]
                    == pages_of(after, block_height)[k] by {
                    assert(page_views(pages_before)[k] == pages_of(before, block_height)[k]);
                    assert(after[k] == before[k]);
                }
                assert(page_views(pages@) =~= pages_of(after, block_height));
            }
        }
        i += 1;
    }
    proof {
        assert(views.take(i as int) == views);
    }
    if total > destroyed as i128 {
        return Err(VError::NotEnoughSpent(txid.clone()));
    }
    Ok(pages)
}

/// The data of every page is no longer than `MAX_PAGE_DATA_LEN` bytes.
pub open spec fn page_list_wf(pages: Seq<Page>) -> bool {
    forall|i: int| 0 <= i < pages.len() ==> (#[trigger] pages[i]).wf()
}

/// The result of a validation in executable form stands for `expected`. What
/// is returned is within the limits of its type: no blob is longer than
/// `MAX_BLOB_LEN` bytes, and the data of no page longer than
/// `MAX_PAGE_DATA_LEN` bytes.
pub open spec fn validated_as(
    got: Result<(Vec<Page>, Vec<DataBlob>), VError>,
    expected: Result<(Seq<PageView>, Seq<Seq<u8>>), Rejection>,
) -> bool {
    match expected {
        Ok((pages, blobs)) => {
            &&& got matches Ok((made, resolved))
            &&& page_views(made@) == pages
            &&& blob_views(resolved@) == blobs
            &&& page_list_wf(made@)
            &&& blobs_wf(resolved@)
        },
        Err(rejection) => got matches Err(error) && error@ == rejection,
    }
}

/// Validates a confirmed payment to the commitment address against what the
/// chain shows of it, at the height `block_count` of the tip, and against a
/// blob store.
///
/// Returns the pages that the payment publishes, each at the height of the
/// block that holds the payment, and every blob under its commitment; or the
/// first rule that the payment breaks. The payment is confirmed: it has at
/// least one confirmation, and no more than the tip is high.
pub fn validate_utxo<S: BlobStore>(
    config: &Config,
    utxo: &Utxo,
    block_count: u64,
    chain: &ChainView,
    store: &S,
) -> (verdict: Result<(Vec<Page>, Vec<DataBlob>), VError>)
    requires
        config.min_page_n_value > 0,
        1 <= utxo.confirmations <= block_count,
    ensures
        validated_as(
            verdict,
            validate(
                store.contents(),
                config.address@,
                config.min_page_n_value,
                *utxo,
                block_count,
                *chain,
            ),
        ),
{
    let limit = max_branch_index(utxo.amount, config.min_page_n_value);
    let block_height: u64 = block_count - utxo.confirmations as u64 + 1;
    match &chain.block {
        None => {
            return Err(VError::MalformedData(utxo.txid.clone()));
        },
        Some(block) => {
            if !is_largest_library_tx(utxo, block, &config.address) {
                return Err(VError::NotLargestLibraryTx(utxo.txid.clone()));
            }
        },
    }
    let key = match find_commitment(&chain.vout, &utxo.txid) {
        Ok(key) => key,
        Err(error) => {
            return Err(error);
        },
    };
    let blobs = match validate_branch(key, 0, limit, store) {
        Ok(blobs) => blobs,
        Err(error) => {
            return Err(error);
        },
    };
    match pages_from_blobs(&blobs, config.min_page_n_value, utxo.amount, block_height, &utxo.txid) {
        Ok(pages) => Ok((pages, blobs)),
        Err(error) => Err(error),
    }
}

} // verus!
