//! The page codec: from a batch of pages to leaf blobs and the chain of
//! branch blobs that commits to them.

use vstd::prelude::*;
use crate::encoding::hex_encode;
use crate::error::Error;
use crate::store::blob_key;
use crate::structs::{
    blob_views, branch_bytes, leaf_bytes, DataBlob, UnpublishedPage, BRANCH_FAN_OUT,
};

verus! {

/// The leaf blob of each page, in order.
pub open spec fn page_leaves(pages: Seq<UnpublishedPage>) -> Seq<Seq<u8>> {
    Seq::new(pages.len(), |i: int| leaf_bytes(pages[i].n_value, pages[i].data@))
}

/// The chain of branch blobs over a working sequence of blobs, in the order
/// in which the branches are made.
///
/// While more than `BRANCH_FAN_OUT` blobs remain, the first `BRANCH_FAN_OUT`
/// are put under a branch, and that branch takes their place at the head of
/// the sequence. The last branch, over what then remains, is the root.
pub open spec fn branch_chain(working: Seq<Seq<u8>>) -> Seq<Seq<u8>>
    decreases working.len(),
{
    if working.len() <= BRANCH_FAN_OUT {
        seq![branch_bytes(working)]
    } else {
        let branch = branch_bytes(working.take(BRANCH_FAN_OUT as int));
        seq![branch] + branch_chain(seq![branch] + working.skip(BRANCH_FAN_OUT as int))
    }
}

/// All blobs of an encoded batch: the leaves in page order, then the chain of
/// branches, the root last.
pub open spec fn encoded_blobs(pages: Seq<UnpublishedPage>) -> Seq<Seq<u8>> {
    page_leaves(pages) + branch_chain(page_leaves(pages))
}

/// The commitment of a batch: the key of the root branch.
pub open spec fn commitment(pages: Seq<UnpublishedPage>) -> Seq<char> {
    blob_key(branch_chain(page_leaves(pages)).last())
}

/// The sum of the weights of `pages`, in base units.
pub open spec fn total_n_value(pages: Seq<UnpublishedPage>) -> int
    decreases pages.len(),
{
    if pages.len() == 0 {
        0
    } else {
        total_n_value(pages.drop_last()) + pages.last().n_value
    }
}

/// Every page is well formed.
pub open spec fn pages_wf(pages: Seq<UnpublishedPage>) -> bool {
    forall|i: int| 0 <= i < pages.len() ==> (#[trigger] pages[i]).wf()
}

/// Every blob is well formed.
pub open spec fn blobs_wf(blobs: Seq<DataBlob>) -> bool {
    forall|i: int| 0 <= i < blobs.len() ==> (#[trigger] blobs[i]).wf()
}

/// The sum of the weights of `n` pages lies within `n` times the range of
/// one weight.
pub proof fn lemma_total_bound(pages: Seq<UnpublishedPage>)
    ensures
        -0x8000_0000_0000_0000 * pages.len() <= total_n_value(pages) <= 0x7fff_ffff_ffff_ffff
            * pages.len(),
    decreases pages.len(),
{
    if pages.len() > 0 {
        lemma_total_bound(pages.drop_last());
    }
}

/// The branch over the blob `head` followed by `rest[from..to]`.
fn branch_over(head: &DataBlob, rest: &Vec<DataBlob>, from: usize, to: usize) -> (branch:
    DataBlob)
    requires
        from <= to <= rest@.len(),
        to - from < BRANCH_FAN_OUT,
    ensures
        branch@ == branch_bytes(
            seq![head@] + blob_views(rest@).subrange(from as int, to as int),
        ),
        branch.wf(),
{
    let mut children: Vec<DataBlob> = Vec::new();
    children.push(head.clone());
    let mut i: usize = from;
    while i < to
        invariant
            from <= i <= to <= rest@.len(),
            blob_views(children@) == seq![head@] + blob_views(rest@).subrange(
                from as int,
                i as int,
            ),
        decreases to - i,
    {
        let ghost before = children@;
        children.push(rest[i].clone());
        proof {
            assert(blob_views(children@) =~= blob_views(before).push(rest@[i as int]@));
            assert(blob_views(rest@).subrange(from as int, i + 1) =~= blob_views(
                rest@,
            ).subrange(from as int, i as int).push(rest@[i as int]@));
        }
        i += 1;
    }
    match DataBlob::new_branch(&children) {
        Ok(branch) => branch,
        Err(_) => {
            assert(false);
            DataBlob { data: Vec::new() }
        },
    }
}

/// Encodes a batch of pages.
///
/// Returns the commitment, the sum of the weights in base units, and every blob
/// that must be stored before the commitment is published: one leaf per
/// page, in page order, then the chain of branches, the root last.
pub fn encode_pages(pages: Vec<UnpublishedPage>) -> (encoded: Result<
    (String, i128, Vec<DataBlob>),
    Error,
>)
    requires
        pages@.len() > 0,
    ensures
        encoded matches Ok((root, total, blobs)) && {
            &&& root@ == commitment(pages@)
            &&& total == total_n_value(pages@)
            &&& blob_views(blobs@) == encoded_blobs(pages@)
            &&& pages_wf(pages@) ==> blobs_wf(blobs@)
        },
{
    let mut total: i128 = 0;
    let mut leaves: Vec<DataBlob> = Vec::new();
    let mut result: Vec<DataBlob> = Vec::new();
    let mut i: usize = 0;
    while i < pages.len()
        invariant
            i <= pages@.len(),
            total == total_n_value(pages@.take(i as int)),
            blob_views(leaves@) == page_leaves(pages@).take(i as int),
            blob_views(result@) == page_leaves(pages@).take(i as int),
            pages_wf(pages@) ==> blobs_wf(result@),
        decreases pages@.len() - i,
    {
        proof {
            lemma_total_bound(pages@.take(i as int));
            assert(pages@.take(i + 1).drop_last() == pages@.take(i as int));
        }
        total = total + pages[i].n_value as i128;
        let leaf = DataBlob::leaf(pages[i].n_value, &pages[i].data);
        let ghost leaves_before = leaves@;
        let ghost result_before = result@;
        result.push(leaf.clone());
        leaves.push(leaf);
        proof {
            assert(page_leaves(pages@).take(i + 1) =~= page_leaves(pages@).take(i as int).push(
                leaf@,
            ));
            assert(blob_views(leaves@) =~= blob_views(leaves_before).push(leaf@));
            assert(blob_views(result@) =~= blob_views(result_before).push(leaf@));
        }
        i += 1;
    }
    proof {
        assert(pages@.take(i as int) == pages@);
        assert(page_leaves(pages@).take(i as int) == page_leaves(pages@));
    }
    let mut head: DataBlob = leaves[0].clone();
    let mut next: usize = 1;
    proof {
        assert(seq![head@] + blob_views(leaves@).skip(1) == page_leaves(pages@));
    }
    while leaves.len() - next >= BRANCH_FAN_OUT
        invariant
            1 <= next <= leaves@.len(),
            blob_views(leaves@) == page_leaves(pages@),
            blob_views(result@) + branch_chain(
                seq![head@] + blob_views(leaves@).skip(next as int),
            ) == encoded_blobs(pages@),
            branch_chain(seq![head@] + blob_views(leaves@).skip(next as int)).last()
                == branch_chain(page_leaves(pages@)).last(),
            pages_wf(pages@) ==> blobs_wf(result@),
        decreases leaves@.len() - next,
    {
        let ghost working = seq![head@] + blob_views(leaves@).skip(next as int);
        let branch = branch_over(&head, &leaves, next, next + (BRANCH_FAN_OUT - 1));
        proof {
            assert(working.take(BRANCH_FAN_OUT as int) == seq![head@] + blob_views(
                leaves@,
            ).subrange(next as int, next + (BRANCH_FAN_OUT - 1)));
            assert(working.skip(BRANCH_FAN_OUT as int) == blob_views(leaves@).skip(
                next + (BRANCH_FAN_OUT - 1),
            ));
            let tail = branch_chain(seq![branch@] + working.skip(BRANCH_FAN_OUT as int));
            assert(branch_chain(working) == seq![branch@] + tail);
            lemma_branch_chain_non_empty(seq![branch@] + working.skip(BRANCH_FAN_OUT as int));
            assert((seq![branch@] + tail).last() == tail.last());
            assert(blob_views(result@.push(branch)) == blob_views(result@) + seq![branch@]);
            assert(blob_views(result@) + (seq![branch@] + tail) == (blob_views(result@)
                + seq![branch@]) + tail);
        }
        result.push(branch.clone());
        head = branch;
        next = next + (BRANCH_FAN_OUT - 1);
    }
    let ghost working = seq![head@] + blob_views(leaves@).skip(next as int);
    let root = branch_over(&head, &leaves, next, leaves.len());
    proof {
        assert(working == seq![head@] + blob_views(leaves@).subrange(
            next as int,
            leaves@.len() as int,
        ));
        assert(branch_chain(working) == seq![root@]);
        assert(blob_views(result@.push(root)) == blob_views(result@) + seq![root@]);
    }
    let key = hex_encode(root.hash().as_slice());
    result.push(root);
    Ok((key, total, result))
}

/// A chain of branches holds at least the root.
pub proof fn lemma_branch_chain_non_empty(working: Seq<Seq<u8>>)
    ensures
        branch_chain(working).len() >= 1,
    decreases working.len(),
{
    if working.len() > BRANCH_FAN_OUT {
        let branch = branch_bytes(working.take(BRANCH_FAN_OUT as int));
        lemma_branch_chain_non_empty(seq![branch] + working.skip(BRANCH_FAN_OUT as int));
    }
}

} // verus!
