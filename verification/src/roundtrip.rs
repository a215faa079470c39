//! What is encoded resolves: the chain of branches that the codec builds over
//! a batch of pages resolves, against a store that holds its blobs, to the
//! pages of the batch.

use vstd::prelude::*;
use crate::codec::{branch_chain, commitment, encoded_blobs, page_leaves, pages_wf};
use crate::encoding::lemma_i64_le_round_trip;
use crate::resolver::{
    chunk_count, chunk_key, is_chunked, lemma_deep_chain_rejected, resolve, resolve_leaves,
    resolve_page, sound_chain, Records, MIN_LEAF_LEN,
};
use crate::store::blob_key;
use crate::structs::{
    branch_bytes, digest_list, kind_of, leaf_bytes, lemma_digest_list_chunk,
    lemma_digest_list_len, BlobKind, UnpublishedPage, BRANCH_FAN_OUT,
};
use crate::validation::{is_leaf, leaf_data, leaf_n_value, leaves_of, lemma_leaves_push};
use crate::verror::Rejection;

verus! {

/// The bytes are those of a leaf with at least one byte of data.
pub open spec fn is_page_leaf(blob: Seq<u8>) -> bool {
    blob.len() >= MIN_LEAF_LEN && kind_of(blob) == Some(BlobKind::Leaf)
}

/// The store holds `blob` under its own key.
pub open spec fn holds(records: Records, blob: Seq<u8>) -> bool {
    records.contains_key(blob_key(blob)) && records[blob_key(blob)] == blob
}

/// The store holds each of `blobs` under its own key.
pub open spec fn holds_all(records: Records, blobs: Seq<Seq<u8>>) -> bool {
    forall|i: int| 0 <= i < blobs.len() ==> holds(records, #[trigger] blobs[i])
}

/// From position `from` on, `blobs` are leaves that the store holds.
pub open spec fn stored_leaves(records: Records, blobs: Seq<Seq<u8>>, from: int) -> bool {
    forall|i: int|
        from <= i < blobs.len() ==> is_page_leaf(#[trigger] blobs[i]) && holds(records, blobs[i])
}

/// Number of branches in the chain over `n` blobs.
pub open spec fn chain_len(n: int) -> int
    decreases n,
{
    if n <= BRANCH_FAN_OUT {
        1
    } else {
        1 + chain_len(n - (BRANCH_FAN_OUT - 1))
    }
}

/// The least number of full branches that hold `n` pages: `n / 49`, rounded
/// up.
pub open spec fn full_branches(n: int) -> int {
    (n + (BRANCH_FAN_OUT - 1)) / BRANCH_FAN_OUT as int
}

/// What the root of the chain over `working` resolves to, where the first
/// blob of `working` resolves to `prefix`.
pub open spec fn chain_result(working: Seq<Seq<u8>>, prefix: Seq<Seq<u8>>) -> Seq<Seq<u8>>
    decreases working.len(),
{
    if working.len() <= BRANCH_FAN_OUT {
        prefix.push(branch_bytes(working)) + working.skip(1)
    } else {
        let branch = branch_bytes(working.take(BRANCH_FAN_OUT as int));
        chain_result(
            seq![branch] + working.skip(BRANCH_FAN_OUT as int),
            prefix.push(branch) + working.subrange(1, BRANCH_FAN_OUT as int),
        )
    }
}

/// The chain over `n` blobs has `chain_len(n)` branches.
pub proof fn lemma_branch_chain_len(working: Seq<Seq<u8>>)
    ensures
        branch_chain(working).len() == chain_len(working.len() as int),
    decreases working.len(),
{
    if working.len() > BRANCH_FAN_OUT {
        let branch = branch_bytes(working.take(BRANCH_FAN_OUT as int));
        lemma_branch_chain_len(seq![branch] + working.skip(BRANCH_FAN_OUT as int));
    }
}

/// From two blobs on, the chain over `n` blobs has `1 + (n - 2) / 48`
/// branches.
pub proof fn lemma_chain_len_closed(n: int)
    requires
        n >= 2,
    ensures
        chain_len(n) == 1 + (n - 2) / 48,
    decreases n,
{
    if n > BRANCH_FAN_OUT {
        lemma_chain_len_closed(n - 48);
    }
}

/// For fewer than 2450 pages, the deepest branch of their chain stands no
/// deeper than the number of full branches that hold them. (The chain over
/// 2450 pages has 52 branches, one more than 2450 / 49 + 1.)
pub proof fn lemma_chain_depth_bound(n: int)
    requires
        1 <= n < 2450,
    ensures
        chain_len(n) - 1 <= full_branches(n),
{
    if n >= 2 {
        lemma_chain_len_closed(n);
        let depth = (n - 2) / 48;
        assert(48 * depth <= n - 2);
        assert(depth <= 50);
        assert(49 * depth <= n + 48);
    }
}

/// The leaves that a branch names after its first child resolve to
/// themselves.
pub proof fn lemma_children_resolve(
    records: Records,
    children: Seq<Seq<u8>>,
    from: int,
    resolved: Seq<Seq<u8>>,
)
    requires
        0 <= from <= children.len(),
        stored_leaves(records, children, from),
    ensures
        resolve_leaves(records, digest_list(children), from, resolved) == Ok::<
            Seq<Seq<u8>>,
            Rejection,
        >(resolved + children.skip(from)),
    decreases children.len() - from,
{
    let payload = digest_list(children);
    lemma_digest_list_len(children);
    assert(chunk_count(payload) == children.len());
    if from < children.len() {
        lemma_digest_list_chunk(children, from);
        assert(chunk_key(payload, from) == blob_key(children[from]));
        assert(is_page_leaf(children[from]) && holds(records, children[from]));
        assert(resolve_page(records, chunk_key(payload, from)) == Ok::<Seq<u8>, Rejection>(
            children[from],
        ));
        lemma_children_resolve(records, children, from + 1, resolved.push(children[from]));
        assert(resolved.push(children[from]) + children.skip(from + 1) =~= resolved
            + children.skip(from));
    } else {
        assert(resolved + children.skip(from) =~= resolved);
    }
}

/// A stored branch over a first child that resolves, and over leaves that
/// are stored, resolves to what the first child resolves to, the branch, and
/// the leaves.
pub proof fn lemma_branch_resolves(
    records: Records,
    children: Seq<Seq<u8>>,
    branch_index: int,
    max_branch_index: int,
    prefix: Seq<Seq<u8>>,
)
    requires
        children.len() >= 1,
        holds(records, branch_bytes(children)),
        stored_leaves(records, children, 1),
        branch_index <= max_branch_index,
        branch_index > 0 ==> children.len() == BRANCH_FAN_OUT,
        resolve(records, blob_key(children[0]), branch_index + 1, max_branch_index) == Ok::<
            Seq<Seq<u8>>,
            Rejection,
        >(prefix),
    ensures
        resolve(records, blob_key(branch_bytes(children)), branch_index, max_branch_index) == Ok::<
            Seq<Seq<u8>>,
            Rejection,
        >(prefix.push(branch_bytes(children)) + children.skip(1)),
{
    let branch = branch_bytes(children);
    let payload = branch.skip(1);
    lemma_digest_list_len(children);
    assert(payload =~= digest_list(children));
    assert(kind_of(branch) == Some(BlobKind::Branch));
    assert(is_chunked(payload));
    assert(chunk_count(payload) == children.len());
    lemma_digest_list_chunk(children, 0);
    assert(chunk_key(payload, 0) == blob_key(children[0]));
    lemma_children_resolve(records, children, 1, prefix.push(branch));
}

/// The root of the chain over `working` resolves, where the store holds the
/// chain and the leaves of `working`, and the first blob of `working`
/// resolves at the depth below the chain.
pub proof fn lemma_chain_resolves(
    records: Records,
    working: Seq<Seq<u8>>,
    prefix: Seq<Seq<u8>>,
    max_branch_index: int,
)
    requires
        working.len() >= 1,
        stored_leaves(records, working, 1),
        holds_all(records, branch_chain(working)),
        max_branch_index >= chain_len(working.len() as int) - 1,
        resolve(
            records,
            blob_key(working[0]),
            chain_len(working.len() as int),
            max_branch_index,
        ) == Ok::<Seq<Seq<u8>>, Rejection>(prefix),
    ensures
        resolve(records, blob_key(branch_chain(working).last()), 0, max_branch_index) == Ok::<
            Seq<Seq<u8>>,
            Rejection,
        >(chain_result(working, prefix)),
    decreases working.len(),
{
    if working.len() <= BRANCH_FAN_OUT {
        assert(branch_chain(working)[0] == branch_bytes(working));
        lemma_branch_resolves(records, working, 0, max_branch_index, prefix);
    } else {
        let children = working.take(BRANCH_FAN_OUT as int);
        let branch = branch_bytes(children);
        let rest = seq![branch] + working.skip(BRANCH_FAN_OUT as int);
        let below = chain_len(rest.len() as int);
        assert(branch_chain(working) == seq![branch] + branch_chain(rest));
        assert(branch_chain(working)[0] == branch);
        crate::codec::lemma_branch_chain_non_empty(rest);
        assert(branch_chain(working).last() == branch_chain(rest).last());
        assert(holds_all(records, branch_chain(rest))) by {
            assert forall|i: int| 0 <= i < branch_chain(rest).len() implies holds(
                records,
                #[trigger] branch_chain(rest)[i],
            ) by {
                assert(branch_chain(working)[i + 1] == branch_chain(rest)[i]);
            }
        }
        assert(stored_leaves(records, children, 1)) by {
            assert forall|i: int| 1 <= i < children.len() implies is_page_leaf(
                #[trigger] children[i],
            ) && holds(records, children[i]) by {
                assert(children[i] == working[i]);
            }
        }
        assert(stored_leaves(records, rest, 1)) by {
            assert forall|i: int| 1 <= i < rest.len() implies is_page_leaf(#[trigger] rest[i])
                && holds(records, rest[i]) by {
                assert(rest[i] == working[i + (BRANCH_FAN_OUT - 1)]);
            }
        }
        assert(chain_len(working.len() as int) == 1 + below);
        assert(children[0] == working[0]);
        lemma_chain_len_positive(rest.len() as int);
        lemma_branch_resolves(records, children, below, max_branch_index, prefix);
        assert(children.skip(1) =~= working.subrange(1, BRANCH_FAN_OUT as int));
        assert(rest[0] == branch);
        lemma_chain_resolves(
            records,
            rest,
            prefix.push(branch) + working.subrange(1, BRANCH_FAN_OUT as int),
            max_branch_index,
        );
    }
}

/// What stands under the first chunk of the branch at depth `index - 1` is
/// sound: a leaf that the store holds, where that branch is the deepest; else
/// a sound chain down to the deepest branch.
pub open spec fn sound_below(records: Records, first: Seq<u8>, index: int, deepest: int) -> bool {
    if index == deepest + 1 {
        is_page_leaf(first) && holds(records, first)
    } else {
        index <= deepest && sound_chain(records, blob_key(first), index, deepest)
    }
}

/// A stored branch over a first child that is sound below it, and over
/// leaves that are stored, roots a sound chain.
pub proof fn lemma_branch_is_sound(
    records: Records,
    children: Seq<Seq<u8>>,
    branch_index: int,
    deepest: int,
)
    requires
        children.len() >= 1,
        holds(records, branch_bytes(children)),
        stored_leaves(records, children, 1),
        branch_index > 0 ==> children.len() == BRANCH_FAN_OUT,
        sound_below(records, children[0], branch_index + 1, deepest),
    ensures
        sound_chain(records, blob_key(branch_bytes(children)), branch_index, deepest),
{
    let branch = branch_bytes(children);
    let payload = branch.skip(1);
    lemma_digest_list_len(children);
    assert(payload =~= digest_list(children));
    assert(kind_of(branch) == Some(BlobKind::Branch));
    assert(is_chunked(payload));
    assert(chunk_count(payload) == children.len());
    lemma_digest_list_chunk(children, 0);
    assert(chunk_key(payload, 0) == blob_key(children[0]));
    assert forall|i: int| 1 <= i < chunk_count(payload) implies (#[trigger] resolve_page(
        records,
        chunk_key(payload, i),
    )) is Ok by {
        lemma_digest_list_chunk(children, i);
        assert(is_page_leaf(children[i]) && holds(records, children[i]));
    }
}

/// The chain over `working` is sound from its root down, where the store
/// holds the chain and the leaves of `working`, and what stands under the
/// first blob of `working` is sound.
pub proof fn lemma_chain_is_sound(records: Records, working: Seq<Seq<u8>>, deepest: int)
    requires
        working.len() >= 1,
        stored_leaves(records, working, 1),
        holds_all(records, branch_chain(working)),
        sound_below(records, working[0], chain_len(working.len() as int), deepest),
    ensures
        sound_chain(records, blob_key(branch_chain(working).last()), 0, deepest),
    decreases working.len(),
{
    lemma_chain_len_positive(working.len() as int);
    if working.len() <= BRANCH_FAN_OUT {
        assert(branch_chain(working)[0] == branch_bytes(working));
        lemma_branch_is_sound(records, working, 0, deepest);
    } else {
        let children = working.take(BRANCH_FAN_OUT as int);
        let branch = branch_bytes(children);
        let rest = seq![branch] + working.skip(BRANCH_FAN_OUT as int);
        let below = chain_len(rest.len() as int);
        assert(branch_chain(working) == seq![branch] + branch_chain(rest));
        assert(branch_chain(working)[0] == branch);
        crate::codec::lemma_branch_chain_non_empty(rest);
        assert(branch_chain(working).last() == branch_chain(rest).last());
        assert(holds_all(records, branch_chain(rest))) by {
            assert forall|i: int| 0 <= i < branch_chain(rest).len() implies holds(
                records,
                #[trigger] branch_chain(rest)[i],
            ) by {
                assert(branch_chain(working)[i + 1] == branch_chain(rest)[i]);
            }
        }
        assert(stored_leaves(records, children, 1)) by {
            assert forall|i: int| 1 <= i < children.len() implies is_page_leaf(
                #[trigger] children[i],
            ) && holds(records, children[i]) by {
                assert(children[i] == working[i]);
            }
        }
        assert(stored_leaves(records, rest, 1)) by {
            assert forall|i: int| 1 <= i < rest.len() implies is_page_leaf(#[trigger] rest[i])
                && holds(records, rest[i]) by {
                assert(rest[i] == working[i + (BRANCH_FAN_OUT - 1)]);
            }
        }
        assert(chain_len(working.len() as int) == 1 + below);
        assert(children[0] == working[0]);
        lemma_chain_len_positive(rest.len() as int);
        lemma_branch_is_sound(records, children, below, deepest);
        assert(rest[0] == branch);
        lemma_chain_is_sound(records, rest, deepest);
    }
}

/// What the codec builds is a sound chain: against a store that holds the
/// encoded blobs of a batch of pages, each with at least one byte of data,
/// the commitment roots a sound chain, whose deepest branch stands as many
/// levels below the root as the chain has branches besides the root. Under a
/// limit lower than that depth the commitment is rejected for its depth.
pub proof fn lemma_encoded_chain_is_sound(records: Records, pages: Seq<UnpublishedPage>)
    requires
        pages.len() > 0,
        pages_non_empty(pages),
        holds_all(records, encoded_blobs(pages)),
    ensures
        sound_chain(records, commitment(pages), 0, chain_len(pages.len() as int) - 1),
        branch_chain(page_leaves(pages)).len() == chain_len(pages.len() as int),
        forall|limit: int|
            limit < chain_len(pages.len() as int) - 1 ==> #[trigger] resolve(
                records,
                commitment(pages),
                0,
                limit,
            ) == Err::<Seq<Seq<u8>>, Rejection>(Rejection::TooManyBranches(limit)),
{
    let leaves = page_leaves(pages);
    let deepest = chain_len(leaves.len() as int) - 1;
    assert forall|i: int| 0 <= i < leaves.len() implies is_page_leaf(#[trigger] leaves[i])
        && holds(records, leaves[i]) by {
        lemma_leaf_decodes(pages[i].n_value, pages[i].data@);
        assert(encoded_blobs(pages)[i] == leaves[i]);
    }
    assert(holds_all(records, branch_chain(leaves))) by {
        assert forall|i: int| 0 <= i < branch_chain(leaves).len() implies holds(
            records,
            #[trigger] branch_chain(leaves)[i],
        ) by {
            assert(encoded_blobs(pages)[leaves.len() + i] == branch_chain(leaves)[i]);
        }
    }
    lemma_chain_is_sound(records, leaves, deepest);
    lemma_branch_chain_len(leaves);
    assert forall|limit: int| limit < deepest implies #[trigger] resolve(
        records,
        commitment(pages),
        0,
        limit,
    ) == Err::<Seq<Seq<u8>>, Rejection>(Rejection::TooManyBranches(limit)) by {
        lemma_deep_chain_rejected(records, commitment(pages), 0, deepest, limit);
    }
}

/// Every chain has a branch.
pub proof fn lemma_chain_len_positive(n: int)
    ensures
        chain_len(n) >= 1,
    decreases n,
{
    if n > BRANCH_FAN_OUT {
        lemma_chain_len_positive(n - 48);
    }
}

/// The leaves of a concatenation are the leaves of its parts.
pub proof fn lemma_leaves_concat(front: Seq<Seq<u8>>, back: Seq<Seq<u8>>)
    ensures
        leaves_of(front + back) == leaves_of(front) + leaves_of(back),
{
    Seq::filter_distributes_over_add(front, back, |blob: Seq<u8>| is_leaf(blob));
}

/// A list of leaves is its own list of leaves.
pub proof fn lemma_leaves_of_leaves(blobs: Seq<Seq<u8>>)
    requires
        forall|i: int| 0 <= i < blobs.len() ==> is_leaf(#[trigger] blobs[i]),
    ensures
        leaves_of(blobs) == blobs,
    decreases blobs.len(),
{
    reveal(Seq::filter);
    if blobs.len() > 0 {
        lemma_leaves_of_leaves(blobs.drop_last());
        assert(blobs.drop_last().push(blobs.last()) == blobs);
    }
}

/// The leaves of what a chain resolves to are the leaves of what its first
/// blob resolves to, then the other blobs of the working sequence.
pub proof fn lemma_chain_result_leaves(working: Seq<Seq<u8>>, prefix: Seq<Seq<u8>>)
    requires
        working.len() >= 1,
        forall|i: int| 1 <= i < working.len() ==> is_leaf(#[trigger] working[i]),
    ensures
        leaves_of(chain_result(working, prefix)) == leaves_of(prefix) + working.skip(1),
    decreases working.len(),
{
    if working.len() <= BRANCH_FAN_OUT {
        let branch = branch_bytes(working);
        assert(!is_leaf(branch));
        lemma_leaves_push(prefix, branch);
        lemma_leaves_concat(prefix.push(branch), working.skip(1));
        lemma_leaves_of_leaves(working.skip(1));
    } else {
        let branch = branch_bytes(working.take(BRANCH_FAN_OUT as int));
        let rest = seq![branch] + working.skip(BRANCH_FAN_OUT as int);
        let middle = working.subrange(1, BRANCH_FAN_OUT as int);
        assert(!is_leaf(branch));
        assert forall|i: int| 1 <= i < rest.len() implies is_leaf(#[trigger] rest[i]) by {
            assert(rest[i] == working[i + (BRANCH_FAN_OUT - 1)]);
        }
        lemma_chain_result_leaves(rest, prefix.push(branch) + middle);
        lemma_leaves_push(prefix, branch);
        lemma_leaves_concat(prefix.push(branch), middle);
        lemma_leaves_of_leaves(middle);
        assert(rest.skip(1) =~= working.skip(BRANCH_FAN_OUT as int));
        assert((leaves_of(prefix) + middle) + working.skip(BRANCH_FAN_OUT as int) =~= leaves_of(
            prefix,
        ) + working.skip(1));
    }
}

/// A leaf decodes to the weight and the data of its page.
pub proof fn lemma_leaf_decodes(n_value: i64, data: Seq<u8>)
    ensures
        leaf_n_value(leaf_bytes(n_value, data)) == n_value,
        leaf_data(leaf_bytes(n_value, data)) == data,
        is_leaf(leaf_bytes(n_value, data)),
        leaf_bytes(n_value, data).len() == 9 + data.len(),
{
    lemma_i64_le_round_trip(n_value);
    let leaf = leaf_bytes(n_value, data);
    assert(leaf.subrange(1, 9) =~= crate::encoding::i64_le_bytes(n_value));
    assert(leaf.skip(9) =~= data);
}

/// Every page carries at least one byte of data.
pub open spec fn pages_non_empty(pages: Seq<UnpublishedPage>) -> bool {
    forall|i: int| 0 <= i < pages.len() ==> (#[trigger] pages[i]).data@.len() >= 1
}

/// The round trip: the commitment of a batch of pages, each with at least
/// one byte of data, resolves against a store that holds the encoded blobs
/// to a list whose leaves are the leaves of the pages, in page order, and
/// each leaf decodes to the weight and the data of its page. The limit
/// allows the deepest branch of the chain.
pub proof fn lemma_round_trip(
    records: Records,
    pages: Seq<UnpublishedPage>,
    max_branch_index: int,
)
    requires
        pages.len() > 0,
        pages_wf(pages),
        pages_non_empty(pages),
        holds_all(records, encoded_blobs(pages)),
        max_branch_index >= chain_len(pages.len() as int) - 1,
    ensures
        resolve(records, commitment(pages), 0, max_branch_index) matches Ok(blobs) && {
            &&& leaves_of(blobs) == page_leaves(pages)
            &&& forall|i: int|
                0 <= i < pages.len() ==> leaf_n_value(#[trigger] leaves_of(blobs)[i])
                    == pages[i].n_value && leaf_data(leaves_of(blobs)[i]) == pages[i].data@
        },
{
    let leaves = page_leaves(pages);
    let first = leaves[0];
    let depth = chain_len(leaves.len() as int);
    assert forall|i: int| 0 <= i < leaves.len() implies is_page_leaf(#[trigger] leaves[i])
        && is_leaf(leaves[i]) && holds(records, leaves[i]) by {
        lemma_leaf_decodes(pages[i].n_value, pages[i].data@);
        assert(encoded_blobs(pages)[i] == leaves[i]);
    }
    assert(holds_all(records, branch_chain(leaves))) by {
        assert forall|i: int| 0 <= i < branch_chain(leaves).len() implies holds(
            records,
            #[trigger] branch_chain(leaves)[i],
        ) by {
            assert(encoded_blobs(pages)[leaves.len() + i] == branch_chain(leaves)[i]);
        }
    }
    assert(resolve(records, blob_key(first), depth, max_branch_index) == Ok::<
        Seq<Seq<u8>>,
        Rejection,
    >(seq![first]));
    lemma_chain_resolves(records, leaves, seq![first], max_branch_index);
    lemma_chain_result_leaves(leaves, seq![first]);
    lemma_leaves_of_leaves(seq![first]);
    assert(seq![first] + leaves.skip(1) =~= leaves);
    assert forall|i: int| 0 <= i < pages.len() implies leaf_n_value(#[trigger] leaves[i])
        == pages[i].n_value && leaf_data(leaves[i]) == pages[i].data@ by {
        lemma_leaf_decodes(pages[i].n_value, pages[i].data@);
    }
}

/// The round trip under the limit of one level for each full branch of
/// pages: for fewer than 2450 pages, a limit of at least `pages.len() / 49`,
/// rounded up, allows the deepest branch of their chain.
pub proof fn lemma_round_trip_full_branches(
    records: Records,
    pages: Seq<UnpublishedPage>,
    max_branch_index: int,
)
    requires
        0 < pages.len() < 2450,
        pages_wf(pages),
        pages_non_empty(pages),
        holds_all(records, encoded_blobs(pages)),
        max_branch_index >= full_branches(pages.len() as int),
    ensures
        resolve(records, commitment(pages), 0, max_branch_index) matches Ok(blobs) && {
            &&& leaves_of(blobs) == page_leaves(pages)
            &&& forall|i: int|
                0 <= i < pages.len() ==> leaf_n_value(#[trigger] leaves_of(blobs)[i])
                    == pages[i].n_value && leaf_data(leaves_of(blobs)[i]) == pages[i].data@
        },
{
    lemma_chain_depth_bound(pages.len() as int);
    lemma_round_trip(records, pages, max_branch_index);
}

} // verus!
