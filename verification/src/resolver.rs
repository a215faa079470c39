//! The branch resolver: from a commitment to the ordered list of the blobs
//! under it, read from a blob store that is not trusted.

use vstd::prelude::*;
use vstd::slice::slice_subrange;
use crate::codec::blobs_wf;
use crate::encoding::{hex_encode, hex_string};
use crate::hash::DIGEST_LEN;
use crate::store::BlobStore;
use crate::structs::{
    blob_views, chunk, kind_of, BlobKind, DataBlob, BRANCH_FAN_OUT, MAX_BLOB_LEN,
};
use crate::verror::{Rejection, VError};

verus! {

/// Least number of bytes in a leaf blob: tag, weight, one byte of data.
pub const MIN_LEAF_LEN: usize = 10;

/// The records of a blob store: the bytes of each blob, by key.
pub type Records = Map<Seq<char>, Seq<u8>>;

/// The key that the `i`-th 20-byte chunk of a branch payload names.
pub open spec fn chunk_key(payload: Seq<u8>, i: int) -> Seq<char> {
    hex_string(chunk(payload, i))
}

/// Number of whole 20-byte chunks in a branch payload.
pub open spec fn chunk_count(payload: Seq<u8>) -> int {
    payload.len() as int / DIGEST_LEN as int
}

/// The payload is one or more whole 20-byte chunks.
pub open spec fn is_chunked(payload: Seq<u8>) -> bool {
    payload.len() > 0 && payload.len() as int % DIGEST_LEN as int == 0
}

/// The leaf stored under `key`, or why there is none.
pub open spec fn resolve_page(records: Records, key: Seq<char>) -> Result<Seq<u8>, Rejection> {
    if !records.contains_key(key) {
        Err(Rejection::DataNotFound(key))
    } else if kind_of(records[key]) != Some(BlobKind::Leaf) {
        Err(Rejection::ExpectedPage(key))
    } else if records[key].len() < MIN_LEAF_LEN {
        Err(Rejection::MalformedData(key))
    } else {
        Ok(records[key])
    }
}

/// The list `resolved` followed by the leaves that the chunks of `payload`
/// name from chunk `from` on, or the rejection of the first of them that is
/// no leaf of the store.
pub open spec fn resolve_leaves(
    records: Records,
    payload: Seq<u8>,
    from: int,
    resolved: Seq<Seq<u8>>,
) -> Result<Seq<Seq<u8>>, Rejection>
    decreases chunk_count(payload) - from,
{
    if from >= chunk_count(payload) {
        Ok(resolved)
    } else {
        match resolve_page(records, chunk_key(payload, from)) {
            Ok(leaf) => resolve_leaves(records, payload, from + 1, resolved.push(leaf)),
            Err(rejection) => Err(rejection),
        }
    }
}

/// The blobs under `key`, for a blob that stands `branch_index` branches
/// below the root of its chain, where no branch may stand deeper than
/// `max_branch_index`.
///
/// A leaf resolves to itself. A branch resolves to what its first chunk
/// resolves to, one level deeper, then the branch itself, then the leaves
/// that its other chunks name. The rules are tried in the order written.
pub open spec fn resolve(
    records: Records,
    key: Seq<char>,
    branch_index: int,
    max_branch_index: int,
) -> Result<Seq<Seq<u8>>, Rejection>
    decreases max_branch_index - branch_index + 1,
{
    if !records.contains_key(key) {
        Err(Rejection::DataNotFound(key))
    } else {
        let blob = records[key];
        match kind_of(blob) {
            None => Err(Rejection::MalformedData(key)),
            Some(BlobKind::Leaf) => if blob.len() < MIN_LEAF_LEN {
                Err(Rejection::MalformedData(key))
            } else {
                Ok(seq![blob])
            },
            Some(BlobKind::Branch) => {
                let payload = blob.skip(1);
                if branch_index > max_branch_index {
                    Err(Rejection::TooManyBranches(max_branch_index))
                } else if !is_chunked(payload) {
                    Err(Rejection::MalformedData(key))
                } else if branch_index > 0 && chunk_count(payload) != BRANCH_FAN_OUT {
                    Err(Rejection::NotFullBranch(key))
                } else {
                    match resolve(
                        records,
                        chunk_key(payload, 0),
                        branch_index + 1,
                        max_branch_index,
                    ) {
                        Ok(prefix) => resolve_leaves(records, payload, 1, prefix.push(blob)),
                        Err(rejection) => Err(rejection),
                    }
                }
            },
        }
    }
}

/// What a chain of branches that passed their own checks, the outermost
/// first, makes of the resolution `inner` of the first chunk of the last.
pub open spec fn unwind(
    records: Records,
    chain: Seq<Seq<u8>>,
    inner: Result<Seq<Seq<u8>>, Rejection>,
) -> Result<Seq<Seq<u8>>, Rejection>
    decreases chain.len(),
{
    if chain.len() == 0 {
        inner
    } else {
        let branch = chain.last();
        let outer = match inner {
            Ok(prefix) => resolve_leaves(records, branch.skip(1), 1, prefix.push(branch)),
            Err(rejection) => Err(rejection),
        };
        unwind(records, chain.drop_last(), outer)
    }
}

/// A rejection from below passes a chain of branches unchanged.
pub proof fn lemma_unwind_rejection(records: Records, chain: Seq<Seq<u8>>, rejection: Rejection)
    ensures
        unwind(records, chain, Err(rejection)) == Err::<Seq<Seq<u8>>, Rejection>(rejection),
    decreases chain.len(),
{
    if chain.len() > 0 {
        lemma_unwind_rejection(records, chain.drop_last(), rejection);
    }
}

/// The blob is a branch, or a leaf with a weight and at least one byte of
/// data.
pub open spec fn well_shaped(blob: Seq<u8>) -> bool {
    match kind_of(blob) {
        Some(BlobKind::Leaf) => blob.len() >= MIN_LEAF_LEN,
        Some(BlobKind::Branch) => true,
        None => false,
    }
}

/// Every blob of the list is well shaped.
pub open spec fn all_well_shaped(blobs: Seq<Seq<u8>>) -> bool {
    forall|i: int| 0 <= i < blobs.len() ==> well_shaped(#[trigger] blobs[i])
}

/// A branch below the root with fewer than `BRANCH_FAN_OUT` children is
/// rejected as not full, whatever else the store holds. The branch is within
/// the depth limit and its payload is one or more whole chunks: a deeper
/// branch is rejected for its depth, and a payload that is empty or cut
/// short as malformed.
pub proof fn lemma_short_branch_rejected(
    records: Records,
    key: Seq<char>,
    branch_index: int,
    max_branch_index: int,
)
    requires
        records.contains_key(key),
        kind_of(records[key]) == Some(BlobKind::Branch),
        0 < branch_index <= max_branch_index,
        is_chunked(records[key].skip(1)),
        chunk_count(records[key].skip(1)) < BRANCH_FAN_OUT,
    ensures
        resolve(records, key, branch_index, max_branch_index) == Err::<
            Seq<Seq<u8>>,
            Rejection,
        >(Rejection::NotFullBranch(key)),
{
}

/// No blob of the store is longer than `MAX_BLOB_LEN` bytes.
pub open spec fn records_wf(records: Records) -> bool {
    forall|key: Seq<char>|
        records.contains_key(key) ==> (#[trigger] records[key]).len() <= MAX_BLOB_LEN
}

/// The most blobs that a resolution at depth `branch_index` can give under
/// the limit `max_branch_index`: one leaf, and a branch with 48 leaves for
/// each depth from `branch_index` to the limit.
pub open spec fn resolution_limit(branch_index: int, max_branch_index: int) -> int {
    if branch_index > max_branch_index {
        1
    } else {
        1 + BRANCH_FAN_OUT * (max_branch_index - branch_index + 1)
    }
}

/// Leaves that resolve add one blob for each chunk.
pub proof fn lemma_resolve_leaves_len(
    records: Records,
    payload: Seq<u8>,
    from: int,
    resolved: Seq<Seq<u8>>,
)
    requires
        from <= chunk_count(payload),
    ensures
        resolve_leaves(records, payload, from, resolved) matches Ok(list) ==> list.len()
            == resolved.len() + chunk_count(payload) - from,
    decreases chunk_count(payload) - from,
{
    if from < chunk_count(payload) {
        match resolve_page(records, chunk_key(payload, from)) {
            Ok(leaf) => {
                lemma_resolve_leaves_len(records, payload, from + 1, resolved.push(leaf));
            },
            Err(_) => {},
        }
    }
}

/// The work of a resolution is bounded by the depth limit alone: against a
/// store of blobs of at most `MAX_BLOB_LEN` bytes, whatever chain the store
/// holds, a resolution gives no more than `resolution_limit` blobs.
pub proof fn lemma_resolution_bounded(
    records: Records,
    key: Seq<char>,
    branch_index: int,
    max_branch_index: int,
)
    requires
        records_wf(records),
    ensures
        resolve(records, key, branch_index, max_branch_index) matches Ok(list) ==> list.len()
            <= resolution_limit(branch_index, max_branch_index),
    decreases max_branch_index - branch_index + 1,
{
    if records.contains_key(key) && kind_of(records[key]) == Some(BlobKind::Branch)
        && branch_index <= max_branch_index {
        let blob = records[key];
        let payload = blob.skip(1);
        if is_chunked(payload) {
            assert(payload.len() == blob.len() - 1);
            assert(chunk_count(payload) <= BRANCH_FAN_OUT);
            lemma_resolution_bounded(
                records,
                chunk_key(payload, 0),
                branch_index + 1,
                max_branch_index,
            );
            match resolve(records, chunk_key(payload, 0), branch_index + 1, max_branch_index) {
                Ok(prefix) => {
                    lemma_resolve_leaves_len(records, payload, 1, prefix.push(blob));
                },
                Err(_) => {},
            }
        }
    }
}

/// Every chunk of `payload` from chunk `from` on names a leaf of the store.
pub open spec fn names_leaves(records: Records, payload: Seq<u8>, from: int) -> bool {
    forall|i: int|
        from <= i < chunk_count(payload) ==> (#[trigger] resolve_page(
            records,
            chunk_key(payload, i),
        )) is Ok
}

/// The store holds under `key` a sound chain of branches: the branch under
/// `key` stands at depth `branch_index`, the first chunk of each branch names
/// the next branch, one level deeper, down to the branch at depth `deepest`,
/// whose first chunk names a leaf. Every branch below the root is full, and
/// all other chunks name leaves.
pub open spec fn sound_chain(
    records: Records,
    key: Seq<char>,
    branch_index: int,
    deepest: int,
) -> bool
    decreases deepest - branch_index,
{
    &&& records.contains_key(key)
    &&& kind_of(records[key]) == Some(BlobKind::Branch)
    &&& is_chunked(records[key].skip(1))
    &&& branch_index > 0 ==> chunk_count(records[key].skip(1)) == BRANCH_FAN_OUT
    &&& names_leaves(records, records[key].skip(1), 1)
    &&& branch_index <= deepest
    &&& if branch_index == deepest {
        resolve_page(records, chunk_key(records[key].skip(1), 0)) is Ok
    } else {
        sound_chain(records, chunk_key(records[key].skip(1), 0), branch_index + 1, deepest)
    }
}

/// Leaves that the store holds all resolve.
pub proof fn lemma_leaves_resolve(
    records: Records,
    payload: Seq<u8>,
    from: int,
    resolved: Seq<Seq<u8>>,
)
    requires
        names_leaves(records, payload, from),
    ensures
        resolve_leaves(records, payload, from, resolved) is Ok,
    decreases chunk_count(payload) - from,
{
    if from < chunk_count(payload) {
        let leaf = resolve_page(records, chunk_key(payload, from))->Ok_0;
        lemma_leaves_resolve(records, payload, from + 1, resolved.push(leaf));
    }
}

/// A sound chain resolves where the limit allows its deepest branch.
pub proof fn lemma_sound_chain_resolves(
    records: Records,
    key: Seq<char>,
    branch_index: int,
    deepest: int,
    max_branch_index: int,
)
    requires
        sound_chain(records, key, branch_index, deepest),
        deepest <= max_branch_index,
    ensures
        resolve(records, key, branch_index, max_branch_index) is Ok,
    decreases deepest - branch_index,
{
    let blob = records[key];
    let payload = blob.skip(1);
    let below = resolve(records, chunk_key(payload, 0), branch_index + 1, max_branch_index);
    if branch_index == deepest {
        assert(below is Ok);
    } else {
        lemma_sound_chain_resolves(
            records,
            chunk_key(payload, 0),
            branch_index + 1,
            deepest,
            max_branch_index,
        );
    }
    lemma_leaves_resolve(records, payload, 1, below->Ok_0.push(blob));
}

/// A sound chain is rejected for its depth where its deepest branch stands
/// below the limit.
pub proof fn lemma_deep_chain_rejected(
    records: Records,
    key: Seq<char>,
    branch_index: int,
    deepest: int,
    max_branch_index: int,
)
    requires
        sound_chain(records, key, branch_index, deepest),
        max_branch_index < deepest,
    ensures
        resolve(records, key, branch_index, max_branch_index) == Err::<
            Seq<Seq<u8>>,
            Rejection,
        >(Rejection::TooManyBranches(max_branch_index)),
    decreases deepest - branch_index,
{
    if branch_index <= max_branch_index {
        lemma_deep_chain_rejected(
            records,
            chunk_key(records[key].skip(1), 0),
            branch_index + 1,
            deepest,
            max_branch_index,
        );
    }
}

/// The depth bound: a sound chain whose deepest branch stands `limit + 1`
/// levels below its root is rejected under the limit `limit` as having too
/// many branches, and resolves under the limit `limit + 1`.
pub proof fn lemma_depth_bound(records: Records, key: Seq<char>, limit: int)
    requires
        limit >= 0,
        sound_chain(records, key, 0, limit + 1),
    ensures
        resolve(records, key, 0, limit) == Err::<Seq<Seq<u8>>, Rejection>(
            Rejection::TooManyBranches(limit),
        ),
        resolve(records, key, 0, limit + 1) is Ok,
{
    lemma_deep_chain_rejected(records, key, 0, limit + 1, limit);
    lemma_sound_chain_resolves(records, key, 0, limit + 1, limit + 1);
}

/// The result of a resolution in executable form stands for `expected`.
pub open spec fn resolved_as(
    got: Result<Vec<DataBlob>, VError>,
    expected: Result<Seq<Seq<u8>>, Rejection>,
) -> bool {
    match expected {
        Ok(list) => {
            &&& got matches Ok(blobs) && blob_views(blobs@) == list && blobs_wf(blobs@)
            &&& all_well_shaped(list)
        },
        Err(rejection) => got matches Err(error) && error@ == rejection,
    }
}

/// Reads the leaf stored under `hash`.
pub fn validate_page<S: BlobStore>(hash: String, store: &S) -> (page: Result<DataBlob, VError>)
    ensures
        match resolve_page(store.contents(), hash@) {
            Ok(bytes) => page matches Ok(blob) && blob@ == bytes && blob.wf(),
            Err(rejection) => page matches Err(error) && error@ == rejection,
        },
{
    match store.get(hash.as_str()) {
        None => Err(VError::DataNotFound(hash)),
        Some(blob) => match blob.kind() {
            Some(BlobKind::Leaf) => {
                if blob.data.len() < MIN_LEAF_LEN {
                    Err(VError::MalformedData(hash))
                } else {
                    Ok(blob)
                }
            },
            _ => Err(VError::ExpectedPage(hash)),
        },
    }
}

/// The key that chunk `i` of the payload of `branch` names.
fn chunk_key_of(branch: &DataBlob, i: usize) -> (key: String)
    requires
        1 + DIGEST_LEN * (i + 1) <= branch@.len(),
    ensures
        key@ == chunk_key(branch@.skip(1), i as int),
{
    let len: usize = branch.data.len();
    assert(1 + DIGEST_LEN * (i + 1) <= len);
    let from: usize = 1 + DIGEST_LEN * i;
    let chunk = slice_subrange(branch.data.as_slice(), from, from + DIGEST_LEN);
    proof {
        assert(chunk@ =~= branch@.skip(1).subrange(
            DIGEST_LEN * i as int,
            DIGEST_LEN * i as int + DIGEST_LEN,
        ));
    }
    hex_encode(chunk)
}

/// Resolves the blob stored under `branch_hash`: the blobs of the chain of
/// branches that it roots, each branch after what its first chunk resolves
/// to and before its own leaves.
///
/// The walk goes down the first chunks with a counter in place of a call
/// stack, and then comes back up through the branches it passed.
pub fn validate_branch<S: BlobStore>(
    branch_hash: String,
    branch_index: i64,
    max_branch_index: i64,
    store: &S,
) -> (resolved: Result<Vec<DataBlob>, VError>)
    ensures
        resolved_as(
            resolved,
            resolve(store.contents(), branch_hash@, branch_index as int, max_branch_index as int),
        ),
{
    let ghost records = store.contents();
    let ghost root_key = branch_hash@;
    let ghost goal = resolve(records, root_key, branch_index as int, max_branch_index as int);
    let mut chain: Vec<DataBlob> = Vec::new();
    let mut key: String = branch_hash;
    let mut index: i128 = branch_index as i128;
    let mut out: Vec<DataBlob> = Vec::new();
    let mut at_leaf: bool = false;
    while !at_leaf
        invariant
            records == store.contents(),
            root_key == branch_hash@,
            goal == resolve(records, root_key, branch_index as int, max_branch_index as int),
            index <= max_branch_index + 1 || chain@.len() == 0,
            index >= branch_index,
            blobs_wf(chain@),
            all_well_shaped(blob_views(chain@)),
            all_well_shaped(blob_views(out@)),
            !at_leaf ==> out@.len() == 0,
            !at_leaf ==> goal == unwind(
                records,
                blob_views(chain@),
                resolve(records, key@, index as int, max_branch_index as int),
            ),
            at_leaf ==> goal == unwind(records, blob_views(chain@), Ok(blob_views(out@))),
            at_leaf ==> blobs_wf(out@),
        decreases
            (if at_leaf { 0int } else { 1int }),
            (if index <= max_branch_index { max_branch_index - index + 1 } else { 0int }),
    {
        proof {
            lemma_unwind_rejection(
                records,
                blob_views(chain@),
                resolve(records, key@, index as int, max_branch_index as int)->Err_0,
            );
        }
        match store.get(key.as_str()) {
            None => {
                return Err(VError::DataNotFound(key));
            },
            Some(blob) => match blob.kind() {
                None => {
                    return Err(VError::MalformedData(key));
                },
                Some(BlobKind::Leaf) => {
                    if blob.data.len() < MIN_LEAF_LEN {
                        return Err(VError::MalformedData(key));
                    }
                    out.push(blob);
                    at_leaf = true;
                    proof {
                        assert(blob_views(out@) =~= seq![blob@]);
                    }
                },
                Some(BlobKind::Branch) => {
                    if index > max_branch_index as i128 {
                        return Err(VError::TooManyBranches(max_branch_index));
                    }
                    let payload_len: usize = blob.data.len() - 1;
                    if payload_len == 0 || payload_len % DIGEST_LEN != 0 {
                        return Err(VError::MalformedData(key));
                    }
                    if index > 0 && payload_len / DIGEST_LEN != BRANCH_FAN_OUT {
                        return Err(VError::NotFullBranch(key));
                    }
                    let next_key = chunk_key_of(&blob, 0);
                    let ghost before = chain@;
                    chain.push(blob);
                    proof {
                        assert(blob_views(chain@) =~= blob_views(before).push(blob@));
                        assert(blob_views(chain@).drop_last() =~= blob_views(before));
                    }
                    key = next_key;
                    index = index + 1;
                },
            },
        }
    }
    while chain.len() > 0
        invariant
            records == store.contents(),
            root_key == branch_hash@,
            goal == resolve(records, root_key, branch_index as int, max_branch_index as int),
            blobs_wf(chain@),
            all_well_shaped(blob_views(chain@)),
            all_well_shaped(blob_views(out@)),
            blobs_wf(out@),
            goal == unwind(records, blob_views(chain@), Ok(blob_views(out@))),
        decreases chain@.len(),
    {
        let ghost chain_before = chain@;
        let ghost prefix = blob_views(out@);
        let branch = chain.pop().unwrap();
        let ghost payload = branch@.skip(1);
        let count: usize = (branch.data.len() - 1) / DIGEST_LEN;
        proof {
            assert(blob_views(chain_before).last() == branch@);
            assert(blob_views(chain_before).drop_last() =~= blob_views(chain@));
        }
        let ghost out_before = out@;
        out.push(branch.clone());
        proof {
            assert(blob_views(out@) =~= prefix.push(branch@));
        }
        let mut i: usize = 1;
        while i < count
            invariant
                records == store.contents(),
                root_key == branch_hash@,
                goal == resolve(records, root_key, branch_index as int, max_branch_index as int),
                branch@.len() >= 1,
                all_well_shaped(blob_views(out@)),
                all_well_shaped(blob_views(chain@)),
                payload == branch@.skip(1),
                count == chunk_count(payload),
                1 <= i,
                i <= count || count == 0,
                blobs_wf(out@),
                resolve_leaves(records, payload, 1, prefix.push(branch@)) == resolve_leaves(
                    records,
                    payload,
                    i as int,
                    blob_views(out@),
                ),
                goal == unwind(
                    records,
                    blob_views(chain@),
                    resolve_leaves(records, payload, 1, prefix.push(branch@)),
                ),
            decreases count - i,
        {
            let leaf_key = chunk_key_of(&branch, i);
            match validate_page(leaf_key, store) {
                Err(error) => {
                    proof {
                        lemma_unwind_rejection(records, blob_views(chain@), error@);
                    }
                    return Err(error);
                },
                Ok(leaf) => {
                    let ghost before = out@;
                    out.push(leaf);
                    proof {
                        assert(blob_views(out@) =~= blob_views(before).push(leaf@));
                    }
                },
            }
            i += 1;
        }
    }
    Ok(out)
}

} // verus!
