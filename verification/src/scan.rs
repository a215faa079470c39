//! The scan of the chain for new commitments, one cycle at a time, and the
//! re-announcement of accepted blobs.

use vstd::prelude::*;
use crate::chain::{ChainView, Utxo};
use crate::config::Config;
use crate::encoding::hex_encode;
use crate::error::Error;
use crate::resolver::Records;
use crate::store::{blob_key, put_contents, BlobStore};
use crate::structs::{blob_views, page_views, DataBlob, Page, PageView};
use crate::validation::{validate, validate_utxo};
use crate::verror::{Rejection, VError};

verus! {

broadcast use vstd::seq_lib::group_to_multiset_ensures;

/// A payment to the commitment address with what the chain shows of it.
#[derive(Debug)]
pub struct Spend {
    /// The payment.
    pub utxo: Utxo,
    /// The transaction behind it and the block that holds it.
    pub chain: ChainView,
}

/// What a scan cycle found.
#[derive(Debug)]
pub struct ScanOutcome {
    /// The pages and the blobs of each payment that was accepted, in the
    /// order of the payments.
    pub accepted: Vec<(Vec<Page>, Vec<DataBlob>)>,
    /// The rejection that ended the cycle, if one did.
    pub rejected: Option<VError>,
    /// The high-water mark to keep for the next cycle.
    pub high_water_mark: u64,
}

/// Height from which the chain is scanned where none is set or kept.
pub const FIRST_BLOCK_HEIGHT: u64 = 818100;

/// The high-water mark at the start: the height that is set, where one is
/// set; else the height that was kept; else `FIRST_BLOCK_HEIGHT`.
pub fn starting_mark(configured: u64, kept: Option<u64>) -> (mark: u64)
    ensures
        mark == if configured > 0 {
            configured
        } else {
            match kept {
                Some(height) => height,
                None => FIRST_BLOCK_HEIGHT,
            }
        },
{
    if configured > 0 {
        configured
    } else {
        match kept {
            Some(height) => height,
            None => FIRST_BLOCK_HEIGHT,
        }
    }
}

/// Number of cycles from one re-announcement of the accepted blobs to the
/// next.
pub const REPUBLISH_PERIOD: u64 = 30;

/// Whether the accepted blobs are announced again in cycle `cycle`.
pub fn republish_due(cycle: u64) -> (yes: bool)
    ensures
        yes == (cycle % REPUBLISH_PERIOD == 0),
{
    cycle % REPUBLISH_PERIOD == 0
}

/// A payment with `confirmations` confirmations lies above the high-water
/// mark, where the tip stands at `block_count`: the mark stands under the
/// block below the one that holds the payment.
pub open spec fn due(high_water_mark: u64, block_count: u64, confirmations: u32) -> bool {
    high_water_mark < block_count - confirmations
}

/// Whether a payment with `confirmations` confirmations lies above the
/// high-water mark.
pub fn is_due(high_water_mark: u64, block_count: u64, confirmations: u32) -> (yes: bool)
    ensures
        yes == due(high_water_mark, block_count, confirmations),
{
    confirmations as u64 <= block_count && high_water_mark < block_count - confirmations as u64
}

/// The payments stand in descending order of confirmations.
pub open spec fn descending(utxos: Seq<Utxo>) -> bool {
    forall|i: int, j: int|
        0 <= i <= j < utxos.len() ==> (#[trigger] utxos[i]).confirmations >= (
        #[trigger] utxos[j]).confirmations
}

/// Every payment has at least one confirmation.
pub open spec fn confirmed(utxos: Seq<Utxo>) -> bool {
    forall|i: int| 0 <= i < utxos.len() ==> (#[trigger] utxos[i]).confirmations >= 1
}

/// The payment of each spend of a list.
pub open spec fn spent(spends: Seq<Spend>) -> Seq<Utxo> {
    Seq::new(spends.len(), |i: int| spends[i].utxo)
}

/// Whether every payment of `spends` has at least one confirmation.
pub fn all_confirmed(spends: &Vec<Spend>) -> (yes: bool)
    ensures
        yes == confirmed(spent(spends@)),
{
    let ghost utxos = spent(spends@);
    let mut i: usize = 0;
    while i < spends.len()
        invariant
            i <= spends@.len(),
            utxos == spent(spends@),
            forall|k: int| 0 <= k < i ==> (#[trigger] utxos[k]).confirmations >= 1,
        decreases spends@.len() - i,
    {
        if spends[i].utxo.confirmations < 1 {
            assert(utxos[i as int].confirmations < 1);
            return false;
        }
        assert(utxos[i as int].confirmations >= 1);
        i += 1;
    }
    true
}

/// Whether the payments of `spends` stand in descending order of
/// confirmations.
pub fn in_order(spends: &Vec<Spend>) -> (yes: bool)
    ensures
        yes == descending(spent(spends@)),
{
    let ghost utxos = spent(spends@);
    let mut i: usize = 1;
    while i < spends.len()
        invariant
            1 <= i,
            utxos == spent(spends@),
            forall|k: int|
                1 <= k < i && k < utxos.len() ==> (#[trigger] utxos[k - 1]).confirmations
                    >= utxos[k].confirmations,
        decreases spends@.len() - i,
    {
        if spends[i - 1].utxo.confirmations < spends[i].utxo.confirmations {
            assert(utxos[i - 1].confirmations < utxos[i as int].confirmations);
            return false;
        }
        assert(utxos[i - 1].confirmations >= utxos[i as int].confirmations);
        i += 1;
    }
    proof {
        lemma_steps_descend(utxos);
    }
    true
}

/// Payments of which none has fewer confirmations than the next stand in
/// descending order.
pub proof fn lemma_steps_descend(utxos: Seq<Utxo>)
    requires
        forall|k: int|
            1 <= k < utxos.len() ==> (#[trigger] utxos[k - 1]).confirmations
                >= utxos[k].confirmations,
    ensures
        descending(utxos),
{
    assert forall|i: int, j: int| 0 <= i <= j < utxos.len() implies (
    #[trigger] utxos[i]).confirmations >= (#[trigger] utxos[j]).confirmations by {
        lemma_descends_between(utxos, i, j);
    }
}

/// Along such payments the confirmations fall from any payment to any later
/// one.
pub proof fn lemma_descends_between(utxos: Seq<Utxo>, i: int, j: int)
    requires
        0 <= i <= j < utxos.len(),
        forall|k: int|
            1 <= k < utxos.len() ==> (#[trigger] utxos[k - 1]).confirmations
                >= utxos[k].confirmations,
    ensures
        utxos[i].confirmations >= utxos[j].confirmations,
    decreases j - i,
{
    if i < j {
        lemma_descends_between(utxos, i, j - 1);
        assert(utxos[j - 1].confirmations >= utxos[j].confirmations);
    }
}

/// Puts payments in descending order of confirmations, the oldest first.
pub fn order_utxos(utxos: Vec<Utxo>) -> (ordered: Vec<Utxo>)
    ensures
        descending(ordered@),
        ordered@.to_multiset() == utxos@.to_multiset(),
{
    let mut rest = utxos;
    let mut ordered: Vec<Utxo> = Vec::new();
    assert(ordered@.to_multiset().add(rest@.to_multiset()) =~= utxos@.to_multiset());
    while rest.len() > 0
        invariant
            descending(ordered@),
            forall|i: int, j: int|
                0 <= i < ordered@.len() && 0 <= j < rest@.len() ==> (
                #[trigger] ordered@[i]).confirmations >= (#[trigger] rest@[j]).confirmations,
            ordered@.to_multiset().add(rest@.to_multiset()) == utxos@.to_multiset(),
        decreases rest@.len(),
    {
        let mut best: usize = 0;
        let mut k: usize = 1;
        while k < rest.len()
            invariant
                0 <= best < k <= rest@.len(),
                forall|j: int|
                    0 <= j < k ==> rest@[best as int].confirmations >= (
                    #[trigger] rest@[j]).confirmations,
            decreases rest@.len() - k,
        {
            if rest[k].confirmations > rest[best].confirmations {
                best = k;
            }
            k += 1;
        }
        let ghost rest_before = rest@;
        let ghost ordered_before = ordered@;
        let picked = rest.remove(best);
        ordered.push(picked);
        proof {
            assert(rest@.to_multiset() == rest_before.to_multiset().remove(picked));
            assert(ordered@.to_multiset() =~= ordered_before.to_multiset().insert(picked));
            assert(rest_before.to_multiset().count(picked) > 0) by {
                assert(rest_before.contains(picked));
            }
            assert(ordered@.to_multiset().add(rest@.to_multiset())
                =~= ordered_before.to_multiset().add(rest_before.to_multiset()));
            assert forall|i: int, j: int|
                0 <= i < ordered@.len() && 0 <= j < rest@.len() implies (
            #[trigger] ordered@[i]).confirmations >= (#[trigger] rest@[j]).confirmations by {
                let from = if j < best {
                    j
                } else {
                    j + 1
                };
                assert(rest@[j] == rest_before[from]);
                if i < ordered_before.len() {
                    assert(ordered@[i] == ordered_before[i]);
                }
            }
            assert forall|i: int, j: int| 0 <= i <= j < ordered@.len() implies (
            #[trigger] ordered@[i]).confirmations >= (#[trigger] ordered@[j]).confirmations by {
                if j < ordered_before.len() {
                    assert(ordered@[i] == ordered_before[i]);
                    assert(ordered@[j] == ordered_before[j]);
                } else if i < ordered_before.len() {
                    assert(ordered@[i] == ordered_before[i]);
                    assert(picked == rest_before[best as int]);
                }
            }
        }
    }
    assert(rest@.to_multiset() =~= Seq::<Utxo>::empty().to_multiset()) by {
        assert(rest@ =~= Seq::<Utxo>::empty());
    }
    assert(ordered@.to_multiset().add(Seq::<Utxo>::empty().to_multiset())
        =~= ordered@.to_multiset());
    ordered
}

/// What the payments from position `from` on add to the payments accepted
/// so far: each is validated in turn, up to the first that does not lie
/// above the high-water mark or is rejected; the rejection is kept.
pub open spec fn scanned(
    records: Records,
    address: Seq<char>,
    min_page_n_value: i64,
    high_water_mark: u64,
    block_count: u64,
    spends: Seq<Spend>,
    from: int,
    accepted: Seq<(Seq<PageView>, Seq<Seq<u8>>)>,
) -> (Seq<(Seq<PageView>, Seq<Seq<u8>>)>, Option<Rejection>)
    decreases spends.len() - from,
{
    if from < 0 || from >= spends.len() || !due(
        high_water_mark,
        block_count,
        spends[from].utxo.confirmations,
    ) {
        (accepted, None)
    } else {
        match validate(
            records,
            address,
            min_page_n_value,
            spends[from].utxo,
            block_count,
            spends[from].chain,
        ) {
            Err(rejection) => (accepted, Some(rejection)),
            Ok(found) => scanned(
                records,
                address,
                min_page_n_value,
                high_water_mark,
                block_count,
                spends,
                from + 1,
                accepted.push(found),
            ),
        }
    }
}

/// The high-water mark after a cycle: the height just short of the block
/// that holds the first payment, which is the height of the tip less the
/// confirmations of that payment, where that payment lies above the mark.
pub open spec fn advanced(high_water_mark: u64, block_count: u64, utxos: Seq<Utxo>) -> u64 {
    if utxos.len() > 0 && due(high_water_mark, block_count, utxos[0].confirmations) {
        (block_count - utxos[0].confirmations) as u64
    } else {
        high_water_mark
    }
}

/// The value of each accepted payment of a list.
pub open spec fn accepted_views(accepted: Seq<(Vec<Page>, Vec<DataBlob>)>) -> Seq<
    (Seq<PageView>, Seq<Seq<u8>>),
> {
    Seq::new(accepted.len(), |i: int| (page_views(accepted[i].0@), blob_views(accepted[i].1@)))
}

/// The view of an optional rejection.
pub open spec fn rejection_view(rejected: Option<VError>) -> Option<Rejection> {
    match rejected {
        Some(error) => Some(error@),
        None => None,
    }
}

/// Runs one cycle of the scan over confirmed payments in descending order
/// of confirmations.
///
/// Each payment that lies above the high-water mark is validated in turn,
/// up to the first that is rejected or that does not lie above the mark.
/// The mark moves up to the first payment if that one was examined.
pub fn scan_cycle<S: BlobStore>(
    config: &Config,
    high_water_mark: u64,
    block_count: u64,
    spends: &Vec<Spend>,
    store: &S,
) -> (outcome: ScanOutcome)
    requires
        config.min_page_n_value > 0,
        descending(spent(spends@)),
        confirmed(spent(spends@)),
    ensures
        (accepted_views(outcome.accepted@), rejection_view(outcome.rejected)) == scanned(
            store.contents(),
            config.address@,
            config.min_page_n_value,
            high_water_mark,
            block_count,
            spends@,
            0,
            Seq::empty(),
        ),
        outcome.high_water_mark == advanced(high_water_mark, block_count, spent(spends@)),
        outcome.high_water_mark >= high_water_mark,
{
    let ghost records = store.contents();
    let ghost goal = scanned(
        records,
        config.address@,
        config.min_page_n_value,
        high_water_mark,
        block_count,
        spends@,
        0,
        Seq::empty(),
    );
    let next_mark: u64 = if spends.len() > 0 && is_due(
        high_water_mark,
        block_count,
        spends[0].utxo.confirmations,
    ) {
        block_count - spends[0].utxo.confirmations as u64
    } else {
        high_water_mark
    };
    let mut accepted: Vec<(Vec<Page>, Vec<DataBlob>)> = Vec::new();
    let mut rejected: Option<VError> = None;
    let mut i: usize = 0;
    proof {
        assert(accepted_views(accepted@) =~= Seq::empty());
    }
    while i < spends.len() && rejected.is_none()
        invariant
            i <= spends@.len(),
            config.min_page_n_value > 0,
            confirmed(spent(spends@)),
            records == store.contents(),
            goal == scanned(
                records,
                config.address@,
                config.min_page_n_value,
                high_water_mark,
                block_count,
                spends@,
                0,
                Seq::empty(),
            ),
            next_mark == advanced(high_water_mark, block_count, spent(spends@)),
            rejected is None ==> goal == scanned(
                records,
                config.address@,
                config.min_page_n_value,
                high_water_mark,
                block_count,
                spends@,
                i as int,
                accepted_views(accepted@),
            ),
            rejected is Some ==> goal == (accepted_views(accepted@), rejection_view(rejected)),
        decreases spends@.len() - i, (if rejected is None { 1int } else { 0int }),
    {
        let spend = &spends[i];
        assert(spent(spends@)[i as int].confirmations >= 1);
        if !is_due(high_water_mark, block_count, spend.utxo.confirmations) {
            return ScanOutcome { accepted, rejected: None, high_water_mark: next_mark };
        }
        match validate_utxo(config, &spend.utxo, block_count, &spend.chain, store) {
            Ok(found) => {
                let ghost before = accepted@;
                accepted.push(found);
                proof {
                    assert(accepted_views(accepted@) =~= accepted_views(before).push(
                        (page_views(found.0@), blob_views(found.1@)),
                    ));
                }
                i += 1;
            },
            Err(error) => {
                rejected = Some(error);
            },
        }
    }
    ScanOutcome { accepted, rejected, high_water_mark: next_mark }
}

/// The records of a store after each of `blobs` from position `from` on was
/// put into it.
pub open spec fn put_all(records: Records, blobs: Seq<Seq<u8>>, from: int) -> Records
    decreases blobs.len() - from,
{
    if from < 0 || from >= blobs.len() {
        records
    } else {
        put_all(put_contents(records, blobs[from]), blobs, from + 1)
    }
}

/// The keys of those of `blobs` from position `from` on that the store does
/// not hold when their turn comes, after the keys announced so far.
pub open spec fn announced(
    records: Records,
    blobs: Seq<Seq<u8>>,
    from: int,
    keys: Seq<Seq<char>>,
) -> Seq<Seq<char>>
    decreases blobs.len() - from,
{
    if from < 0 || from >= blobs.len() {
        keys
    } else if records.contains_key(blob_key(blobs[from])) {
        announced(records, blobs, from + 1, keys)
    } else {
        announced(
            put_contents(records, blobs[from]),
            blobs,
            from + 1,
            keys.push(blob_key(blobs[from])),
        )
    }
}

/// The views of a list of keys.
pub open spec fn key_views(keys: Seq<String>) -> Seq<Seq<char>> {
    Seq::new(keys.len(), |i: int| keys[i]@)
}

/// The store holds a record under the key of each of `blobs`.
pub open spec fn holds_keys(records: Records, blobs: Seq<Seq<u8>>) -> bool {
    forall|i: int| 0 <= i < blobs.len() ==> records.contains_key(blob_key(#[trigger] blobs[i]))
}

/// Announces again every blob of `blobs` that the store does not hold.
///
/// Returns the keys of the blobs that were put back, in order. Nothing is
/// put for a blob that the store holds, so the call succeeds where the store
/// holds every blob. It fails only where the store refuses a blob that it
/// lacks: the blobs before that one are back then, that one is still
/// lacking, and those after it were not looked at.
pub fn republish<S: BlobStore>(store: &mut S, blobs: Vec<DataBlob>) -> (done: Result<
    Vec<String>,
    Error,
>)
    ensures
        match done {
            Ok(keys) => {
                &&& final(store).contents() == put_all(
                    old(store).contents(),
                    blob_views(blobs@),
                    0,
                )
                &&& key_views(keys@) == announced(
                    old(store).contents(),
                    blob_views(blobs@),
                    0,
                    Seq::empty(),
                )
                &&& forall|i: int|
                    0 <= i < blobs@.len() ==> final(store).contents().contains_key(
                        blob_key(#[trigger] blobs@[i]@),
                    )
            },
            Err(_) => exists|k: int|
                0 <= k < blobs@.len() && final(store).contents() == put_all(
                    old(store).contents(),
                    #[trigger] blob_views(blobs@).take(k),
                    0,
                ) && !final(store).contents().contains_key(blob_key(blobs@[k]@)),
        },
        holds_keys(old(store).contents(), blob_views(blobs@)) ==> done is Ok,
{
    let ghost start = store.contents();
    let ghost views = blob_views(blobs@);
    let mut keys: Vec<String> = Vec::new();
    let mut i: usize = 0;
    proof {
        assert(key_views(keys@) =~= Seq::empty());
        assert(views.take(0) =~= Seq::empty());
    }
    while i < blobs.len()
        invariant
            i <= blobs@.len(),
            views == blob_views(blobs@),
            start == old(store).contents(),
            put_all(start, views, 0) == put_all(store.contents(), views, i as int),
            announced(start, views, 0, Seq::empty()) == announced(
                store.contents(),
                views,
                i as int,
                key_views(keys@),
            ),
            store.contents() == put_all(start, views.take(i as int), 0),
        decreases blobs@.len() - i,
    {
        let blob = &blobs[i];
        let key = hex_encode(blob.hash().as_slice());
        let ghost before = store.contents();
        proof {
            assert(views[i as int] == blob@);
            lemma_put_all_take(start, views, i as int);
        }
        if store.get(key.as_str()).is_none() {
            match store.put(blob.clone()) {
                Ok(_) => {
                    let ghost keys_before = keys@;
                    keys.push(key);
                    proof {
                        assert(key_views(keys@) =~= key_views(keys_before).push(blob_key(blob@)));
                    }
                },
                Err(error) => {
                    proof {
                        assert(store.contents() == before);
                        assert(!before.contains_key(blob_key(blobs@[i as int]@)));
                        if holds_keys(start, views) {
                            assert(start.contains_key(blob_key(views[i as int])));
                            lemma_put_all_keeps(
                                start,
                                views.take(i as int),
                                0,
                                blob_key(views[i as int]),
                            );
                        }
                    }
                    return Err(error);
                },
            }
        }
        i += 1;
    }
    proof {
        assert(views.take(i as int) == views);
        assert forall|k: int| 0 <= k < blobs@.len() implies store.contents().contains_key(
            blob_key(#[trigger] blobs@[k]@),
        ) by {
            lemma_put_all_holds(start, views, 0, k);
            assert(views[k] == blobs@[k]@);
        }
    }
    Ok(keys)
}

/// Putting blobs keeps every record, and where a key was taken, its bytes.
pub proof fn lemma_put_all_keeps(records: Records, blobs: Seq<Seq<u8>>, from: int, key: Seq<char>)
    requires
        records.contains_key(key),
    ensures
        put_all(records, blobs, from).contains_key(key),
        put_all(records, blobs, from)[key] == records[key],
    decreases blobs.len() - from,
{
    if 0 <= from < blobs.len() {
        lemma_put_all_keeps(put_contents(records, blobs[from]), blobs, from + 1, key);
    }
}

/// After the blobs from position `from` on were put, the store holds a
/// record under the key of each of them.
pub proof fn lemma_put_all_holds(records: Records, blobs: Seq<Seq<u8>>, from: int, i: int)
    requires
        0 <= from <= i < blobs.len(),
    ensures
        put_all(records, blobs, from).contains_key(blob_key(blobs[i])),
    decreases i - from,
{
    let next = put_contents(records, blobs[from]);
    if from == i {
        lemma_put_all_keeps(next, blobs, from + 1, blob_key(blobs[i]));
    } else {
        lemma_put_all_holds(next, blobs, from + 1, i);
    }
}

/// Putting one blob more after a prefix is putting the longer prefix.
pub proof fn lemma_put_all_take(records: Records, blobs: Seq<Seq<u8>>, k: int)
    requires
        0 <= k < blobs.len(),
    ensures
        put_all(records, blobs.take(k + 1), 0) == put_contents(
            put_all(records, blobs.take(k), 0),
            blobs[k],
        ),
{
    lemma_put_all_split(records, blobs.take(k + 1), 0, k);
    assert(blobs.take(k + 1).take(k) == blobs.take(k));
    assert(blobs.take(k + 1)[k] == blobs[k]);
}

/// Putting the blobs from `from` on is putting those before `upto` and then
/// the one at `upto`, where that is the last.
pub proof fn lemma_put_all_split(records: Records, blobs: Seq<Seq<u8>>, from: int, upto: int)
    requires
        0 <= from <= upto,
        upto == blobs.len() - 1,
    ensures
        put_all(records, blobs, from) == put_contents(
            put_all(records, blobs.take(upto), from),
            blobs[upto],
        ),
    decreases upto - from,
{
    let front = blobs.take(upto);
    if from < upto {
        assert(front[from] == blobs[from]);
        lemma_put_all_split(put_contents(records, blobs[from]), blobs, from + 1, upto);
    } else {
        assert(put_all(records, front, from) == records);
        assert(put_all(put_contents(records, blobs[upto]), blobs, upto + 1) == put_contents(
            records,
            blobs[upto],
        ));
    }
}

} // verus!
