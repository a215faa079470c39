//! Publishing a batch of pages: the plan, from the unpublished pages and a
//! fee to the commitment to broadcast and the blobs to store; and the order
//! in which a node carries the plan out.

use vstd::prelude::*;
use crate::codec::{
    blobs_wf, commitment, encode_pages, encoded_blobs, pages_wf, total_n_value,
};
use crate::error::Error;
use crate::structs::{blob_views, DataBlob, UnpublishedPage};

verus! {

/// The text that reports that there is nothing to publish.
pub const NO_PAGES_MESSAGE: &'static str = "Must have at least one page submited";

/// What to broadcast and what to store to publish a batch of pages.
#[derive(Debug, PartialEq, Eq)]
pub struct Publication {
    /// The commitment to carry in the `OP_RETURN` output.
    pub commitment: String,
    /// The amount to destroy, in base units.
    pub fee: i64,
    /// The blobs to store before the commitment is broadcast.
    pub blobs: Vec<DataBlob>,
}

/// Why a batch of pages is not published.
#[derive(Debug, Clone, Copy, PartialEq, Eq, Structural)]
pub enum PublishError {
    /// There is no page to publish.
    NoPages,
    /// A page has a negative weight, or the weights add up to more than an
    /// `i64` holds.
    WeightOutOfRange,
    /// The fee offered is positive and under the sum of the weights.
    FeeTooLow { publisher_fee: i64, total: i64 },
}

/// No page has a negative weight.
pub open spec fn weights_non_negative(pages: Seq<UnpublishedPage>) -> bool {
    forall|i: int| 0 <= i < pages.len() ==> (#[trigger] pages[i]).n_value >= 0
}

/// With weights that are not negative, the sum over a prefix is between zero
/// and the sum over all pages.
pub proof fn lemma_total_prefix(pages: Seq<UnpublishedPage>, k: int)
    requires
        weights_non_negative(pages),
        0 <= k <= pages.len(),
    ensures
        0 <= total_n_value(pages.take(k)) <= total_n_value(pages),
    decreases pages.len() - k,
{
    if k == pages.len() {
        assert(pages.take(k) == pages);
        lemma_total_non_negative(pages);
    } else {
        lemma_total_prefix(pages, k + 1);
        assert(pages.take(k + 1).drop_last() == pages.take(k));
        lemma_total_non_negative(pages.take(k));
    }
}

/// With weights that are not negative, the sum is not negative.
pub proof fn lemma_total_non_negative(pages: Seq<UnpublishedPage>)
    requires
        weights_non_negative(pages),
    ensures
        0 <= total_n_value(pages),
    decreases pages.len(),
{
    if pages.len() > 0 {
        lemma_total_non_negative(pages.drop_last());
    }
}

/// The weights are not negative and add up to what an `i64` holds.
pub open spec fn weights_in_range(pages: Seq<UnpublishedPage>) -> bool {
    weights_non_negative(pages) && total_n_value(pages) <= i64::MAX
}

/// The amount to destroy for pages of total weight `total`: the fee offered
/// where it is positive, else the total weight.
pub open spec fn publication_fee(publisher_fee: i64, total: i64) -> i64 {
    if publisher_fee > 0 {
        publisher_fee
    } else {
        total
    }
}

/// The sum of the weights of `pages`, where the weights are in range.
pub fn checked_total(pages: &Vec<UnpublishedPage>) -> (total: Option<i64>)
    ensures
        match total {
            Some(sum) => weights_in_range(pages@) && sum == total_n_value(pages@),
            None => !weights_in_range(pages@),
        },
{
    let mut total: i64 = 0;
    let mut i: usize = 0;
    while i < pages.len()
        invariant
            i <= pages@.len(),
            weights_non_negative(pages@.take(i as int)),
            total == total_n_value(pages@.take(i as int)),
            0 <= total,
        decreases pages@.len() - i,
    {
        let n_value = pages[i].n_value;
        proof {
            assert(pages@.take(i + 1).drop_last() == pages@.take(i as int));
            assert(pages@.take(i + 1).last() == pages@[i as int]);
        }
        if n_value < 0 {
            return None;
        }
        if total > i64::MAX - n_value {
            proof {
                if weights_non_negative(pages@) {
                    lemma_total_prefix(pages@, i + 1);
                }
            }
            return None;
        }
        proof {
            assert forall|j: int| 0 <= j < i + 1 implies (#[trigger] pages@.take(i + 1)[j]).n_value
                >= 0 by {
                if j < i {
                    assert(pages@.take(i as int)[j] == pages@[j]);
                }
            }
        }
        total = total + n_value;
        i += 1;
    }
    proof {
        assert(pages@.take(i as int) == pages@);
    }
    Some(total)
}

/// Plans the publication of `pages` for the fee `publisher_fee`, in base
/// units. A fee that is not positive stands for the sum of the weights.
pub fn plan_publish(pages: Vec<UnpublishedPage>, publisher_fee: i64) -> (planned: Result<
    Publication,
    PublishError,
>)
    ensures
        match planned {
            Ok(publication) => {
                &&& pages@.len() > 0
                &&& weights_in_range(pages@)
                &&& !(0 < publisher_fee < total_n_value(pages@))
                &&& publication.commitment@ == commitment(pages@)
                &&& publication.fee == publication_fee(
                    publisher_fee,
                    total_n_value(pages@) as i64,
                )
                &&& blob_views(publication.blobs@) == encoded_blobs(pages@)
                &&& pages_wf(pages@) ==> blobs_wf(publication.blobs@)
            },
            Err(PublishError::NoPages) => pages@.len() == 0,
            Err(PublishError::WeightOutOfRange) => pages@.len() > 0 && !weights_in_range(pages@),
            Err(PublishError::FeeTooLow { publisher_fee: offered, total }) => {
                &&& pages@.len() > 0
                &&& weights_in_range(pages@)
                &&& offered == publisher_fee
                &&& total == total_n_value(pages@)
                &&& 0 < offered < total
            },
        },
{
    if pages.len() < 1 {
        return Err(PublishError::NoPages);
    }
    if checked_total(&pages).is_none() {
        return Err(PublishError::WeightOutOfRange);
    }
    match encode_pages(pages) {
        Err(_) => {
            assert(false);
            Err(PublishError::NoPages)
        },
        Ok((commitment, sum, blobs)) => {
            let total: i64 = sum as i64;
            if publisher_fee > 0 && publisher_fee < total {
                return Err(PublishError::FeeTooLow { publisher_fee, total });
            }
            let fee = if publisher_fee > 0 {
                publisher_fee
            } else {
                total
            };
            Ok(Publication { commitment, fee, blobs })
        },
    }
}

/// How far a publication has come.
#[derive(Debug, PartialEq, Eq)]
pub enum PublishStage {
    /// The first `stored` blobs are in the store, and the next is being
    /// stored.
    Storing { stored: usize },
    /// Every blob is in the store, and the commitment is being broadcast.
    Sending,
    /// The commitment was broadcast in transaction `txid`, and the queue of
    /// unpublished pages is being emptied.
    Clearing { txid: String },
    /// Nothing more is to be done.
    Closed,
}

/// A publication under way.
#[derive(Debug, PartialEq, Eq)]
pub struct Publishing {
    /// What is being published.
    pub publication: Publication,
    /// How far it has come.
    pub stage: PublishStage,
}

/// What the node reports of the step that it was asked to take.
#[derive(Debug, PartialEq, Eq)]
pub enum PublishEvent {
    /// The blob is in the store.
    Stored,
    /// The commitment was broadcast in this transaction.
    Sent { txid: String },
    /// The queue of unpublished pages is empty.
    Cleared,
}

/// What the node is to do next.
#[derive(Debug, PartialEq, Eq)]
pub enum PublishStep {
    /// Put this blob into the store.
    Store(DataBlob),
    /// Broadcast a payment of `fee` base units to the commitment address
    /// that carries `commitment`.
    Send { commitment: String, fee: i64 },
    /// Empty the queue of unpublished pages.
    ClearQueue,
    /// Reply with the transaction in which the commitment was broadcast.
    Done(String),
    /// Give up: the report does not belong to the step that was asked for.
    Failed(Error),
}

/// The mathematical value of a `PublishStep`.
pub enum StepView {
    Store(Seq<u8>),
    Send { commitment: Seq<char>, fee: i64 },
    ClearQueue,
    Done(Seq<char>),
    Failed,
}

impl View for PublishStep {
    type V = StepView;

    open spec fn view(&self) -> StepView {
        match self {
            PublishStep::Store(blob) => StepView::Store(blob@),
            PublishStep::Send { commitment, fee } => StepView::Send {
                commitment: commitment@,
                fee: *fee,
            },
            PublishStep::ClearQueue => StepView::ClearQueue,
            PublishStep::Done(txid) => StepView::Done(txid@),
            PublishStep::Failed(_) => StepView::Failed,
        }
    }
}

/// The stage in which `stored` blobs of the publication are in the store:
/// the next blob is stored while one is left, and only then is the
/// commitment broadcast.
pub open spec fn stage_with(publication: Publication, stored: int) -> PublishStage {
    if 0 <= stored < publication.blobs@.len() {
        PublishStage::Storing { stored: stored as usize }
    } else {
        PublishStage::Sending
    }
}

/// The stage that follows `stage` on the report `event`; none where the
/// report does not belong to the step of that stage.
pub open spec fn stage_after(
    publication: Publication,
    stage: PublishStage,
    event: PublishEvent,
) -> Option<PublishStage> {
    match (stage, event) {
        (PublishStage::Storing { stored }, PublishEvent::Stored) => if stored
            < publication.blobs@.len() {
            Some(stage_with(publication, stored + 1))
        } else {
            None
        },
        (PublishStage::Sending, PublishEvent::Sent { txid }) => Some(
            PublishStage::Clearing { txid },
        ),
        (PublishStage::Clearing { txid }, PublishEvent::Cleared) => Some(PublishStage::Closed),
        _ => None,
    }
}

/// The step that a node takes on entering `stage` from `before`: the blob to
/// store, the payment to broadcast, the emptying of the queue, or the reply.
pub open spec fn step_into(
    publication: Publication,
    before: PublishStage,
    stage: PublishStage,
) -> StepView {
    match stage {
        PublishStage::Storing { stored } => StepView::Store(publication.blobs@[stored as int]@),
        PublishStage::Sending => StepView::Send {
            commitment: publication.commitment@,
            fee: publication.fee,
        },
        PublishStage::Clearing { txid } => StepView::ClearQueue,
        PublishStage::Closed => match before {
            PublishStage::Clearing { txid } => StepView::Done(txid@),
            _ => StepView::Failed,
        },
    }
}

/// The stage after the first `count` blobs were reported as stored, one
/// after the other, from the start of a publication.
pub open spec fn stage_after_stores(publication: Publication, count: nat) -> Option<
    PublishStage,
>
    decreases count,
{
    if count == 0 {
        Some(stage_with(publication, 0))
    } else {
        match stage_after_stores(publication, (count - 1) as nat) {
            Some(stage) => stage_after(publication, stage, PublishEvent::Stored),
            None => None,
        }
    }
}

/// The blobs are stored before the commitment is broadcast: from its start a
/// publication stores its blobs in their order, one for each report, and
/// comes to broadcast the commitment after as many reports as it has blobs,
/// and not before.
pub proof fn lemma_blobs_stored_before_send(publication: Publication, count: nat)
    requires
        count <= publication.blobs@.len() <= usize::MAX,
    ensures
        stage_after_stores(publication, count) == Some(stage_with(publication, count as int)),
        count < publication.blobs@.len() ==> stage_after_stores(publication, count) == Some(
            PublishStage::Storing { stored: count as usize },
        ),
        count == publication.blobs@.len() ==> stage_after_stores(publication, count) == Some(
            PublishStage::Sending,
        ),
    decreases count,
{
    if count > 0 {
        lemma_blobs_stored_before_send(publication, (count - 1) as nat);
    }
}

/// The commitment is broadcast only from the stage in which the last blob
/// was being stored, and the queue is emptied only after the commitment was
/// broadcast.
pub proof fn lemma_publish_order(
    publication: Publication,
    stage: PublishStage,
    event: PublishEvent,
)
    ensures
        stage_after(publication, stage, event) == Some(PublishStage::Sending) ==> {
            &&& stage matches PublishStage::Storing { stored }
            &&& stored + 1 == publication.blobs@.len()
            &&& event == PublishEvent::Stored
        },
        stage_after(publication, stage, event) matches Some(PublishStage::Clearing { txid })
            ==> stage == PublishStage::Sending && event == (PublishEvent::Sent { txid }),
        stage_after(publication, stage, event) == Some(PublishStage::Closed) ==> {
            &&& stage is Clearing
            &&& event == PublishEvent::Cleared
        },
{
}

/// The step to take on entering the stage of `state`.
fn step_for(state: &Publishing, done: Option<String>) -> (step: PublishStep)
    requires
        state.stage matches PublishStage::Storing { stored } ==> stored
            < state.publication.blobs@.len(),
    ensures
        match state.stage {
            PublishStage::Storing { stored } => step@ == StepView::Store(
                state.publication.blobs@[stored as int]@,
            ),
            PublishStage::Sending => step@ == (StepView::Send {
                commitment: state.publication.commitment@,
                fee: state.publication.fee,
            }),
            PublishStage::Clearing { txid } => step@ == StepView::ClearQueue,
            PublishStage::Closed => match done {
                Some(txid) => step@ == StepView::Done(txid@),
                None => step matches PublishStep::Failed(error) && error is UnexpectedReply,
            },
        },
{
    match &state.stage {
        PublishStage::Storing { stored } => PublishStep::Store(
            state.publication.blobs[*stored].clone(),
        ),
        PublishStage::Sending => PublishStep::Send {
            commitment: state.publication.commitment.clone(),
            fee: state.publication.fee,
        },
        PublishStage::Clearing { txid } => PublishStep::ClearQueue,
        PublishStage::Closed => match done {
            Some(txid) => PublishStep::Done(txid),
            None => PublishStep::Failed(Error::UnexpectedReply),
        },
    }
}

/// Starts carrying out a publication: the state to keep and the first step,
/// which stores the first blob, or broadcasts the commitment where there is
/// no blob.
pub fn start_publishing(publication: Publication) -> (started: (Publishing, PublishStep))
    ensures
        started.0.publication == publication,
        started.0.stage == stage_with(publication, 0),
        started.1@ == step_into(publication, PublishStage::Closed, stage_with(publication, 0)),
{
    let stage = if publication.blobs.len() > 0 {
        PublishStage::Storing { stored: 0 }
    } else {
        PublishStage::Sending
    };
    let state = Publishing { publication, stage };
    let step = step_for(&state, None);
    (state, step)
}

/// Takes the report of the step that was asked for last, and says what to
/// do next.
///
/// The blobs are stored in their order; after the last the commitment is
/// broadcast; after that the queue of unpublished pages is emptied; and then
/// the reply is the transaction of the broadcast. A report that does not
/// belong to the step that was asked for ends the publication with a
/// failure.
pub fn publish_next(state: Publishing, event: PublishEvent) -> (next: (Publishing, PublishStep))
    ensures
        next.0.publication == state.publication,
        match stage_after(state.publication, state.stage, event) {
            Some(stage) => {
                &&& next.0.stage == stage
                &&& next.1@ == step_into(state.publication, state.stage, stage)
            },
            None => {
                &&& next.0.stage == PublishStage::Closed
                &&& next.1 matches PublishStep::Failed(error)
                &&& error is UnexpectedReply
            },
        },
{
    let Publishing { publication, stage } = state;
    match (stage, event) {
        (PublishStage::Storing { stored }, PublishEvent::Stored) => {
            if stored < publication.blobs.len() {
                let stage = if stored + 1 < publication.blobs.len() {
                    PublishStage::Storing { stored: stored + 1 }
                } else {
                    PublishStage::Sending
                };
                let state = Publishing { publication, stage };
                let step = step_for(&state, None);
                (state, step)
            } else {
                let state = Publishing { publication, stage: PublishStage::Closed };
                let step = step_for(&state, None);
                (state, step)
            }
        },
        (PublishStage::Sending, PublishEvent::Sent { txid }) => {
            let state = Publishing { publication, stage: PublishStage::Clearing { txid } };
            let step = step_for(&state, None);
            (state, step)
        },
        (PublishStage::Clearing { txid }, PublishEvent::Cleared) => {
            let state = Publishing { publication, stage: PublishStage::Closed };
            let step = step_for(&state, Some(txid));
            (state, step)
        },
        _ => {
            let state = Publishing { publication, stage: PublishStage::Closed };
            let step = step_for(&state, None);
            (state, step)
        },
    }
}

} // verus!
