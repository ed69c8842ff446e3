//! What a transfer achieves end to end, against queues that behave ideally.
//!
//! The queues of this module are a model, not the queue service. In the
//! model the source hands out its oldest visible messages and hides them, the
//! destination takes every entry it is sent, a delete removes the hidden
//! messages whose receipt handles it names, and no termination signal ever
//! comes. Against such queues a forwarding worker moves every message of the
//! source to the destination, in order, counts each once, and leaves the
//! source empty; a second worker then finds nothing to do.

use crate::batch::{acknowledged_of, delete_entries_of, handles_of, has_handles, send_entries_of};
use crate::message::{AttributeView, DeleteEntryView, MessageView, SendEntryView};
use crate::worker::{ActionView, EventView, PhaseView, StopCause, WorkerView, BATCH_LIMIT};
use vstd::prelude::*;

verus! {

/// What the destination keeps of a message: its body and its attributes.
pub struct Payload {
    pub body: Seq<char>,
    pub attributes: Option<Seq<AttributeView>>,
}

/// What the destination keeps of a send entry.
pub open spec fn sent_payload(entry: SendEntryView) -> Payload {
    Payload { body: entry.body, attributes: entry.attributes }
}

/// What the destination is to keep of a message of the source.
pub open spec fn payload_of(message: MessageView) -> Payload {
    Payload {
        body: match message.body {
            Some(body) => body,
            None => Seq::empty(),
        },
        attributes: message.attributes,
    }
}

/// Whether a delete request names the receipt handle of `message`.
pub open spec fn names(entries: Seq<DeleteEntryView>, message: MessageView) -> bool {
    message.receipt_handle is Some && exists|k: int|
        0 <= k < entries.len() && (#[trigger] entries[k]).receipt_handle
            == message.receipt_handle->0
}

/// An ideal pair of queues.
pub struct QueuesView {
    /// The messages of the source that a fetch can see, oldest first.
    pub source: Seq<MessageView>,
    /// The messages of the source that were fetched and not deleted.
    pub hidden: Seq<MessageView>,
    /// What the destination has taken, oldest first.
    pub destination: Seq<Payload>,
}

impl QueuesView {
    /// The queues after they were asked for `action`, and their answer.
    pub open spec fn serve(self, action: ActionView) -> (QueuesView, EventView)
        recommends
            !(action is Stop),
    {
        match action {
            ActionView::Fetch { limit, .. } => {
                let count = if limit <= self.source.len() {
                    limit as int
                } else {
                    self.source.len() as int
                };
                let batch = self.source.take(count);
                (
                    QueuesView {
                        source: self.source.skip(count),
                        hidden: self.hidden + batch,
                        ..self
                    },
                    EventView::Fetched { messages: batch },
                )
            },
            ActionView::Send { entries, .. } => (
                QueuesView {
                    destination: self.destination + entries.map_values(
                        |entry: SendEntryView| sent_payload(entry),
                    ),
                    ..self
                },
                EventView::Sent { failed: Set::empty() },
            ),
            ActionView::Delete { entries, .. } => (
                QueuesView {
                    hidden: self.hidden.filter(|message: MessageView| !names(entries, message)),
                    ..self
                },
                EventView::Deleted,
            ),
            _ => (self, EventView::Polled { terminate: false }),
        }
    }
}

/// A worker, what it asked for last, and the queues it works on.
pub struct Transfer {
    pub worker: WorkerView,
    pub asked: ActionView,
    pub queues: QueuesView,
}

impl Transfer {
    /// A worker that begins on `queues`.
    pub open spec fn begin(worker: WorkerView, queues: QueuesView) -> Transfer {
        Transfer { worker, asked: ActionView::Poll, queues }
    }

    /// The transfer after the queues have answered the worker once. A worker
    /// that has stopped stays as it is.
    pub open spec fn advance(self) -> Transfer {
        if self.asked is Stop {
            self
        } else {
            let served = self.queues.serve(self.asked);
            match self.worker.react(served.1) {
                Some(next) => Transfer { worker: next.0, asked: next.1, queues: served.0 },
                None => self,
            }
        }
    }

    /// The transfer after `steps` answers.
    pub open spec fn run(self, steps: nat) -> Transfer
        decreases steps,
    {
        if steps == 0 {
            self
        } else {
            self.advance().run((steps - 1) as nat)
        }
    }
}

/// Running on is running the rest.
proof fn lemma_run_split(transfer: Transfer, first: nat, then: nat)
    ensures
        transfer.run(first + then) == transfer.run(first).run(then),
    decreases first,
{
    if first > 0 {
        lemma_run_split(transfer.advance(), (first - 1) as nat, then);
    }
}

/// When the destination reports no failure, every handle is acknowledged.
proof fn lemma_all_acknowledged(handles: Seq<Seq<char>>)
    ensures
        acknowledged_of(handles, Set::empty()) == handles,
    decreases handles.len(),
{
    if handles.len() > 0 {
        lemma_all_acknowledged(handles.drop_last());
        assert(handles.drop_last().push(handles.last()) =~= handles);
    } else {
        assert(handles =~= Seq::empty());
    }
}

/// A delete request made for a whole batch leaves none of it hidden.
proof fn lemma_whole_batch_deleted(batch: Seq<MessageView>)
    requires
        has_handles(batch),
    ensures
        batch.filter(
            |message: MessageView| !names(delete_entries_of(handles_of(batch)), message),
        ).len() == 0,
{
    let entries = delete_entries_of(handles_of(batch));
    let kept = |message: MessageView| !names(entries, message);
    let left = batch.filter(kept);
    if left.len() > 0 {
        batch.lemma_filter_pred(kept, 0);
        assert(left.contains(left[0]));
        batch.lemma_filter_contains_rev(kept, left[0]);
        let at = choose|at: int| 0 <= at < batch.len() && batch[at] == left[0];
        assert(batch[at].receipt_handle is Some);
        assert(entries[at].receipt_handle == batch[at].receipt_handle->0);
        assert(names(entries, left[0]));
    }
}

/// One step of a forwarding worker on ideal queues that hold a message:
/// after four answers the worker is between two steps again, the oldest
/// messages (ten at most) have moved from the source to the destination, and
/// the worker has counted them.
proof fn lemma_step_moves_a_batch(worker: WorkerView, queues: QueuesView)
    requires
        worker.phase is Polling,
        worker.forwards(),
        queues.hidden.len() == 0,
        queues.source.len() > 0,
        has_handles(queues.source),
    ensures
        ({
            let moved = if BATCH_LIMIT <= queues.source.len() {
                BATCH_LIMIT as int
            } else {
                queues.source.len() as int
            };
            Transfer::begin(worker, queues).run(4) == Transfer::begin(
                WorkerView { transferred: worker.transferred + moved as nat, ..worker },
                QueuesView {
                    source: queues.source.skip(moved),
                    hidden: Seq::empty(),
                    destination: queues.destination + queues.source.take(moved).map_values(
                        |message: MessageView| payload_of(message),
                    ),
                },
            )
        }),
{
    let moved = if BATCH_LIMIT <= queues.source.len() {
        BATCH_LIMIT as int
    } else {
        queues.source.len() as int
    };
    let batch = queues.source.take(moved);
    let handles = handles_of(batch);
    let polling = Transfer::begin(worker, queues);
    let fetching = polling.advance();
    assert(fetching.asked == (ActionView::Fetch {
        queue: worker.source,
        limit: BATCH_LIMIT as nat,
    }));
    let sending = fetching.advance();
    assert(has_handles(batch)) by {
        assert forall|i: int| 0 <= i < batch.len() implies (#[trigger] batch[i]).receipt_handle
            is Some by {
            assert(batch[i] == queues.source[i]);
        }
    }
    assert(queues.hidden + batch =~= batch);
    assert(sending.asked == (ActionView::Send {
        queue: worker.destination,
        entries: send_entries_of(batch),
    }));
    assert(sending.queues.hidden == batch);
    let deleting = sending.advance();
    lemma_all_acknowledged(handles);
    assert(deleting.asked == (ActionView::Delete {
        queue: worker.source,
        entries: delete_entries_of(handles),
    }));
    assert(send_entries_of(batch).map_values(|entry: SendEntryView| sent_payload(entry))
        =~= batch.map_values(|message: MessageView| payload_of(message)));
    let done = deleting.advance();
    lemma_whole_batch_deleted(batch);
    assert(done.queues.hidden =~= Seq::empty());
    assert(done.worker.phase is Polling);
    assert(done.worker.transferred == worker.transferred + moved);
    assert(polling.run(4) == done) by {
        assert(done.run(0) == done);
        assert(deleting.run(1) == done);
        assert(sending.run(2) == done);
        assert(fetching.run(3) == done);
    }
}

/// A forwarding worker on ideal queues drains the source: after the returned
/// number of answers it has stopped because a fetch brought nothing, it has
/// counted every message that the source held, the source is empty with
/// nothing left hidden, and the destination has taken the payload of every
/// message, in the order of the source.
pub proof fn lemma_transfer_drains(worker: WorkerView, queues: QueuesView) -> (steps: nat)
    requires
        worker.phase is Polling,
        worker.forwards(),
        queues.hidden.len() == 0,
        has_handles(queues.source),
    ensures
        ({
            let end = Transfer::begin(worker, queues).run(steps);
            &&& end.worker == (WorkerView { phase: PhaseView::Stopped, ..end.worker })
            &&& end.asked == (ActionView::Stop {
                transferred: worker.transferred + queues.source.len(),
                cause: StopCause::Drained,
            })
            &&& end.queues.source.len() == 0
            &&& end.queues.hidden.len() == 0
            &&& end.queues.destination == queues.destination + queues.source.map_values(
                |message: MessageView| payload_of(message),
            )
        }),
    decreases queues.source.len(),
{
    let start = Transfer::begin(worker, queues);
    let payloads = queues.source.map_values(|message: MessageView| payload_of(message));
    if queues.source.len() == 0 {
        let fetching = start.advance();
        let end = fetching.advance();
        assert(queues.source.take(0) =~= Seq::empty());
        assert(queues.source.skip(0) =~= queues.source);
        assert(queues.hidden + Seq::<MessageView>::empty() =~= queues.hidden);
        assert(start.run(2) == end) by {
            assert(end.run(0) == end);
            assert(fetching.run(1) == end);
        }
        assert(queues.destination + payloads =~= queues.destination);
        assert(end.queues =~= queues);
        2
    } else {
        let moved = if BATCH_LIMIT <= queues.source.len() {
            BATCH_LIMIT as int
        } else {
            queues.source.len() as int
        };
        let after = WorkerView { transferred: worker.transferred + moved as nat, ..worker };
        let left = QueuesView {
            source: queues.source.skip(moved),
            hidden: Seq::empty(),
            destination: queues.destination + queues.source.take(moved).map_values(
                |message: MessageView| payload_of(message),
            ),
        };
        lemma_step_moves_a_batch(worker, queues);
        assert(has_handles(left.source)) by {
            assert forall|i: int| 0 <= i < left.source.len() implies (
            #[trigger] left.source[i]).receipt_handle is Some by {
                assert(left.source[i] == queues.source[i + moved]);
            }
        }
        let rest = lemma_transfer_drains(after, left);
        lemma_run_split(start, 4, rest);
        assert(queues.source.take(moved).map_values(|message: MessageView| payload_of(message))
            + queues.source.skip(moved).map_values(|message: MessageView| payload_of(message))
            =~= payloads);
        assert(left.destination + left.source.map_values(
            |message: MessageView| payload_of(message),
        ) =~= queues.destination + payloads);
        4 + rest
    }
}

/// Running a transfer twice moves every message once: after a first worker
/// has drained the source, a second worker started on the same queues stops
/// with a count of zero and leaves the queues as they are.
pub proof fn lemma_second_run_moves_nothing(
    source: Seq<char>,
    destination: Seq<char>,
    queues: QueuesView,
) -> (steps: (nat, nat))
    requires
        destination.len() > 0,
        queues.hidden.len() == 0,
        has_handles(queues.source),
    ensures
        ({
            let first = Transfer::begin(WorkerView::fresh(source, destination), queues).run(
                steps.0,
            );
            let second = Transfer::begin(WorkerView::fresh(source, destination), first.queues).run(
                steps.1,
            );
            &&& first.asked == (ActionView::Stop {
                transferred: queues.source.len(),
                cause: StopCause::Drained,
            })
            &&& first.queues.source.len() == 0
            &&& first.queues.destination == queues.destination + queues.source.map_values(
                |message: MessageView| payload_of(message),
            )
            &&& second.asked == (ActionView::Stop { transferred: 0, cause: StopCause::Drained })
            &&& second.queues == first.queues
        }),
{
    let fresh = WorkerView::fresh(source, destination);
    let once = lemma_transfer_drains(fresh, queues);
    let first = Transfer::begin(fresh, queues).run(once);
    let twice = lemma_transfer_drains(fresh, first.queues);
    let second = Transfer::begin(fresh, first.queues).run(twice);
    assert(first.queues.source =~= Seq::empty());
    assert(first.queues.hidden =~= Seq::empty());
    assert(first.queues.source.map_values(|message: MessageView| payload_of(message))
        =~= Seq::empty());
    assert(second.queues.destination =~= first.queues.destination);
    assert(second.queues.source =~= first.queues.source);
    assert(second.queues.hidden =~= first.queues.hidden);
    (once, twice)
}

} // verus!
