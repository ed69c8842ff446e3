//! The worker: the loop that moves one batch after another.
//!
//! A worker does no input or output itself. It asks its driver for one thing
//! at a time (an [`Action`]) and is told how that went (an [`Event`]); from
//! its state and the event it decides what to ask for next. The driver polls
//! the termination signal and talks to the queues.
//!
//! One step of the loop is: poll the signal, fetch a batch from the source,
//! forward it to the destination (unless the worker only deletes), then
//! acknowledge to the source what was forwarded. The worker stops when it is
//! signalled between two steps, when a fetch brings nothing, or when a step
//! fails.

use crate::batch::{
    acknowledged, acknowledged_of, delete_entries, delete_entries_of, forward_plan, handles_of,
    has_handles, lemma_acknowledged_len, lemma_delivered_count, ordinal_ids, receipt_handles,
    send_entries_of,
};
use crate::message::{DeleteEntry, DeleteEntryView, Message, MessageView, SendEntry, SendEntryView};
use vstd::pervasive::unreached;
use vstd::prelude::*;

verus! {

/// The most messages that one fetch asks the source queue for.
pub const BATCH_LIMIT: usize = 10;

/// The failures that end a worker.
#[derive(Clone, Copy, Debug, PartialEq, Eq, Hash, Structural)]
pub enum TransferError {
    /// The source queue could not be read.
    Fetch,
    /// The batch could not be handed to the destination queue, or one of its
    /// messages came without a receipt handle.
    Send,
    /// The source queue did not take the acknowledgement.
    Delete,
}

/// Why a worker stopped.
#[derive(Clone, Copy, Debug, PartialEq, Eq, Hash, Structural)]
pub enum StopCause {
    /// A termination signal was pending between two steps.
    Signalled,
    /// A fetch brought no message: the source queue is drained.
    Drained,
    /// A step failed.
    Failed(TransferError),
}

/// What a worker asks its driver to do next.
#[derive(Clone, Debug, PartialEq, Eq)]
#[allow(inconsistent_fields)]
pub enum Action {
    /// Look, without waiting, whether a termination signal is pending.
    Poll,
    /// Fetch up to `limit` messages from `queue`.
    Fetch { queue: String, limit: usize },
    /// Send `entries` to `queue` as one batch.
    Send { queue: String, entries: Vec<SendEntry> },
    /// Delete `entries` from `queue` as one batch.
    Delete { queue: String, entries: Vec<DeleteEntry> },
    /// Nothing more: the worker has stopped after `transferred` messages.
    Stop { transferred: usize, cause: StopCause },
}

/// What an `Action` holds.
#[allow(inconsistent_fields)]
pub enum ActionView {
    Poll,
    Fetch { queue: Seq<char>, limit: nat },
    Send { queue: Seq<char>, entries: Seq<SendEntryView> },
    Delete { queue: Seq<char>, entries: Seq<DeleteEntryView> },
    Stop { transferred: nat, cause: StopCause },
}

impl View for Action {
    type V = ActionView;

    open spec fn view(&self) -> ActionView {
        match *self {
            Action::Poll => ActionView::Poll,
            Action::Fetch { queue, limit } => ActionView::Fetch { queue: queue@, limit: limit as nat },
            Action::Send { queue, entries } => ActionView::Send {
                queue: queue@,
                entries: entries.deep_view(),
            },
            Action::Delete { queue, entries } => ActionView::Delete {
                queue: queue@,
                entries: entries.deep_view(),
            },
            Action::Stop { transferred, cause } => ActionView::Stop {
                transferred: transferred as nat,
                cause,
            },
        }
    }
}

/// How the action that a worker asked for went.
#[derive(Clone, Debug, PartialEq, Eq)]
pub enum Event {
    /// The signal was polled; `terminate` tells whether one was pending.
    Polled { terminate: bool },
    /// The fetch returned `messages`; `None` stands for no message.
    Fetched { messages: Option<Vec<Message>> },
    /// The fetch failed.
    FetchFailed,
    /// The send was answered; `failed` holds the ids of the entries that the
    /// destination did not take.
    Sent { failed: Vec<String> },
    /// The send got no answer.
    SendFailed,
    /// The delete went through.
    Deleted,
    /// The delete failed.
    DeleteFailed,
}

/// What an `Event` holds: the fetched messages as a sequence, the failed ids
/// as a set.
pub enum EventView {
    Polled { terminate: bool },
    Fetched { messages: Seq<MessageView> },
    FetchFailed,
    Sent { failed: Set<Seq<char>> },
    SendFailed,
    Deleted,
    DeleteFailed,
}

impl View for Event {
    type V = EventView;

    open spec fn view(&self) -> EventView {
        match *self {
            Event::Polled { terminate } => EventView::Polled { terminate },
            Event::Fetched { messages } => EventView::Fetched {
                messages: match messages {
                    Some(batch) => batch.deep_view(),
                    None => Seq::empty(),
                },
            },
            Event::FetchFailed => EventView::FetchFailed,
            Event::Sent { failed } => EventView::Sent { failed: failed.deep_view().to_set() },
            Event::SendFailed => EventView::SendFailed,
            Event::Deleted => EventView::Deleted,
            Event::DeleteFailed => EventView::DeleteFailed,
        }
    }
}

/// Where a worker stands in its loop.
pub enum PhaseView {
    /// Between two steps: the signal is being polled.
    Polling,
    /// A fetch is under way.
    Fetching,
    /// A batch is being sent; `handles` are its receipt handles.
    Sending { handles: Seq<Seq<char>> },
    /// An acknowledgement is under way for a batch of `fetched` messages.
    Deleting { fetched: nat },
    /// The loop has ended.
    Stopped,
}

/// The state of a worker.
pub struct WorkerView {
    /// The queue that messages are taken from.
    pub source: Seq<char>,
    /// The queue that messages are forwarded to; empty when the worker only
    /// deletes.
    pub destination: Seq<char>,
    /// The messages counted in the steps completed so far.
    pub transferred: nat,
    pub phase: PhaseView,
}

impl WorkerView {
    /// A worker that has not begun its first step.
    pub open spec fn fresh(source: Seq<char>, destination: Seq<char>) -> WorkerView {
        WorkerView { source, destination, transferred: 0, phase: PhaseView::Polling }
    }

    /// Whether the worker forwards what it fetches, rather than only delete it.
    pub open spec fn forwards(self) -> bool {
        self.destination.len() > 0
    }

    /// The messages of the step under way, which are counted when it
    /// completes.
    pub open spec fn in_flight(self) -> nat {
        match self.phase {
            PhaseView::Sending { handles } => handles.len(),
            PhaseView::Deleting { fetched } => fetched,
            _ => 0,
        }
    }

    /// The worker ends its loop.
    pub open spec fn stop(self, cause: StopCause) -> (WorkerView, ActionView) {
        (
            WorkerView { phase: PhaseView::Stopped, ..self },
            ActionView::Stop { transferred: self.transferred, cause },
        )
    }

    /// The worker completes a step that fetched `fetched` messages.
    pub open spec fn complete(self, fetched: nat) -> (WorkerView, ActionView) {
        (
            WorkerView {
                transferred: self.transferred + fetched,
                phase: PhaseView::Polling,
                ..self
            },
            ActionView::Poll,
        )
    }

    /// The worker asks for the acknowledgement of `handles`, in a step that
    /// fetched `fetched` messages.
    pub open spec fn acknowledge(self, handles: Seq<Seq<char>>, fetched: nat) -> (
        WorkerView,
        ActionView,
    ) {
        (
            WorkerView { phase: PhaseView::Deleting { fetched }, ..self },
            ActionView::Delete { queue: self.source, entries: delete_entries_of(handles) },
        )
    }

    /// What the worker does with a batch it has fetched.
    pub open spec fn take(self, messages: Seq<MessageView>) -> (WorkerView, ActionView) {
        if messages.len() == 0 {
            self.stop(StopCause::Drained)
        } else if !has_handles(messages) {
            self.stop(StopCause::Failed(TransferError::Send))
        } else if self.forwards() {
            (
                WorkerView { phase: PhaseView::Sending { handles: handles_of(messages) }, ..self },
                ActionView::Send { queue: self.destination, entries: send_entries_of(messages) },
            )
        } else {
            self.acknowledge(handles_of(messages), messages.len())
        }
    }

    /// What the worker does once the destination has answered a send.
    pub open spec fn settle(self, handles: Seq<Seq<char>>, failed: Set<Seq<char>>) -> (
        WorkerView,
        ActionView,
    ) {
        let kept = acknowledged_of(handles, failed);
        if kept.len() == 0 {
            self.complete(handles.len())
        } else {
            self.acknowledge(kept, handles.len())
        }
    }

    /// The next state of the worker and what it asks for, when `event`
    /// answers what it asked for last; `None` for any other event.
    pub open spec fn react(self, event: EventView) -> Option<(WorkerView, ActionView)> {
        match (self.phase, event) {
            (PhaseView::Polling, EventView::Polled { terminate }) => Some(
                if terminate {
                    self.stop(StopCause::Signalled)
                } else {
                    (
                        WorkerView { phase: PhaseView::Fetching, ..self },
                        ActionView::Fetch { queue: self.source, limit: BATCH_LIMIT as nat },
                    )
                },
            ),
            (PhaseView::Fetching, EventView::Fetched { messages }) => Some(self.take(messages)),
            (PhaseView::Fetching, EventView::FetchFailed) => Some(
                self.stop(StopCause::Failed(TransferError::Fetch)),
            ),
            (PhaseView::Sending { handles }, EventView::Sent { failed }) => Some(
                self.settle(handles, failed),
            ),
            (PhaseView::Sending { .. }, EventView::SendFailed) => Some(
                self.stop(StopCause::Failed(TransferError::Send)),
            ),
            (PhaseView::Deleting { fetched }, EventView::Deleted) => Some(self.complete(fetched)),
            (PhaseView::Deleting { .. }, EventView::DeleteFailed) => Some(
                self.stop(StopCause::Failed(TransferError::Delete)),
            ),
            _ => None,
        }
    }

    /// Whether the worker can take `event`: it answers what the worker asked
    /// for last, and the messages it brings can still be counted.
    pub open spec fn admits(self, event: EventView) -> bool {
        &&& self.react(event) is Some
        &&& event matches EventView::Fetched { messages } ==> self.transferred + messages.len()
            <= usize::MAX
    }
}

enum Phase {
    Polling,
    Fetching,
    Sending { handles: Vec<String> },
    Deleting { fetched: usize },
    Stopped,
}

impl View for Phase {
    type V = PhaseView;

    closed spec fn view(&self) -> PhaseView {
        match *self {
            Phase::Polling => PhaseView::Polling,
            Phase::Fetching => PhaseView::Fetching,
            Phase::Sending { handles } => PhaseView::Sending { handles: handles.deep_view() },
            Phase::Deleting { fetched } => PhaseView::Deleting { fetched: fetched as nat },
            Phase::Stopped => PhaseView::Stopped,
        }
    }
}

/// One worker of a transfer.
pub struct Worker {
    source: String,
    destination: String,
    transferred: usize,
    phase: Phase,
}

impl View for Worker {
    type V = WorkerView;

    closed spec fn view(&self) -> WorkerView {
        WorkerView {
            source: self.source@,
            destination: self.destination@,
            transferred: self.transferred as nat,
            phase: self.phase@,
        }
    }
}

impl Worker {
    /// The step under way can be counted once it completes.
    #[verifier::type_invariant]
    spec fn countable(self) -> bool {
        self@.transferred + self@.in_flight() <= usize::MAX
    }

    /// Creates a worker that takes messages from `source` and forwards them to
    /// `destination`, or only deletes them when `destination` is empty.
    ///
    /// The worker begins by asking for a poll of the termination signal.
    pub fn start(source: String, destination: String) -> (begun: (Worker, Action))
        ensures
            begun.0@ == WorkerView::fresh(source@, destination@),
            begun.1@ == ActionView::Poll,
    {
        (Worker { source, destination, transferred: 0, phase: Phase::Polling }, Action::Poll)
    }

    /// The messages counted in the steps completed so far.
    pub fn transferred(&self) -> (count: usize)
        ensures
            count == self@.transferred,
    {
        self.transferred
    }

    /// Whether the worker has ended its loop.
    pub fn is_stopped(&self) -> (stopped: bool)
        ensures
            stopped == (self@.phase is Stopped),
    {
        match self.phase {
            Phase::Stopped => true,
            _ => false,
        }
    }

    /// Whether the worker can take `event`.
    pub fn accepts(&self, event: &Event) -> (admitted: bool)
        ensures
            admitted == self@.admits(event@),
    {
        match (&self.phase, event) {
            (Phase::Polling, Event::Polled { .. }) => true,
            (Phase::Fetching, Event::Fetched { messages }) => match messages {
                Some(batch) => batch.len() <= usize::MAX - self.transferred,
                None => true,
            },
            (Phase::Fetching, Event::FetchFailed) => true,
            (Phase::Sending { .. }, Event::Sent { .. }) => true,
            (Phase::Sending { .. }, Event::SendFailed) => true,
            (Phase::Deleting { .. }, Event::Deleted) => true,
            (Phase::Deleting { .. }, Event::DeleteFailed) => true,
            _ => false,
        }
    }

    /// Takes the answer to the action that the worker asked for last, and
    /// returns the worker in its next state with the action it asks for now.
    pub fn handle(self, event: Event) -> (next: (Worker, Action))
        requires
            self@.admits(event@),
        ensures
            self@.react(event@) == Some((next.0@, next.1@)),
    {
        proof {
            use_type_invariant(&self);
        }
        let Worker { source, destination, transferred, phase } = self;
        match event {
            Event::Polled { terminate } => {
                if terminate {
                    stopped(source, destination, transferred, StopCause::Signalled)
                } else {
                    let queue = source.clone();
                    (
                        Worker { source, destination, transferred, phase: Phase::Fetching },
                        Action::Fetch { queue, limit: BATCH_LIMIT },
                    )
                }
            },
            Event::Fetched { messages } => {
                let batch = match messages {
                    Some(batch) => batch,
                    None => Vec::new(),
                };
                let fetched = batch.len();
                if fetched == 0 {
                    stopped(source, destination, transferred, StopCause::Drained)
                } else if !destination.as_str().is_empty() {
                    match forward_plan(batch) {
                        Some((entries, handles)) => {
                            let queue = destination.clone();
                            (
                                Worker {
                                    source,
                                    destination,
                                    transferred,
                                    phase: Phase::Sending { handles },
                                },
                                Action::Send { queue, entries },
                            )
                        },
                        None => stopped(
                            source,
                            destination,
                            transferred,
                            StopCause::Failed(TransferError::Send),
                        ),
                    }
                } else {
                    match receipt_handles(batch) {
                        Some(handles) => acknowledging(
                            source,
                            destination,
                            transferred,
                            handles,
                            fetched,
                        ),
                        None => stopped(
                            source,
                            destination,
                            transferred,
                            StopCause::Failed(TransferError::Send),
                        ),
                    }
                }
            },
            Event::FetchFailed => stopped(
                source,
                destination,
                transferred,
                StopCause::Failed(TransferError::Fetch),
            ),
            Event::Sent { failed } => match phase {
                Phase::Sending { handles } => {
                    let fetched = handles.len();
                    let kept = acknowledged(handles, &failed);
                    if kept.len() == 0 {
                        completed(source, destination, transferred, fetched)
                    } else {
                        acknowledging(source, destination, transferred, kept, fetched)
                    }
                },
                _ => unreached(),
            },
            Event::SendFailed => stopped(
                source,
                destination,
                transferred,
                StopCause::Failed(TransferError::Send),
            ),
            Event::Deleted => match phase {
                Phase::Deleting { fetched } => completed(
                    source,
                    destination,
                    transferred,
                    fetched,
                ),
                _ => unreached(),
            },
            Event::DeleteFailed => stopped(
                source,
                destination,
                transferred,
                StopCause::Failed(TransferError::Delete),
            ),
        }
    }
}

/// A worker that has ended its loop, and its last word.
fn stopped(source: String, destination: String, transferred: usize, cause: StopCause) -> (next: (
    Worker,
    Action,
))
    ensures
        next.0@ == (WorkerView {
            source: source@,
            destination: destination@,
            transferred: transferred as nat,
            phase: PhaseView::Stopped,
        }),
        next.1@ == (ActionView::Stop { transferred: transferred as nat, cause }),
{
    (
        Worker { source, destination, transferred, phase: Phase::Stopped },
        Action::Stop { transferred, cause },
    )
}

/// A worker between two steps, the last of which fetched `fetched` messages.
fn completed(source: String, destination: String, transferred: usize, fetched: usize) -> (next: (
    Worker,
    Action,
))
    requires
        transferred + fetched <= usize::MAX,
    ensures
        next.0@ == (WorkerView {
            source: source@,
            destination: destination@,
            transferred: (transferred + fetched) as nat,
            phase: PhaseView::Polling,
        }),
        next.1@ == ActionView::Poll,
{
    (
        Worker { source, destination, transferred: transferred + fetched, phase: Phase::Polling },
        Action::Poll,
    )
}

/// A worker that asks for the acknowledgement of `handles`.
fn acknowledging(
    source: String,
    destination: String,
    transferred: usize,
    handles: Vec<String>,
    fetched: usize,
) -> (next: (Worker, Action))
    requires
        transferred + fetched <= usize::MAX,
    ensures
        next.0@ == (WorkerView {
            source: source@,
            destination: destination@,
            transferred: transferred as nat,
            phase: PhaseView::Deleting { fetched: fetched as nat },
        }),
        next.1@ == (ActionView::Delete {
            queue: source@,
            entries: delete_entries_of(handles.deep_view()),
        }),
{
    let queue = source.clone();
    let entries = delete_entries(handles);
    (
        Worker { source, destination, transferred, phase: Phase::Deleting { fetched } },
        Action::Delete { queue, entries },
    )
}

/// A step that fetches no message ends the worker's loop with the count as
/// it was: nothing is sent and nothing is deleted.
pub proof fn lemma_empty_fetch_stops(worker: WorkerView)
    requires
        worker.phase is Fetching,
    ensures
        worker.react(EventView::Fetched { messages: Seq::empty() }) == Some(
            worker.stop(StopCause::Drained),
        ),
        worker.stop(StopCause::Drained).1 == (ActionView::Stop {
            transferred: worker.transferred,
            cause: StopCause::Drained,
        }),
{
}

/// A worker that only deletes never asks for a send, whatever state it is in
/// and whatever event it takes.
pub proof fn lemma_delete_only_never_sends(worker: WorkerView, event: EventView)
    requires
        !worker.forwards(),
        worker.react(event) is Some,
    ensures
        worker.react(event) matches Some((next, action)) && !(action is Send) && !(next.phase
            is Sending),
{
}

/// A worker that only deletes asks, after a fetch that brought messages with
/// their receipt handles, for the deletion of all of them.
pub proof fn lemma_delete_only_acknowledges_all(worker: WorkerView, messages: Seq<MessageView>)
    requires
        !worker.forwards(),
        worker.phase is Fetching,
        messages.len() >= 1,
        has_handles(messages),
    ensures
        worker.react(EventView::Fetched { messages }) == Some(
            worker.acknowledge(handles_of(messages), messages.len()),
        ),
        delete_entries_of(handles_of(messages)).len() == messages.len(),
{
}

/// A worker that forwards asks for a send of the whole batch whenever a fetch
/// brought at least one message and every message came with its receipt
/// handle.
pub proof fn lemma_forwarding_sends(worker: WorkerView, messages: Seq<MessageView>)
    requires
        worker.forwards(),
        worker.phase is Fetching,
        messages.len() >= 1,
        has_handles(messages),
    ensures
        worker.react(EventView::Fetched { messages }) matches Some((next, action)) && {
            &&& action == (ActionView::Send {
                queue: worker.destination,
                entries: send_entries_of(messages),
            })
            &&& next.phase == (PhaseView::Sending { handles: handles_of(messages) })
            &&& send_entries_of(messages).len() == messages.len()
        },
{
}

/// A batch with a message that lacks its receipt handle is neither sent nor
/// deleted: the worker stops with the send failure.
pub proof fn lemma_missing_handle_stops(worker: WorkerView, messages: Seq<MessageView>)
    requires
        worker.phase is Fetching,
        messages.len() >= 1,
        !has_handles(messages),
    ensures
        worker.react(EventView::Fetched { messages }) == Some(
            worker.stop(StopCause::Failed(TransferError::Send)),
        ),
{
}

/// After a send of `handles.len()` messages of which the destination
/// reported the ids in `failed` as failed, the worker asks for the deletion
/// of exactly the other messages: as many entries as there were successes,
/// holding the handles that `acknowledged_of` picks. When every message
/// failed, it asks for no deletion and the step is complete.
pub proof fn lemma_partial_send(worker: WorkerView, handles: Seq<Seq<char>>, failed: Set<Seq<char>>)
    requires
        worker.phase == (PhaseView::Sending { handles }),
        failed.finite(),
        failed.subset_of(ordinal_ids(handles.len())),
    ensures
        acknowledged_of(handles, failed).len() == handles.len() - failed.len(),
        failed.len() < handles.len() ==> worker.react(EventView::Sent { failed }) == Some(
            worker.acknowledge(acknowledged_of(handles, failed), handles.len()),
        ),
        failed.len() < handles.len() ==> delete_entries_of(acknowledged_of(handles, failed)).len()
            == handles.len() - failed.len(),
        failed.len() == handles.len() ==> worker.react(EventView::Sent { failed }) == Some(
            worker.complete(handles.len()),
        ),
{
    lemma_acknowledged_len(handles, failed);
    lemma_delivered_count(handles.len(), failed);
}

/// A failed fetch, send or delete stops the worker with the count of the
/// steps completed before.
pub proof fn lemma_failure_stops(worker: WorkerView, event: EventView)
    requires
        event is FetchFailed || event is SendFailed || event is DeleteFailed,
        worker.react(event) is Some,
    ensures
        worker.react(event) == Some(
            worker.stop(
                StopCause::Failed(
                    if event is FetchFailed {
                        TransferError::Fetch
                    } else if event is SendFailed {
                        TransferError::Send
                    } else {
                        TransferError::Delete
                    },
                ),
            ),
        ),
        worker.react(event) matches Some((next, action)) && {
            &&& next.phase is Stopped
            &&& next.transferred == worker.transferred
            &&& action matches ActionView::Stop { transferred, .. } && transferred
                == worker.transferred
        },
{
}

/// A worker that asked to stop has stopped, and a stopped worker takes no
/// event: it asks for nothing ever again.
pub proof fn lemma_stopped_is_final(worker: WorkerView, event: EventView)
    ensures
        worker.react(event) matches Some((next, action)) ==> (action is Stop <==> next.phase
            is Stopped),
        worker.phase is Stopped ==> worker.react(event) is None,
{
}

/// A termination signal found between two steps stops the worker with the
/// count accumulated so far; no fetch is asked for.
pub proof fn lemma_signal_stops(worker: WorkerView)
    requires
        worker.phase is Polling,
    ensures
        worker.react(EventView::Polled { terminate: true }) == Some(
            worker.stop(StopCause::Signalled),
        ),
        worker.stop(StopCause::Signalled).1 == (ActionView::Stop {
            transferred: worker.transferred,
            cause: StopCause::Signalled,
        }),
{
}

/// The signal is looked at between steps only: a worker in the middle of a
/// step takes no poll, so the step runs to its end.
pub proof fn lemma_step_is_not_interrupted(worker: WorkerView, terminate: bool)
    requires
        !(worker.phase is Polling),
    ensures
        worker.react(EventView::Polled { terminate }) is None,
{
}

/// No event changes the queues of a worker or lowers its count, and the
/// count rises only when a step completes, by the number of messages that
/// the step fetched.
pub proof fn lemma_count_never_falls(worker: WorkerView, event: EventView)
    requires
        worker.react(event) is Some,
    ensures
        worker.react(event) matches Some((next, _)) && {
            &&& next.source == worker.source
            &&& next.destination == worker.destination
            &&& next.transferred == worker.transferred || (next.phase is Polling
                && next.transferred == worker.transferred + worker.in_flight())
        },
{
}

} // verus!
