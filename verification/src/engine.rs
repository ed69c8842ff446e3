//! The engine: the fixed pool of workers, and what becomes of each.
//!
//! The engine keeps the books of a pool that its driver runs: which workers
//! have been sent a termination signal, which have been joined, and what each
//! of them transferred. From those books it tells the driver what to do next:
//! signal a worker, join a worker, or finish with the total. It never calls
//! for the finish while a worker is not joined, and once asked to shut down
//! it calls for a signal to every worker before it calls for any join.

use vstd::prelude::*;

verus! {

/// What the engine knows of one worker.
#[derive(Clone, Copy, Debug, PartialEq, Eq)]
pub struct Slot {
    /// A termination signal was sent to the worker, whether or not it was
    /// still there to take it.
    pub signalled: bool,
    /// The number of messages the worker transferred, once it is joined.
    pub outcome: Option<usize>,
}

/// What the engine asks its driver to do next.
#[derive(Clone, Copy, Debug, PartialEq, Eq)]
pub enum EngineAction {
    /// Send a termination signal to the worker, and report it with
    /// `Engine::signalled` whether or not the worker took it.
    Signal { worker: usize },
    /// Wait until the worker has stopped, and report its count with
    /// `Engine::joined`.
    Join { worker: usize },
    /// Every worker is joined; together they transferred `transferred`
    /// messages.
    Finish { transferred: usize },
}

/// The contribution of one worker to the total.
pub open spec fn count_of(slot: Slot) -> nat {
    match slot.outcome {
        Some(transferred) => transferred as nat,
        None => 0,
    }
}

/// The sum of what the joined workers transferred.
pub open spec fn total_of(slots: Seq<Slot>) -> nat
    decreases slots.len(),
{
    if slots.len() == 0 {
        0
    } else {
        total_of(slots.drop_last()) + count_of(slots.last())
    }
}

/// How many workers have not been signalled.
pub open spec fn unsignalled(slots: Seq<Slot>) -> nat
    decreases slots.len(),
{
    if slots.len() == 0 {
        0
    } else {
        unsignalled(slots.drop_last()) + if slots.last().signalled {
            0nat
        } else {
            1nat
        }
    }
}

/// How many workers have not been joined.
pub open spec fn unjoined(slots: Seq<Slot>) -> nat
    decreases slots.len(),
{
    if slots.len() == 0 {
        0
    } else {
        unjoined(slots.drop_last()) + if slots.last().outcome is Some {
            0nat
        } else {
            1nat
        }
    }
}

/// The books of the engine.
pub struct EngineView {
    /// One slot per worker, in the order the workers were started.
    pub slots: Seq<Slot>,
    /// Whether the engine was asked to shut down.
    pub shutting_down: bool,
}

impl EngineView {
    /// The books of an engine that has just started `workers` workers.
    pub open spec fn started(workers: nat) -> EngineView {
        EngineView {
            slots: Seq::new(workers, |i: int| Slot { signalled: false, outcome: None }),
            shutting_down: false,
        }
    }

    /// The books after the engine was asked to shut down.
    pub open spec fn shut_down(self) -> EngineView {
        EngineView { shutting_down: true, ..self }
    }

    /// The books after a signal was sent to `worker`.
    pub open spec fn signalled(self, worker: int) -> EngineView
        recommends
            0 <= worker < self.slots.len(),
    {
        EngineView {
            slots: self.slots.update(worker, Slot { signalled: true, ..self.slots[worker] }),
            ..self
        }
    }

    /// The books after `worker` was joined, having transferred `transferred`
    /// messages.
    pub open spec fn joined(self, worker: int, transferred: usize) -> EngineView
        recommends
            0 <= worker < self.slots.len(),
    {
        EngineView {
            slots: self.slots.update(
                worker,
                Slot { outcome: Some(transferred), ..self.slots[worker] },
            ),
            ..self
        }
    }

    /// Whether every worker has been signalled.
    pub open spec fn all_signalled(self) -> bool {
        forall|i: int| 0 <= i < self.slots.len() ==> (#[trigger] self.slots[i]).signalled
    }

    /// Whether every worker has been joined.
    pub open spec fn all_joined(self) -> bool {
        forall|i: int| 0 <= i < self.slots.len() ==> (#[trigger] self.slots[i]).outcome is Some
    }

    /// Whether a signal is still owed to some worker.
    pub open spec fn owes_signal(self) -> bool {
        self.shutting_down && !self.all_signalled()
    }

    /// Whether `action` is what the books call for.
    ///
    /// While a signal is owed, it is the signal to the first worker not yet
    /// signalled. After that, it is the join of the first worker not yet
    /// joined. When none is left, it is the finish with the total.
    pub open spec fn calls_for(self, action: EngineAction) -> bool {
        match action {
            EngineAction::Signal { worker } => {
                &&& self.shutting_down
                &&& worker < self.slots.len()
                &&& !self.slots[worker as int].signalled
                &&& forall|j: int| 0 <= j < worker ==> (#[trigger] self.slots[j]).signalled
            },
            EngineAction::Join { worker } => {
                &&& !self.owes_signal()
                &&& worker < self.slots.len()
                &&& self.slots[worker as int].outcome is None
                &&& forall|j: int| 0 <= j < worker ==> (#[trigger] self.slots[j]).outcome is Some
            },
            EngineAction::Finish { transferred } => {
                &&& !self.owes_signal()
                &&& self.all_joined()
                &&& transferred == total_of(self.slots)
            },
        }
    }

    /// How many reports the engine still waits for before it can finish.
    pub open spec fn outstanding(self) -> nat {
        unjoined(self.slots) + if self.shutting_down {
            unsignalled(self.slots)
        } else {
            0nat
        }
    }
}

/// The total never falls when more workers are counted.
proof fn lemma_total_of_prefix(slots: Seq<Slot>, k: int)
    requires
        0 <= k <= slots.len(),
    ensures
        total_of(slots.take(k)) <= total_of(slots),
    decreases slots.len() - k,
{
    if k == slots.len() {
        assert(slots.take(k) =~= slots);
    } else {
        lemma_total_of_prefix(slots, k + 1);
        assert(slots.take(k + 1).drop_last() =~= slots.take(k));
    }
}

/// Joining a worker that was not joined adds its count to the total.
proof fn lemma_total_of_joined(slots: Seq<Slot>, worker: int, transferred: usize)
    requires
        0 <= worker < slots.len(),
        slots[worker].outcome is None,
    ensures
        total_of(slots.update(worker, Slot { outcome: Some(transferred), ..slots[worker] }))
            == total_of(slots) + transferred,
        unjoined(slots.update(worker, Slot { outcome: Some(transferred), ..slots[worker] })) + 1
            == unjoined(slots),
        unsignalled(slots.update(worker, Slot { outcome: Some(transferred), ..slots[worker] }))
            == unsignalled(slots),
    decreases slots.len(),
{
    let after = slots.update(worker, Slot { outcome: Some(transferred), ..slots[worker] });
    if worker == slots.len() - 1 {
        assert(after.drop_last() =~= slots.drop_last());
    } else {
        lemma_total_of_joined(slots.drop_last(), worker, transferred);
        assert(after.drop_last() =~= slots.drop_last().update(
            worker,
            Slot { outcome: Some(transferred), ..slots[worker] },
        ));
    }
}

/// Signalling a worker changes no count.
proof fn lemma_total_of_signalled(slots: Seq<Slot>, worker: int)
    requires
        0 <= worker < slots.len(),
    ensures
        total_of(slots.update(worker, Slot { signalled: true, ..slots[worker] })) == total_of(
            slots,
        ),
        unjoined(slots.update(worker, Slot { signalled: true, ..slots[worker] })) == unjoined(
            slots,
        ),
        unsignalled(slots.update(worker, Slot { signalled: true, ..slots[worker] })) + (if slots[worker].signalled {
            0nat
        } else {
            1nat
        }) == unsignalled(slots),
    decreases slots.len(),
{
    let after = slots.update(worker, Slot { signalled: true, ..slots[worker] });
    if worker == slots.len() - 1 {
        assert(after.drop_last() =~= slots.drop_last());
    } else {
        lemma_total_of_signalled(slots.drop_last(), worker);
        assert(after.drop_last() =~= slots.drop_last().update(
            worker,
            Slot { signalled: true, ..slots[worker] },
        ));
    }
}

/// No worker is left to signal exactly when all are signalled; none is left
/// to join exactly when all are joined.
proof fn lemma_none_left(slots: Seq<Slot>)
    ensures
        unsignalled(slots) == 0 <==> (forall|i: int|
            0 <= i < slots.len() ==> (#[trigger] slots[i]).signalled),
        unjoined(slots) == 0 <==> (forall|i: int|
            0 <= i < slots.len() ==> (#[trigger] slots[i]).outcome is Some),
    decreases slots.len(),
{
    if slots.len() > 0 {
        let earlier = slots.drop_last();
        lemma_none_left(earlier);
        assert(forall|i: int| 0 <= i < earlier.len() ==> earlier[i] == slots[i]);
        if unsignalled(slots) == 0 {
            assert forall|i: int| 0 <= i < slots.len() implies (#[trigger] slots[i]).signalled by {
                if i < earlier.len() {
                    assert(earlier[i].signalled);
                }
            }
        }
        if unjoined(slots) == 0 {
            assert forall|i: int| 0 <= i < slots.len() implies (#[trigger] slots[i]).outcome is Some by {
                if i < earlier.len() {
                    assert(earlier[i].outcome is Some);
                }
            }
        }
    }
}

/// The books call for at most one action.
pub proof fn lemma_one_action(engine: EngineView, first: EngineAction, second: EngineAction)
    requires
        engine.calls_for(first),
        engine.calls_for(second),
    ensures
        first == second,
{
    match (first, second) {
        (EngineAction::Signal { worker: a }, EngineAction::Signal { worker: b }) => {
            if a < b {
                assert(engine.slots[a as int].signalled);
            } else if b < a {
                assert(engine.slots[b as int].signalled);
            }
        },
        (EngineAction::Join { worker: a }, EngineAction::Join { worker: b }) => {
            if a < b {
                assert(engine.slots[a as int].outcome is Some);
            } else if b < a {
                assert(engine.slots[b as int].outcome is Some);
            }
        },
        (EngineAction::Signal { worker }, _) => {
            assert(!engine.slots[worker as int].signalled);
        },
        (_, EngineAction::Signal { worker }) => {
            assert(!engine.slots[worker as int].signalled);
        },
        (EngineAction::Join { worker }, _) => {
            assert(engine.slots[worker as int].outcome is None);
        },
        (_, EngineAction::Join { worker }) => {
            assert(engine.slots[worker as int].outcome is None);
        },
        _ => {},
    }
}

/// The finish is called for only when every worker of the pool is joined,
/// and then with the sum of what the workers transferred: no worker is left
/// behind, and no report is outstanding.
pub proof fn lemma_finish_means_all_joined(engine: EngineView, transferred: usize)
    requires
        engine.calls_for(EngineAction::Finish { transferred }),
    ensures
        engine.all_joined(),
        transferred == total_of(engine.slots),
        engine.outstanding() == 0,
{
    lemma_none_left(engine.slots);
}

/// As long as a report is outstanding, the books call for a signal or a
/// join, never for the finish.
pub proof fn lemma_outstanding_blocks_finish(engine: EngineView, action: EngineAction)
    requires
        engine.calls_for(action),
        engine.outstanding() > 0,
    ensures
        !(action is Finish),
{
    lemma_none_left(engine.slots);
}

/// A freshly started engine waits for one report from each worker, and has
/// counted nothing.
pub proof fn lemma_started(workers: nat)
    ensures
        EngineView::started(workers).outstanding() == workers,
        unsignalled(EngineView::started(workers).slots) == workers,
        total_of(EngineView::started(workers).slots) == 0,
    decreases workers,
{
    if workers > 0 {
        lemma_started((workers - 1) as nat);
        assert(EngineView::started(workers).slots.drop_last() =~= EngineView::started(
            (workers - 1) as nat,
        ).slots);
    }
}

/// Reporting the signal that the books called for leaves one report fewer
/// outstanding, and changes neither the total nor which workers are joined.
pub proof fn lemma_signal_progress(engine: EngineView, worker: usize)
    requires
        engine.calls_for(EngineAction::Signal { worker }),
    ensures
        engine.signalled(worker as int).outstanding() + 1 == engine.outstanding(),
        total_of(engine.signalled(worker as int).slots) == total_of(engine.slots),
        forall|i: int|
            0 <= i < engine.slots.len() ==> (#[trigger] engine.signalled(
                worker as int,
            ).slots[i]).outcome == engine.slots[i].outcome,
{
    lemma_total_of_signalled(engine.slots, worker as int);
}

/// Reporting the join that the books called for leaves one report fewer
/// outstanding, and adds the worker's count to the total.
pub proof fn lemma_join_progress(engine: EngineView, worker: usize, transferred: usize)
    requires
        engine.calls_for(EngineAction::Join { worker }),
    ensures
        engine.joined(worker as int, transferred).outstanding() + 1 == engine.outstanding(),
        total_of(engine.joined(worker as int, transferred).slots) == total_of(engine.slots)
            + transferred,
{
    lemma_total_of_joined(engine.slots, worker as int, transferred);
}

/// Asking for shutdown never makes the engine forget a join: it adds at most
/// one signal per worker to what is outstanding.
pub proof fn lemma_shut_down_keeps_joins(engine: EngineView)
    ensures
        engine.shut_down().slots == engine.slots,
        engine.shut_down().outstanding() == unjoined(engine.slots) + unsignalled(engine.slots),
        engine.shut_down().outstanding() >= engine.outstanding(),
{
}

/// The engine of one transfer.
pub struct Engine {
    slots: Vec<Slot>,
    shutting_down: bool,
}

impl View for Engine {
    type V = EngineView;

    closed spec fn view(&self) -> EngineView {
        EngineView { slots: self.slots@, shutting_down: self.shutting_down }
    }
}

impl Engine {
    /// The total of the joined workers can be held.
    #[verifier::type_invariant]
    spec fn countable(self) -> bool {
        total_of(self.slots@) <= usize::MAX
    }

    /// Opens the books for a pool of `workers` workers, none of them
    /// signalled or joined.
    pub fn start(workers: usize) -> (engine: Engine)
        ensures
            engine@ == EngineView::started(workers as nat),
    {
        let mut slots: Vec<Slot> = Vec::new();
        let mut i: usize = 0;
        while i < workers
            invariant
                i <= workers,
                slots@ =~= EngineView::started(i as nat).slots,
                total_of(slots@) == 0,
            decreases workers - i,
        {
            let ghost before = slots@;
            slots.push(Slot { signalled: false, outcome: None });
            assert(slots@.drop_last() =~= before);
            i = i + 1;
        }
        Engine { slots, shutting_down: false }
    }

    /// The size of the pool.
    pub fn workers(&self) -> (workers: usize)
        ensures
            workers == self@.slots.len(),
    {
        self.slots.len()
    }

    /// What the engine knows of `worker`.
    pub fn slot(&self, worker: usize) -> (slot: Slot)
        requires
            worker < self@.slots.len(),
        ensures
            slot == self@.slots[worker as int],
    {
        self.slots[worker]
    }

    /// The sum of what the workers joined so far transferred.
    pub fn total(&self) -> (transferred: usize)
        ensures
            transferred == total_of(self@.slots),
    {
        proof {
            use_type_invariant(self);
        }
        let mut transferred: usize = 0;
        let mut i: usize = 0;
        while i < self.slots.len()
            invariant
                i <= self.slots.len(),
                transferred == total_of(self.slots@.take(i as int)),
                total_of(self.slots@) <= usize::MAX,
            decreases self.slots.len() - i,
        {
            proof {
                lemma_total_of_prefix(self.slots@, i + 1);
                assert(self.slots@.take(i + 1).drop_last() =~= self.slots@.take(i as int));
            }
            match self.slots[i].outcome {
                Some(count) => {
                    transferred = transferred + count;
                },
                None => {},
            }
            i = i + 1;
        }
        assert(self.slots@.take(i as int) =~= self.slots@);
        transferred
    }

    /// Asks the engine to shut down: from now on it calls for a signal to
    /// every worker not yet signalled before it calls for anything else.
    pub fn shut_down(self) -> (engine: Engine)
        ensures
            engine@ == self@.shut_down(),
    {
        proof {
            use_type_invariant(&self);
        }
        let Engine { slots, shutting_down: _ } = self;
        Engine { slots, shutting_down: true }
    }

    /// Records that a termination signal was sent to `worker`. It does not
    /// matter whether the worker was still there to take it.
    pub fn signalled(self, worker: usize) -> (engine: Engine)
        requires
            worker < self@.slots.len(),
        ensures
            engine@ == self@.signalled(worker as int),
    {
        proof {
            use_type_invariant(&self);
            lemma_total_of_signalled(self.slots@, worker as int);
        }
        let Engine { slots, shutting_down } = self;
        let mut slots = slots;
        let slot = slots[worker];
        slots.set(worker, Slot { signalled: true, ..slot });
        Engine { slots, shutting_down }
    }

    /// Whether `worker` can be recorded as joined with `transferred`
    /// messages: it is a worker of the pool, not yet joined, and the total
    /// can still hold its count.
    pub fn can_join(&self, worker: usize, transferred: usize) -> (possible: bool)
        ensures
            possible == {
                &&& worker < self@.slots.len()
                &&& self@.slots[worker as int].outcome is None
                &&& total_of(self@.slots) + transferred <= usize::MAX
            },
    {
        if worker >= self.slots.len() {
            return false;
        }
        if self.slots[worker].outcome.is_some() {
            return false;
        }
        transferred <= usize::MAX - self.total()
    }

    /// Records that `worker` has stopped and was joined, having transferred
    /// `transferred` messages.
    pub fn joined(self, worker: usize, transferred: usize) -> (engine: Engine)
        requires
            worker < self@.slots.len(),
            self@.slots[worker as int].outcome is None,
            total_of(self@.slots) + transferred <= usize::MAX,
        ensures
            engine@ == self@.joined(worker as int, transferred),
    {
        proof {
            use_type_invariant(&self);
            lemma_total_of_joined(self.slots@, worker as int, transferred);
        }
        let Engine { slots, shutting_down } = self;
        let mut slots = slots;
        let slot = slots[worker];
        slots.set(worker, Slot { outcome: Some(transferred), ..slot });
        Engine { slots, shutting_down }
    }

    /// What the driver is to do next.
    pub fn next_action(&self) -> (action: EngineAction)
        ensures
            self@.calls_for(action),
    {
        if self.shutting_down {
            let mut i: usize = 0;
            while i < self.slots.len()
                invariant
                    self.shutting_down,
                    i <= self.slots.len(),
                    forall|j: int| 0 <= j < i ==> (#[trigger] self.slots@[j]).signalled,
                decreases self.slots.len() - i,
            {
                if !self.slots[i].signalled {
                    return EngineAction::Signal { worker: i };
                }
                i = i + 1;
            }
        }
        let mut i: usize = 0;
        while i < self.slots.len()
            invariant
                i <= self.slots.len(),
                !self@.owes_signal(),
                forall|j: int| 0 <= j < i ==> (#[trigger] self.slots@[j]).outcome is Some,
            decreases self.slots.len() - i,
        {
            if self.slots[i].outcome.is_none() {
                return EngineAction::Join { worker: i };
            }
            i = i + 1;
        }
        EngineAction::Finish { transferred: self.total() }
    }
}

} // verus!
