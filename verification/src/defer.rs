//! A phase-scoped queue of one-shot deferred tasks.
//!
//! Code running in a restricted context (for example an attribute-change
//! callback, where direct mutation of the store is unsafe) can enqueue a task
//! against a phase of the update cycle. The frame driver drains each phase's
//! queue once per cycle; draining atomically takes the pending tasks and hands
//! them back for execution, in enqueue order. A task enqueued while a drain is
//! in progress lands in the fresh queue and is executed by the next drain.
//!
//! A task names its callable through a handle obtained from the queue's
//! registration cache: registering the same callable key twice yields the same
//! handle. The caller that executes a drained batch is expected to run the
//! tasks in order and to keep going when one of them fails; a failure is
//! reported and recovered, never propagated to the rest of the batch.

use crate::phase::{Phase, PHASE_COUNT};
use vstd::prelude::*;

verus! {

/// One pending invocation: the handle of a registered callable together with
/// the input value captured at enqueue time.
pub struct Task<I> {
    /// The handle the callable was registered under.
    pub handle: usize,
    /// The input to hand to the callable when the task runs.
    pub input: I,
}

/// The mathematical model of a [`TaskQueue`]: the registered callable keys in
/// registration order, and the pending tasks of each phase in enqueue order.
pub struct TaskQueueModel<I> {
    /// The registered callable keys; a key's position is its handle.
    pub registry: Seq<u64>,
    /// For each phase index, the pending tasks in enqueue order.
    pub pending: Seq<Seq<Task<I>>>,
}

impl<I> TaskQueueModel<I> {
    /// A well-formed model has one pending list per phase.
    pub open spec fn wf(self) -> bool {
        self.pending.len() == PHASE_COUNT
    }
}

/// The position of the first occurrence of `key` in `registry`, assuming one
/// exists.
pub open spec fn first_index_of(registry: Seq<u64>, key: u64) -> int
    decreases registry.len(),
{
    if registry.len() <= 0 {
        0
    } else if registry[0] == key {
        0
    } else {
        1 + first_index_of(registry.drop_first(), key)
    }
}

/// What registering a callable key does: an unknown key is appended and its
/// new position is its handle; a known key leaves the registry unchanged and
/// yields the handle it was first registered under.
pub open spec fn register_model(registry: Seq<u64>, key: u64) -> (Seq<u64>, int) {
    if registry.contains(key) {
        (registry, first_index_of(registry, key))
    } else {
        (registry.push(key), registry.len() as int)
    }
}

/// What enqueueing a task does: the callable key is registered and a task
/// with the resulting handle is appended to the chosen phase's pending list.
pub open spec fn enqueue_model<I>(m: TaskQueueModel<I>, phase: Phase, key: u64, input: I) -> TaskQueueModel<I> {
    let (registry, handle) = register_model(m.registry, key);
    let p = phase.index_spec();
    TaskQueueModel {
        registry,
        pending: m.pending.update(p, m.pending[p].push(Task { handle: handle as usize, input })),
    }
}

/// What draining a phase does: the phase's pending list is emptied and handed
/// back whole, in enqueue order; nothing else changes.
pub open spec fn drain_model<I>(m: TaskQueueModel<I>, phase: Phase) -> (TaskQueueModel<I>, Seq<
    Task<I>,
>) {
    let p = phase.index_spec();
    (TaskQueueModel { registry: m.registry, pending: m.pending.update(p, Seq::empty()) }, m.pending[p])
}

/// A per-phase FIFO of pending one-shot tasks, with a registration cache that
/// hands out one handle per distinct callable key.
pub struct TaskQueue<I> {
    registry: Vec<u64>,
    queues: Vec<Vec<Task<I>>>,
}

impl<I> View for TaskQueue<I> {
    type V = TaskQueueModel<I>;

    closed spec fn view(&self) -> TaskQueueModel<I> {
        TaskQueueModel {
            registry: self.registry@,
            pending: self.queues@.map_values(|q: Vec<Task<I>>| q@),
        }
    }
}

impl<I> TaskQueue<I> {
    /// Creates an empty queue: no registered callables, no pending tasks.
    pub fn new() -> (q: Self)
        ensures
            q@.wf(),
            q@.registry.len() == 0,
            forall|p: int| 0 <= p < PHASE_COUNT ==> q@.pending[p].len() == 0,
    {
        let mut queues: Vec<Vec<Task<I>>> = Vec::new();
        queues.push(Vec::new());
        queues.push(Vec::new());
        queues.push(Vec::new());
        queues.push(Vec::new());
        queues.push(Vec::new());
        TaskQueue { registry: Vec::new(), queues }
    }

    /// Registers a callable key, reusing the cached handle on repeat
    /// registrations.
    pub fn register(&mut self, key: u64) -> (h: usize)
        ensures
            final(self)@.pending == old(self)@.pending,
            (final(self)@.registry, h as int) == register_model(old(self)@.registry, key),
    {
        let ghost pre = *self;
        let mut i: usize = 0;
        while i < self.registry.len()
            invariant
                *self == pre,
                i <= pre.registry@.len(),
                forall|j: int| 0 <= j < i ==> pre.registry@[j] != key,
            decreases pre.registry@.len() - i,
        {
            if self.registry[i] == key {
                proof {
                    assert(pre.registry@.contains(key));
                    lemma_first_index_of(pre.registry@, key, i as int);
                }
                return i;
            }
            i = i + 1;
        }
        proof {
            assert(!pre.registry@.contains(key));
        }
        let h = self.registry.len();
        self.registry.push(key);
        h
    }

    /// Appends a task for the given callable key and input to the chosen
    /// phase's queue, registering the key if it is new.
    pub fn enqueue(&mut self, phase: Phase, key: u64, input: I)
        requires
            old(self)@.wf(),
        ensures
            final(self)@.wf(),
            final(self)@ == enqueue_model(old(self)@, phase, key, input),
    {
        let handle = self.register(key);
        let p = phase.index();
        self.queues[p].push(Task { handle, input });
        proof {
            assert(self@.pending =~= enqueue_model(old(self)@, phase, key, input).pending);
        }
    }

    /// Atomically takes the chosen phase's pending tasks, leaving its queue
    /// empty, and returns them in enqueue order for execution. Tasks enqueued
    /// after this call begins are not part of the returned batch.
    pub fn drain(&mut self, phase: Phase) -> (batch: Vec<Task<I>>)
        requires
            old(self)@.wf(),
        ensures
            final(self)@.wf(),
            (final(self)@, batch@) == drain_model(old(self)@, phase),
    {
        let p = phase.index();
        let mut batch: Vec<Task<I>> = Vec::new();
        std::mem::swap(&mut batch, &mut self.queues[p]);
        proof {
            assert(self@.pending =~= drain_model(old(self)@, phase).0.pending);
        }
        batch
    }

    /// How many tasks are pending in the chosen phase's queue.
    pub fn pending_count(&self, phase: Phase) -> (n: usize)
        requires
            self@.wf(),
        ensures
            n == self@.pending[phase.index_spec()].len(),
    {
        let p = phase.index();
        self.queues[p].len()
    }

    /// How many distinct callable keys have been registered.
    pub fn registered_count(&self) -> (n: usize)
        ensures
            n == self@.registry.len(),
    {
        self.registry.len()
    }
}

/// What enqueueing a whole sequence of `(key, input)` pairs does, first to
/// last.
pub open spec fn enqueue_all_model<I>(m: TaskQueueModel<I>, phase: Phase, reqs: Seq<(u64, I)>) -> TaskQueueModel<I>
    decreases reqs.len(),
{
    if reqs.len() == 0 {
        m
    } else {
        enqueue_all_model(enqueue_model(m, phase, reqs[0].0, reqs[0].1), phase, reqs.drop_first())
    }
}

/// The registry left after registering a sequence of `(key, input)` pairs,
/// and the task each pair becomes, in order.
pub open spec fn register_all_model<I>(registry: Seq<u64>, reqs: Seq<(u64, I)>) -> (
    Seq<u64>,
    Seq<Task<I>>,
)
    decreases reqs.len(),
{
    if reqs.len() == 0 {
        (registry, Seq::empty())
    } else {
        let (next, handle) = register_model(registry, reqs[0].0);
        let (last, tasks) = register_all_model(next, reqs.drop_first());
        (last, seq![Task { handle: handle as usize, input: reqs[0].1 }] + tasks)
    }
}

/// The tasks a sequence of pairs becomes carry the pairs' inputs, in order.
proof fn lemma_register_all_inputs<I>(registry: Seq<u64>, reqs: Seq<(u64, I)>)
    ensures
        register_all_model(registry, reqs).1.len() == reqs.len(),
        forall|i: int|
            0 <= i < reqs.len() ==> #[trigger] register_all_model(registry, reqs).1[i].input
                == reqs[i].1,
    decreases reqs.len(),
{
    if reqs.len() > 0 {
        let next = register_model(registry, reqs[0].0).0;
        lemma_register_all_inputs(next, reqs.drop_first());
    }
}

/// Enqueueing any number of tasks to a phase and then draining that phase
/// once hands back exactly those tasks, after the previously pending ones, in
/// enqueue order, and leaves the phase's queue empty. In particular, draining
/// an empty queue hands back nothing.
pub proof fn lemma_drain_runs_all_enqueued<I>(m: TaskQueueModel<I>, phase: Phase, reqs: Seq<(u64, I)>)
    requires
        m.wf(),
    ensures
        ({
            let p = phase.index_spec();
            let (registry, tasks) = register_all_model(m.registry, reqs);
            let (after, batch) = drain_model(enqueue_all_model(m, phase, reqs), phase);
            &&& batch == m.pending[p] + tasks
            &&& tasks.len() == reqs.len()
            &&& forall|i: int| 0 <= i < reqs.len() ==> #[trigger] tasks[i].input == reqs[i].1
            &&& after.pending[p].len() == 0
            &&& after.registry == registry
        }),
    decreases reqs.len(),
{
    let p = phase.index_spec();
    lemma_register_all_inputs(m.registry, reqs);
    if reqs.len() == 0 {
        assert(m.pending[p] + Seq::<Task<I>>::empty() =~= m.pending[p]);
    } else {
        let task = Task { handle: register_model(m.registry, reqs[0].0).1 as usize, input: reqs[0].1 };
        let m1 = enqueue_model(m, phase, reqs[0].0, reqs[0].1);
        assert(m1.wf());
        lemma_drain_runs_all_enqueued(m1, phase, reqs.drop_first());
        let rest = register_all_model(m1.registry, reqs.drop_first()).1;
        assert(m1.pending[p] == m.pending[p].push(task));
        assert(m.pending[p].push(task) + rest =~= m.pending[p] + (seq![task] + rest));
    }
}

/// A task enqueued while a drain of its phase is in progress is excluded from
/// that drain's batch and is handed back, alone, by the next drain of the
/// same phase.
pub proof fn lemma_enqueue_during_drain_deferred<I>(m: TaskQueueModel<I>, phase: Phase, key: u64, input: I)
    requires
        m.wf(),
    ensures
        ({
            let p = phase.index_spec();
            let (during, first_batch) = drain_model(m, phase);
            let enqueued = enqueue_model(during, phase, key, input);
            let (after, second_batch) = drain_model(enqueued, phase);
            &&& first_batch == m.pending[p]
            &&& second_batch == seq![
                Task::<I> { handle: register_model(m.registry, key).1 as usize, input },
            ]
            &&& after.pending[p].len() == 0
        }),
{
    let p = phase.index_spec();
    let during = drain_model(m, phase).0;
    let enqueued = enqueue_model(during, phase, key, input);
    assert(enqueued.pending[p] =~= seq![
        Task::<I> { handle: register_model(m.registry, key).1 as usize, input },
    ]);
}

/// The first occurrence of `key` really is the position `first_index_of`
/// computes: any index holding `key` with no earlier occurrence is it.
proof fn lemma_first_index_of(registry: Seq<u64>, key: u64, i: int)
    requires
        0 <= i < registry.len(),
        registry[i] == key,
        forall|j: int| 0 <= j < i ==> registry[j] != key,
    ensures
        first_index_of(registry, key) == i,
    decreases i,
{
    if i > 0 {
        lemma_first_index_of(registry.drop_first(), key, i - 1);
    }
}

} // verus!
