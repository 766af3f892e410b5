use moonshine_util::defer::{Task, TaskQueue};
use moonshine_util::phase::Phase;

/// A minimal entity/attribute store standing in for the host store: one
/// entity with a list of attribute type keys.
struct MiniStore {
    entity: u64,
    attrs: Vec<u64>,
}

impl MiniStore {
    fn new(entity: u64) -> Self {
        MiniStore { entity, attrs: Vec::new() }
    }

    fn insert_attr(&mut self, entity: u64, attr: u64) {
        assert_eq!(entity, self.entity);
        if !self.attrs.contains(&attr) {
            self.attrs.push(attr);
        }
    }
}

#[test]
fn phase_order_is_fixed() {
    assert_eq!(Phase::Setup.index(), 0);
    assert_eq!(Phase::PreLogic.index(), 1);
    assert_eq!(Phase::Logic.index(), 2);
    assert_eq!(Phase::PostLogic.index(), 3);
    assert_eq!(Phase::Finalize.index(), 4);
}

#[test]
fn test_deferred_system() {
    let mut queue: TaskQueue<u64> = TaskQueue::new();
    let mut success_markers: Vec<u64> = Vec::new();

    queue.enqueue(Phase::Logic, 1, 100);

    // Before the phase is drained, nothing has run.
    assert!(success_markers.is_empty());
    assert_eq!(queue.pending_count(Phase::Logic), 1);

    // The frame driver drains the phase and executes the batch.
    let batch = queue.drain(Phase::Logic);
    for task in batch {
        success_markers.push(task.input);
    }
    assert!(success_markers.contains(&100));
    success_markers.clear();

    // The task ran once; a second drain executes nothing.
    let batch = queue.drain(Phase::Logic);
    assert!(batch.is_empty());
    assert!(success_markers.is_empty());
}

#[test]
fn drain_executes_all_in_enqueue_order() {
    let mut queue: TaskQueue<u64> = TaskQueue::new();
    queue.enqueue(Phase::Logic, 1, 10);
    queue.enqueue(Phase::Logic, 2, 20);
    queue.enqueue(Phase::Logic, 1, 30);

    let batch = queue.drain(Phase::Logic);
    let inputs: Vec<u64> = batch.iter().map(|t| t.input).collect();
    assert_eq!(inputs, vec![10, 20, 30]);
    assert_eq!(queue.pending_count(Phase::Logic), 0);
}

#[test]
fn drain_on_empty_queue_executes_nothing() {
    let mut queue: TaskQueue<u64> = TaskQueue::new();
    let batch = queue.drain(Phase::Logic);
    assert!(batch.is_empty());
}

#[test]
fn drain_takes_only_its_own_phase() {
    let mut queue: TaskQueue<u64> = TaskQueue::new();
    queue.enqueue(Phase::PreLogic, 1, 10);
    queue.enqueue(Phase::Logic, 1, 20);

    let batch = queue.drain(Phase::Logic);
    assert_eq!(batch.len(), 1);
    assert_eq!(batch[0].input, 20);
    assert_eq!(queue.pending_count(Phase::PreLogic), 1);
}

#[test]
fn task_enqueued_during_drain_runs_next_drain() {
    let mut queue: TaskQueue<u64> = TaskQueue::new();
    queue.enqueue(Phase::Logic, 1, 10);

    let first_batch = queue.drain(Phase::Logic);
    // The batch executes; one task enqueues a follow-up into the same phase.
    let mut executed: Vec<u64> = Vec::new();
    for task in &first_batch {
        executed.push(task.input);
        queue.enqueue(Phase::Logic, 2, 99);
    }
    // The follow-up is excluded from the drain that was in progress.
    assert_eq!(executed, vec![10]);
    assert_eq!(first_batch.len(), 1);

    // The next drain of the same phase executes it.
    let second_batch = queue.drain(Phase::Logic);
    assert_eq!(second_batch.len(), 1);
    assert_eq!(second_batch[0].input, 99);
}

#[test]
fn repeat_registration_reuses_handle() {
    let mut queue: TaskQueue<u64> = TaskQueue::new();
    let first = queue.register(7);
    let second = queue.register(8);
    let again = queue.register(7);
    assert_eq!(first, again);
    assert_ne!(first, second);
    assert_eq!(queue.registered_count(), 2);
}

#[test]
fn enqueue_caches_callable_per_identity() {
    let mut queue: TaskQueue<u64> = TaskQueue::new();
    queue.enqueue(Phase::Logic, 7, 1);
    queue.enqueue(Phase::Logic, 7, 2);
    queue.enqueue(Phase::Logic, 9, 3);
    assert_eq!(queue.registered_count(), 2);

    let batch: Vec<Task<u64>> = queue.drain(Phase::Logic);
    assert_eq!(batch[0].handle, batch[1].handle);
    assert_ne!(batch[0].handle, batch[2].handle);
}

#[test]
fn three_tasks_insert_three_markers() {
    let entity = 42;
    let mut store = MiniStore::new(entity);
    let mut queue: TaskQueue<u64> = TaskQueue::new();

    queue.enqueue(Phase::Logic, 1, 101);
    queue.enqueue(Phase::Logic, 2, 102);
    queue.enqueue(Phase::Logic, 3, 103);

    let batch = queue.drain(Phase::Logic);
    for task in batch {
        store.insert_attr(entity, task.input);
    }
    assert_eq!(store.attrs, vec![101, 102, 103]);

    // A second drain with no new enqueues changes nothing.
    let batch = queue.drain(Phase::Logic);
    assert!(batch.is_empty());
    assert_eq!(store.attrs, vec![101, 102, 103]);
}

#[test]
fn failing_task_does_not_abort_batch() {
    // The executor recovers a per-task failure and keeps going: every task of
    // the batch is attempted, in order.
    let mut queue: TaskQueue<u64> = TaskQueue::new();
    queue.enqueue(Phase::Finalize, 1, 1);
    queue.enqueue(Phase::Finalize, 2, 2);
    queue.enqueue(Phase::Finalize, 3, 3);

    let mut attempted: Vec<u64> = Vec::new();
    let mut failures: Vec<u64> = Vec::new();
    for task in queue.drain(Phase::Finalize) {
        attempted.push(task.input);
        let failed = task.input == 2;
        if failed {
            failures.push(task.input);
        }
    }
    assert_eq!(attempted, vec![1, 2, 3]);
    assert_eq!(failures, vec![2]);
}
