//! Bookkeeping of background tasks.
//!
//! The scheduler gives out identifiers and knows which tasks are active. Running the tasks,
//! waiting for their time and stopping them is left to the caller.

use crate::formatting::write_name;
use std::collections::HashMap;
use vstd::prelude::*;

verus! {

broadcast use vstd::std_specs::hash::group_hash_axioms;

/// The identifier of a task.
pub type TaskId = u64;

/// What a scheduler knows.
pub struct SchedulerView {
    /// The identifier of the next task.
    pub next_id: u64,
    /// The labels of the active tasks.
    pub tasks: Map<u64, Seq<char>>,
}

/// The scheduler of one-shot and periodic tasks.
pub struct TaskScheduler {
    next_id: u64,
    tasks: HashMap<u64, String>,
}

/// The identifier behind another one.
pub open spec fn id_after(id: u64) -> u64 {
    if id == u64::MAX {
        0
    } else {
        (id + 1) as u64
    }
}

/// The labels of tasks.
pub open spec fn labels(tasks: Map<u64, String>) -> Map<u64, Seq<char>> {
    tasks.map_values(|s: String| s@)
}

impl View for TaskScheduler {
    type V = SchedulerView;

    closed spec fn view(&self) -> SchedulerView {
        SchedulerView { next_id: self.next_id, tasks: labels(self.tasks@) }
    }
}

/// What a scheduler knows after a task was scheduled.
pub open spec fn scheduled(before: SchedulerView, label: Seq<char>) -> SchedulerView {
    SchedulerView {
        next_id: id_after(before.next_id),
        tasks: before.tasks.insert(before.next_id, label),
    }
}

/// What a scheduler knows after a task ended.
pub open spec fn ended(before: SchedulerView, id: TaskId) -> SchedulerView {
    SchedulerView { next_id: before.next_id, tasks: before.tasks.remove(id) }
}

impl core::fmt::Debug for TaskScheduler {
    /// Show the name of the type.
    fn fmt(&self, f: &mut core::fmt::Formatter<'_>) -> (r: core::fmt::Result) {
        write_name(f, "TaskScheduler")
    }
}

impl Default for TaskScheduler {
    fn default() -> (r: Self)
        ensures
            r@ == (SchedulerView { next_id: 1, tasks: Map::empty() }),
    {
        Self::new()
    }
}

impl TaskScheduler {
    /// A scheduler without tasks.
    pub fn new() -> (r: Self)
        ensures
            r@ == (SchedulerView { next_id: 1, tasks: Map::empty() }),
    {
        let r = TaskScheduler { next_id: 1, tasks: HashMap::new() };
        proof {
            assert(labels(r.tasks@) =~= Map::empty());
        }
        r
    }

    fn register(&mut self, label: &str) -> (r: TaskId)
        ensures
            r == old(self)@.next_id,
            final(self)@ == scheduled(old(self)@, label@),
    {
        let id: TaskId = self.next_id;
        self.next_id = if id == u64::MAX {
            0
        } else {
            id + 1
        };
        let _ = self.tasks.insert(id, label.to_owned());
        proof {
            assert(labels(self.tasks@) =~= labels(old(self).tasks@).insert(id, label@));
        }
        id
    }

    /// Schedule a task that runs once.
    pub fn schedule_once(&mut self, label: &str) -> (r: TaskId)
        ensures
            r == old(self)@.next_id,
            final(self)@ == scheduled(old(self)@, label@),
    {
        self.register(label)
    }

    /// Schedule a task that runs again and again.
    pub fn schedule_periodic(&mut self, label: &str) -> (r: TaskId)
        ensures
            r == old(self)@.next_id,
            final(self)@ == scheduled(old(self)@, label@),
    {
        self.register(label)
    }

    /// Take note that a task that runs once has run.
    pub fn complete(&mut self, id: TaskId)
        ensures
            final(self)@ == ended(old(self)@, id),
    {
        let _ = self.cancel(id);
    }

    /// Cancel a task, and say whether it was active.
    pub fn cancel(&mut self, id: TaskId) -> (r: bool)
        ensures
            r == old(self)@.tasks.contains_key(id),
            final(self)@ == ended(old(self)@, id),
    {
        let found = self.tasks.remove(&id);
        proof {
            assert(labels(self.tasks@) =~= labels(old(self).tasks@).remove(id));
        }
        found.is_some()
    }

    /// The number of active tasks.
    pub fn active_count(&self) -> (r: usize)
        ensures
            r == self@.tasks.len(),
    {
        proof {
            assert(labels(self.tasks@).dom() =~= self.tasks@.dom());
        }
        self.tasks.len()
    }

    /// Cancel all tasks, and hand over their labels.
    pub fn shutdown(&mut self) -> (r: HashMap<TaskId, String>)
        ensures
            labels(r@) == old(self)@.tasks,
            final(self)@ == (SchedulerView {
                next_id: old(self)@.next_id,
                tasks: Map::empty(),
            }),
    {
        let mut tasks: HashMap<u64, String> = HashMap::new();
        std::mem::swap(&mut tasks, &mut self.tasks);
        proof {
            assert(labels(self.tasks@) =~= Map::empty());
        }
        tasks
    }
}

/// The count of the ticks of a periodic task.
///
/// The first tick comes at once. It starts the waiting and is not handed to the task.
#[derive(Debug)]
pub struct TickCounter {
    ticks: u64,
}

impl View for TickCounter {
    type V = u64;

    closed spec fn view(&self) -> u64 {
        self.ticks
    }
}

impl TickCounter {
    /// No tick has come.
    pub fn new() -> (r: Self)
        ensures
            r@ == 0,
    {
        TickCounter { ticks: 0 }
    }

    /// A tick has come: the number that the task is run with, if it is run.
    pub fn tick(&mut self) -> (r: Option<u64>)
        requires
            old(self)@ < u64::MAX,
        ensures
            final(self)@ == old(self)@ + 1,
            r == if old(self)@ == 0 {
                None::<u64>
            } else {
                Some(old(self)@)
            },
    {
        let count: u64 = self.ticks;
        self.ticks = count + 1;
        if count == 0 {
            None
        } else {
            Some(count)
        }
    }
}

/// Tasks that are scheduled one after the other have different identifiers, and both are active.
pub proof fn law_tasks_have_their_own_ids(before: SchedulerView, first: Seq<char>, second: Seq<char>)
    ensures
        ({
            let between = scheduled(before, first);
            let after = scheduled(between, second);
            &&& before.next_id != between.next_id
            &&& after.tasks.contains_key(before.next_id) && after.tasks[before.next_id] == first
            &&& after.tasks.contains_key(between.next_id) && after.tasks[between.next_id] == second
        }),
{
}

/// Every active task has an identifier that was given out before the next one.
pub open spec fn ids_are_past(state: SchedulerView) -> bool {
    forall|id: u64| #[trigger] state.tasks.contains_key(id) ==> id < state.next_id
}

/// Until the identifiers are used up, a new task takes the place of no active one.
pub proof fn law_new_id_is_fresh(before: SchedulerView, label: Seq<char>, id: TaskId)
    requires
        ids_are_past(before),
        before.next_id < u64::MAX,
    ensures
        !before.tasks.contains_key(before.next_id),
        ids_are_past(scheduled(before, label)),
        ids_are_past(ended(before, id)),
{
}

/// To cancel a task that was just scheduled leaves the tasks that were active before.
pub proof fn law_cancel_undoes_schedule(before: SchedulerView, label: Seq<char>)
    requires
        !before.tasks.contains_key(before.next_id),
    ensures
        ended(scheduled(before, label), before.next_id).tasks == before.tasks,
{
    assert(before.tasks.insert(before.next_id, label).remove(before.next_id) =~= before.tasks);
}

/// After a task ended, it cannot be cancelled any more.
pub proof fn law_ended_task_is_not_active(before: SchedulerView, id: TaskId)
    ensures
        !ended(before, id).tasks.contains_key(id),
{
}

/// Identifiers count up, and start again at zero behind the largest.
pub proof fn law_identifiers_count_up(id: u64)
    ensures
        id < u64::MAX ==> id_after(id) == id + 1,
        id_after(u64::MAX) == 0,
{
}

/// A scheduled task is active under the next identifier with its label, and every other task
/// stays as it was. The identifier behind it comes next.
pub proof fn law_scheduled_task_is_active(before: SchedulerView, label: Seq<char>, other: TaskId)
    ensures
        ({
            let after = scheduled(before, label);
            &&& after.tasks.contains_key(before.next_id)
            &&& after.tasks[before.next_id] == label
            &&& before.next_id < u64::MAX ==> after.next_id == before.next_id + 1
            &&& before.next_id == u64::MAX ==> after.next_id == 0
            &&& other != before.next_id ==> after.tasks.contains_key(other)
                == before.tasks.contains_key(other)
            &&& other != before.next_id && before.tasks.contains_key(other) ==> after.tasks[other]
                == before.tasks[other]
        }),
{
}

/// A task that ended is gone, every other task stays as it was, and no identifier is used for it.
pub proof fn law_ended_task_leaves_the_others(before: SchedulerView, id: TaskId, other: TaskId)
    ensures
        ({
            let after = ended(before, id);
            &&& !after.tasks.contains_key(id)
            &&& after.next_id == before.next_id
            &&& other != id ==> after.tasks.contains_key(other) == before.tasks.contains_key(other)
            &&& other != id && before.tasks.contains_key(other) ==> after.tasks[other]
                == before.tasks[other]
        }),
{
}

/// The labels of tasks are the texts under the same identifiers.
pub proof fn law_labels_are_the_texts(tasks: Map<u64, String>, id: TaskId)
    ensures
        labels(tasks).contains_key(id) <==> tasks.contains_key(id),
        tasks.contains_key(id) ==> labels(tasks)[id] == tasks[id]@,
{
}

} // verus!
