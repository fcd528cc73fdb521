//! Tasks that a program spawns and joins.
use vstd::prelude::*;
use crate::async_runtime::{
    EventKind, EventView, JoinHandle, OutcomeView, Scheduler, SchedulerView, ScopeId, TaskId, TaskOutcome,
    TaskStateView, TraceEvent,
};
use crate::execute::failure::{Failure, PartView};
use crate::lowered::ir::RuntimeValue;
use crate::lowered::view::{self, ValueView};
use crate::text::{concat_three, concat_two, decimal_text};

verus! {

/// The tasks that have not been joined, with the values they are joined with.
pub struct TasksView {
    pub next: u64,
    pub pending: Seq<(u64, ValueView)>,
    pub scheduler: SchedulerView,
}

pub open spec fn pending_place(pending: Seq<(u64, ValueView)>, from: int, id: u64) -> int
    decreases pending.len() - from,
{
    if from < 0 || from >= pending.len() {
        pending.len() as int
    } else if pending[from].0 == id {
        from
    } else {
        pending_place(pending, from + 1, id)
    }
}

pub open spec fn unknown_task(id: u64) -> Seq<PartView> {
    crate::execute::failure::text_failure(
        "E-TASK-003: task handle `"@ + crate::text::decimal(id as nat) + "` is unknown or already joined"@,
    )
}

impl TasksView {
    pub open spec fn initial() -> TasksView {
        TasksView { next: 1, pending: Seq::empty(), scheduler: SchedulerView::initial(Set::empty()) }
    }

    /// A task is spawned that is joined with `value`.
    pub open spec fn spawned(self, value: ValueView) -> TasksView {
        TasksView {
            next: (self.next + 1) as u64,
            pending: self.pending.push((self.next, value)),
            scheduler: self.scheduler.spawned(
                ScopeId(1),
                self.scheduler.now,
                OutcomeView::Completed("source-task-"@ + crate::text::decimal(self.next as nat)),
            ),
        }
    }

    /// The task of handle `id` is joined: each handle gives its value once.
    pub open spec fn joined(self, id: u64) -> Result<(ValueView, TasksView), Seq<PartView>> {
        let place = pending_place(self.pending, 0, id);
        if place >= self.pending.len() {
            Err(unknown_task(id))
        } else {
            Ok(
                (
                    self.pending[place].1,
                    TasksView {
                        next: self.next,
                        pending: self.pending.remove(place),
                        scheduler: self.scheduler.advanced(self.scheduler.now).traced(
                            EventView::task(
                                self.scheduler.now,
                                EventKind::JoinCompleted,
                                self.scheduler.advanced(self.scheduler.now).task(TaskId(id)).scope,
                                TaskId(id),
                            ),
                        ),
                    },
                ),
            )
        }
    }
}

#[derive(Debug)]
struct PendingTask {
    id: u64,
    handle: JoinHandle,
    result: RuntimeValue,
}

/// The source-level tasks of a run. Handle `n` stands for task `n` of the
/// scheduler's root scope.
#[derive(Debug)]
pub struct SourceTaskRuntime {
    scheduler: Scheduler,
    next_handle: u64,
    pending: Vec<PendingTask>,
}

spec fn pending_view(tasks: Seq<PendingTask>) -> Seq<(u64, ValueView)> {
    Seq::new(tasks.len(), |i: int| (tasks[i].id, view::value(tasks[i].result)))
}

/// A task that joins after the clock is told the time.
spec fn joinable(state: SchedulerView, id: TaskId) -> bool {
    state.has_task(id) && match state.task(id).state {
        TaskStateView::Waiting { at, .. } => at <= state.now,
        TaskStateView::Terminal(_) => true,
    }
}

impl SourceTaskRuntime {
    pub closed spec fn view(&self) -> TasksView {
        TasksView { next: self.next_handle, pending: pending_view(self.pending@), scheduler: self.scheduler@ }
    }

    pub closed spec fn well_formed(&self) -> bool {
        &&& self.scheduler@.well_formed()
        &&& self.scheduler@.scopes.len() == 1
        &&& !self.scheduler@.scopes[0].closed
        &&& self.scheduler@.scopes[0].cancelled is None
        &&& self.scheduler@.scopes[0].deadline is None
        &&& self.next_handle == self.scheduler@.tasks.len() + 1
        &&& forall|i: int|
            0 <= i < self.pending@.len() ==> {
                let task = #[trigger] self.pending@[i];
                task.handle.id() == TaskId(task.id) && !task.handle.used() && joinable(self.scheduler@, TaskId(task.id))
            }
    }

    pub fn new() -> (tasks: SourceTaskRuntime)
        ensures
            tasks.well_formed(),
            tasks@ == TasksView::initial(),
    {
        let grants: Vec<crate::async_runtime::CapabilityGrant> = Vec::new();
        let tasks = SourceTaskRuntime { scheduler: Scheduler::new(grants), next_handle: 1, pending: Vec::new() };
        assert(crate::async_runtime::grant_set(grants@) =~= Set::<crate::async_runtime::GrantView>::empty());
        assert(pending_view(tasks.pending@) =~= Seq::<(u64, ValueView)>::empty());
        tasks
    }

    /// How many tasks have not been joined.
    pub fn pending(&self) -> (count: usize)
        ensures
            count == self@.pending.len(),
    {
        self.pending.len()
    }

    /// What the scheduler recorded.
    pub fn trace(&self) -> (trace: &[TraceEvent])
        ensures
            crate::async_runtime::events(trace@) == self@.scheduler.trace,
    {
        self.scheduler.trace()
    }

    /// The handle that the next task gets.
    pub fn next(&self) -> (id: u64)
        ensures
            id == self@.next,
    {
        self.next_handle
    }

    /// Spawns a task that is joined with `result`.
    pub fn spawn(&mut self, result: RuntimeValue) -> (id: u64)
        requires
            old(self).well_formed(),
            old(self)@.next < u64::MAX,
        ensures
            final(self).well_formed(),
            id == old(self)@.next,
            final(self)@ == old(self)@.spawned(view::value(result)),
    {
        let ghost before = *self;
        let id = self.next_handle;
        self.next_handle = self.next_handle + 1;
        let number = decimal_text(id);
        let outcome = TaskOutcome::Completed(concat_two("source-task-", number.as_str()));
        let root = self.scheduler.root();
        let now = self.scheduler.now();
        match self.scheduler.spawn_scripted(root, now, outcome) {
            Ok(handle) => {
                self.pending.push(PendingTask { id, handle, result });
                proof {
                    assert(self@.pending =~= before@.pending.push((id, view::value(result))));
                    assert forall|i: int| 0 <= i < self.pending@.len() implies {
                        let task = #[trigger] self.pending@[i];
                        task.handle.id() == TaskId(task.id) && !task.handle.used() && joinable(
                            self.scheduler@,
                            TaskId(task.id),
                        )
                    } by {
                        if i < before.pending@.len() {
                            assert(self.pending@[i] == before.pending@[i]);
                        }
                    }
                }
            }
            Err(_) => {
                proof {
                    assert(false);
                }
            }
        }
        id
    }

    /// Joins the task of handle `id`.
    pub fn join(&mut self, id: u64) -> (result: Result<RuntimeValue, Failure>)
        requires
            old(self).well_formed(),
        ensures
            final(self).well_formed(),
            match result {
                Ok(value) => old(self)@.joined(id) == Ok::<(ValueView, TasksView), Seq<PartView>>(
                    (view::value(value), final(self)@),
                ),
                Err(failure) => old(self)@.joined(id) == Err::<(ValueView, TasksView), Seq<PartView>>(failure@)
                    && final(self)@ == old(self)@,
            },
    {
        let ghost before = *self;
        let ghost all = self@.pending;
        let mut i: usize = 0;
        while i < self.pending.len() && self.pending[i].id != id
            invariant
                i <= self.pending.len(),
                *self == *old(self),
                all == pending_view(self.pending@),
                pending_place(all, 0, id) == pending_place(all, i as int, id),
            decreases self.pending.len() - i,
        {
            i += 1;
        }
        if i >= self.pending.len() {
            let number = decimal_text(id);
            let text = concat_three("E-TASK-003: task handle `", number.as_str(), "` is unknown or already joined");
            return Err(Failure::text(text.as_str()));
        }
        assert(self.pending@[i as int] == before.pending@[i as int]);
        let task = self.pending.remove(i);
        let mut handle = task.handle;
        let now = self.scheduler.now();
        proof {
            assert(joinable(before.scheduler@, TaskId(id)));
            crate::async_runtime::law_due_tasks_end(self.scheduler@, now, TaskId(id));
            assert(self.scheduler@.overdue(1, now) =~= Seq::<ScopeId>::empty());
            assert(self.scheduler@.overdue(0, now) =~= Seq::<ScopeId>::empty());
            crate::async_runtime::law_nothing_is_undone(
                self.scheduler@,
                ScopeId(1),
                crate::async_runtime::CancelReason::Explicit,
                now,
            );
            lemma_advanced(self.scheduler@, now);
            assert forall|k: int| 0 <= k < before.pending@.len() implies joinable(
                before.scheduler@.advanced(now),
                TaskId((#[trigger] before.pending@[k]).id),
            ) by {
                let other = TaskId(before.pending@[k].id);
                crate::async_runtime::law_due_tasks_end(before.scheduler@, now, other);
            }
        }
        self.scheduler.advance_to(now);
        let ghost advanced = self.scheduler@;
        match self.scheduler.join(&mut handle) {
            Ok(_) => {}
            Err(_) => {
                proof {
                    assert(false);
                }
            }
        }
        proof {
            assert(pending_view(self.pending@) =~= all.remove(i as int));
            assert forall|k: int| 0 <= k < self.pending@.len() implies {
                let task = #[trigger] self.pending@[k];
                task.handle.id() == TaskId(task.id) && !task.handle.used() && joinable(self.scheduler@, TaskId(task.id))
            } by {
                if k < i {
                    assert(self.pending@[k] == before.pending@[k]);
                } else {
                    assert(self.pending@[k] == before.pending@[k + 1]);
                }
            }
        }
        Ok(task.result)
    }
}

/// Telling a scheduler without deadlines the time it is leaves its scopes alone.
proof fn lemma_advanced(state: SchedulerView, now: u64)
    requires
        state.well_formed(),
        state.overdue(0, now) == Seq::<ScopeId>::empty(),
        state.now == now,
    ensures
        state.advanced(now).scopes == state.scopes,
        state.advanced(now).tasks.len() == state.tasks.len(),
        state.advanced(now).now == now,
{
    assert(SchedulerView { now, ..state } == state);
    lemma_completed_scopes(state, 0, now);
}

proof fn lemma_completed_scopes(state: SchedulerView, from: int, at: u64)
    requires
        0 <= from,
    ensures
        state.completed(from, at).scopes == state.scopes,
        state.completed(from, at).tasks.len() == state.tasks.len(),
        state.completed(from, at).now == state.now,
    decreases state.tasks.len() - from,
{
    if from < state.tasks.len() && from < u64::MAX {
        if state.is_due(from, at) {
            let next = state.finished(
                TaskId((from + 1) as u64),
                state.tasks[from].scope,
                state.tasks[from].state->outcome,
            );
            lemma_completed_scopes(next, from + 1, at);
        } else {
            lemma_completed_scopes(state, from + 1, at);
        }
    }
}

/// A handle is affine: once it is joined, joining it again is an error.
pub proof fn law_join_consumes_the_handle(tasks: TasksView, id: u64)
    requires
        tasks.joined(id) is Ok,
        forall|i: int, j: int|
            0 <= i < j < tasks.pending.len() ==> (#[trigger] tasks.pending[i]).0 != (#[trigger] tasks.pending[j]).0,
    ensures
        tasks.joined(id)->Ok_0.1.joined(id) is Err,
{
    let place = pending_place(tasks.pending, 0, id);
    lemma_pending_place(tasks.pending, 0, id);
    let rest = tasks.pending.remove(place);
    lemma_pending_place(rest, 0, id);
    let other = pending_place(rest, 0, id);
    if other < rest.len() {
        if other < place {
            assert(rest[other] == tasks.pending[other]);
        } else {
            assert(rest[other] == tasks.pending[other + 1]);
        }
    }
}

proof fn lemma_pending_place(pending: Seq<(u64, ValueView)>, from: int, id: u64)
    requires
        0 <= from <= pending.len(),
    ensures
        from <= pending_place(pending, from, id) <= pending.len(),
        pending_place(pending, from, id) < pending.len() ==> pending[pending_place(pending, from, id)].0 == id,
    decreases pending.len() - from,
{
    if from < pending.len() && pending[from].0 != id {
        lemma_pending_place(pending, from + 1, id);
    }
}

} // verus!
