//! What holds of the clock, of closing and of the trace of a scheduler.
use vstd::prelude::*;
use crate::async_runtime::{
    self, CancelReason, EventKind, EventView, GrantView, OutcomeView, ResourceId, SchedulerView, ScopeId, ScopeView,
    TaskId, TaskStateView,
};

verus! {

// The clock.

/// Where a task stands once the clock has moved to an instant, by where it stood
/// and whether its scope is cancelled by then.
pub open spec fn settled_task(before: TaskStateView, scope_cancelled: bool, at: u64) -> TaskStateView {
    match before {
        TaskStateView::Terminal(_) => before,
        TaskStateView::Waiting { at: due, outcome } => if scope_cancelled {
            TaskStateView::Terminal(OutcomeView::Cancelled(CancelReason::ParentCancelled))
        } else if due <= at {
            TaskStateView::Terminal(outcome)
        } else {
            before
        },
    }
}

proof fn lemma_completes_exactly(state: SchedulerView, from: int, at: u64, index: int)
    requires
        state.shaped(),
        0 <= from,
        0 <= index < state.tasks.len(),
    ensures
        state.completed(from, at).tasks[index].state == (if index >= from {
            settled_task(state.tasks[index].state, false, at)
        } else {
            state.tasks[index].state
        }),
    decreases state.tasks.len() - from,
{
    if from < state.tasks.len() {
        if state.is_due(from, at) {
            let next = state.finished(
                TaskId((from + 1) as u64),
                state.tasks[from].scope,
                state.tasks[from].state->outcome,
            );
            assert(async_runtime::extends(state, next)) by {
                assert(state.trace =~= next.trace.take(state.trace.len() as int));
            }
            async_runtime::lemma_extends_shaped(state, next);
            lemma_completes_exactly(next, from + 1, at, index);
        } else {
            lemma_completes_exactly(state, from + 1, at, index);
        }
    }
}

/// Moving the clock settles every task: one that has ended stays as it ended;
/// one that waits is cancelled where its scope is cancelled by then, ends as it
/// was to end where it is due, and else goes on waiting. Every scope that is
/// overdue is cancelled.
pub proof fn law_advancing_settles_every_task(state: SchedulerView, at: u64, task: TaskId, scope: ScopeId)
    requires
        state.well_formed(),
        state.has_task(task),
        state.has_scope(scope),
    ensures
        state.advanced(at).now == at,
        state.advanced(at).task(task).scope == state.task(task).scope,
        state.advanced(at).task(task).state == settled_task(
            state.task(task).state,
            state.advanced(at).scope(state.task(task).scope).cancelled is Some,
            at,
        ),
        state.is_overdue(scope.0 - 1, at) ==> state.advanced(at).scope(scope).cancelled is Some,
{
    let clock = SchedulerView { now: at, ..state };
    async_runtime::lemma_clock_well_formed(state, at);
    let ids = clock.overdue(0, at);
    async_runtime::lemma_overdue_known(clock, 0, at);
    async_runtime::lemma_expired_cancels(clock, ids, 0);
    async_runtime::lemma_expired(clock, ids, 0);
    let middle = clock.expired(ids, 0);
    async_runtime::lemma_extends_well_formed(clock, middle);
    async_runtime::lemma_completed(middle, 0, at);
    let index = task.0 - 1;
    lemma_completes_exactly(middle, 0, at, index);
    assert(clock.task_ok(clock.tasks[index], index));
    assert(async_runtime::task_extends(clock.tasks[index], middle.tasks[index]));
    assert(async_runtime::task_extends(middle.tasks[index], middle.completed(0, at).tasks[index]));
    assert(!middle.stranded(index));
    lemma_cancelled_with_scope(clock, ids, 0, index);
    if state.is_overdue(scope.0 - 1, at) {
        assert(clock.is_overdue(scope.0 - 1, at));
        async_runtime::lemma_overdue(clock, 0, at, scope.0 - 1);
        let k = choose|k: int| 0 <= k < ids.len() && ids[k] == ScopeId((scope.0 - 1 + 1) as u64);
        assert(ids[k] == scope);
    }
}

/// Whether a task of `before` that is not the same in `after` has its scope
/// cancelled there.
pub open spec fn ends_with_its_scope(before: SchedulerView, after: SchedulerView, index: int) -> bool {
    after.tasks[index] == before.tasks[index] || after.scope(before.tasks[index].scope).cancelled is Some
}

proof fn lemma_tasks_end_with_scope(state: SchedulerView, tasks: Seq<TaskId>, from: int, scope: ScopeId, index: int)
    requires
        state.shaped(),
        state.has_scope(scope),
        state.scope(scope).cancelled is Some,
        0 <= from,
        0 <= index < state.tasks.len(),
        forall|k: int|
            0 <= k < tasks.len() ==> state.has_task(#[trigger] tasks[k]) && state.task(tasks[k]).scope == scope,
    ensures
        ends_with_its_scope(state, state.cancelled_tasks(tasks, from, scope), index),
        state.cancelled_tasks(tasks, from, scope).scopes == state.scopes,
    decreases tasks.len() - from,
{
    if from < tasks.len() {
        if state.task(tasks[from]).state is Waiting {
            let next = state.finished(
                tasks[from],
                scope,
                OutcomeView::Cancelled(CancelReason::ParentCancelled),
            );
            assert(async_runtime::extends(state, next)) by {
                assert(state.trace =~= next.trace.take(state.trace.len() as int));
            }
            async_runtime::lemma_extends_shaped(state, next);
            lemma_tasks_end_with_scope(next, tasks, from + 1, scope, index);
        } else {
            lemma_tasks_end_with_scope(state, tasks, from + 1, scope, index);
        }
    }
}

proof fn lemma_ends_with_scope(state: SchedulerView, id: ScopeId, reason: CancelReason, index: int)
    requires
        state.shaped(),
        0 <= index < state.tasks.len(),
    ensures
        ends_with_its_scope(state, state.cancelled(id, reason), index),
    decreases u64::MAX - id.0, 1int, 0int,
{
    if state.has_scope(id) && !(state.scope(id).cancelled is Some) && !state.scope(id).closed {
        let scope = state.scope(id);
        assert(state.scope_ok(scope, id.0 - 1));
        let marked = state.with_scope(id, ScopeView { cancelled: Some(reason), ..scope }).traced(
            EventView::cancel(state.now, EventKind::ScopeCancelled, id, reason),
        );
        async_runtime::lemma_marked_shaped(state, marked, id, reason);
        lemma_children_end_with_scope(marked, scope.children, 0, id, index);
        async_runtime::lemma_cancelled_children(marked, scope.children, 0, id);
        let inner = marked.cancelled_children(scope.children, 0, id);
        assert(async_runtime::scope_extends(marked.scopes[id.0 - 1], inner.scopes[id.0 - 1]));
        assert(inner.scope_ok(inner.scopes[id.0 - 1], id.0 - 1));
        lemma_tasks_end_with_scope(inner, scope.tasks, 0, id, index);
        assert(state.task_ok(state.tasks[index], index));
        assert(async_runtime::task_extends(marked.tasks[index], inner.tasks[index]));
    }
}

proof fn lemma_children_end_with_scope(
    state: SchedulerView,
    children: Seq<ScopeId>,
    from: int,
    owner: ScopeId,
    index: int,
)
    requires
        state.shaped(),
        0 <= from,
        0 <= index < state.tasks.len(),
    ensures
        ends_with_its_scope(state, state.cancelled_children(children, from, owner), index),
    decreases u64::MAX - owner.0, 0int, children.len() - from,
{
    if from < children.len() && children[from].0 > owner.0 {
        let reason = CancelReason::ParentCancelled;
        lemma_ends_with_scope(state, children[from], reason, index);
        async_runtime::lemma_cancelled(state, children[from], reason);
        let next = state.cancelled(children[from], reason);
        lemma_children_end_with_scope(next, children, from + 1, owner, index);
        async_runtime::lemma_cancelled_children(next, children, from + 1, owner);
        let last = next.cancelled_children(children, from + 1, owner);
        lemma_end_stays(state, next, last, index);
    }
}

proof fn lemma_end_stays(first: SchedulerView, second: SchedulerView, third: SchedulerView, index: int)
    requires
        first.shaped(),
        0 <= index < first.tasks.len(),
        async_runtime::extends(first, second),
        async_runtime::extends(second, third),
        ends_with_its_scope(first, second, index),
        ends_with_its_scope(second, third, index),
    ensures
        ends_with_its_scope(first, third, index),
{
    assert(first.task_ok(first.tasks[index], index));
    assert(async_runtime::task_extends(first.tasks[index], second.tasks[index]));
    let scope = first.tasks[index].scope;
    assert(async_runtime::scope_extends(second.scopes[scope.0 - 1], third.scopes[scope.0 - 1]));
}

proof fn lemma_cancelled_with_scope(state: SchedulerView, ids: Seq<ScopeId>, from: int, index: int)
    requires
        state.shaped(),
        0 <= from,
        0 <= index < state.tasks.len(),
    ensures
        ends_with_its_scope(state, state.expired(ids, from), index),
    decreases ids.len() - from,
{
    if from < ids.len() {
        lemma_ends_with_scope(state, ids[from], CancelReason::Deadline, index);
        async_runtime::lemma_cancelled(state, ids[from], CancelReason::Deadline);
        let next = state.cancelled(ids[from], CancelReason::Deadline);
        lemma_cancelled_with_scope(next, ids, from + 1, index);
        async_runtime::lemma_expired(next, ids, from + 1);
        lemma_end_stays(state, next, next.expired(ids, from + 1), index);
    }
}

proof fn lemma_none_overdue(state: SchedulerView, from: int, at: u64)
    requires
        0 <= from,
        forall|i: int| 0 <= i < state.scopes.len() ==> !#[trigger] state.is_overdue(i, at),
    ensures
        state.overdue(from, at) == Seq::<ScopeId>::empty(),
    decreases state.scopes.len() - from,
{
    if from < state.scopes.len() {
        assert(!state.is_overdue(from, at));
        lemma_none_overdue(state, from + 1, at);
    }
}

proof fn lemma_none_due(state: SchedulerView, from: int, at: u64)
    requires
        0 <= from,
        forall|i: int| 0 <= i < state.tasks.len() ==> !#[trigger] state.is_due(i, at),
    ensures
        state.completed(from, at) == state,
    decreases state.tasks.len() - from,
{
    if from < state.tasks.len() {
        assert(!state.is_due(from, at));
        lemma_none_due(state, from + 1, at);
    }
}

/// Moving the clock to where it stands changes nothing once it has moved there:
/// the trace does not grow.
pub proof fn law_advancing_again_changes_nothing(state: SchedulerView, at: u64)
    requires
        state.well_formed(),
    ensures
        state.advanced(at).advanced(at) == state.advanced(at),
{
    let after = state.advanced(at);
    let clock = SchedulerView { now: at, ..state };
    async_runtime::law_nothing_is_undone(state, ScopeId(1), CancelReason::Deadline, at);
    assert(after.now == at);
    assert(clock.scopes.len() == after.scopes.len());
    assert forall|i: int| 0 <= i < after.scopes.len() implies !#[trigger] after.is_overdue(i, at) by {
        assert(async_runtime::scope_extends(clock.scopes[i], after.scopes[i]));
        if after.is_overdue(i, at) {
            assert(state.is_overdue(i, at));
            lemma_overdue_cancelled(state, at, ScopeId((i + 1) as u64));
        }
    }
    assert forall|i: int| 0 <= i < after.tasks.len() implies !#[trigger] after.is_due(i, at) by {
        let task = TaskId((i + 1) as u64);
        assert(state.has_task(task));
        law_advancing_settles_every_task(state, at, task, ScopeId(1));
        assert(async_runtime::task_extends(clock.tasks[i], after.tasks[i]));
    }
    assert((SchedulerView { now: at, ..after }) == after);
    lemma_none_overdue(after, 0, at);
    assert(after.expired(Seq::empty(), 0) == after);
    lemma_none_due(after, 0, at);
}

proof fn lemma_overdue_cancelled(state: SchedulerView, at: u64, scope: ScopeId)
    requires
        state.well_formed(),
        state.has_scope(scope),
        state.is_overdue(scope.0 - 1, at),
    ensures
        state.advanced(at).scope(scope).cancelled is Some,
{
    let clock = SchedulerView { now: at, ..state };
    async_runtime::lemma_clock_well_formed(state, at);
    let ids = clock.overdue(0, at);
    async_runtime::lemma_overdue_known(clock, 0, at);
    async_runtime::lemma_expired_cancels(clock, ids, 0);
    async_runtime::lemma_expired(clock, ids, 0);
    async_runtime::lemma_completed(clock.expired(ids, 0), 0, at);
    assert(clock.is_overdue(scope.0 - 1, at));
    async_runtime::lemma_overdue(clock, 0, at, scope.0 - 1);
    let k = choose|k: int| 0 <= k < ids.len() && ids[k] == ScopeId((scope.0 - 1 + 1) as u64);
    assert(ids[k] == scope);
}

/// Whether every child of a scope is cancelled.
pub open spec fn children_cancelled(state: SchedulerView, index: int) -> bool {
    forall|k: int|
        0 <= k < state.scopes[index].children.len() ==> state.scope(
            #[trigger] state.scopes[index].children[k],
        ).cancelled is Some
}

/// Whether every scope that is newly cancelled has its children cancelled.
pub open spec fn spreads(before: SchedulerView, after: SchedulerView) -> bool {
    forall|i: int|
        0 <= i < before.scopes.len() && before.scopes[i].cancelled is None && (#[trigger] after.scopes[i]).cancelled is Some
            ==> children_cancelled(after, i)
}

proof fn lemma_spreads_on(first: SchedulerView, second: SchedulerView, third: SchedulerView)
    requires
        first.shaped(),
        async_runtime::extends(first, second),
        async_runtime::extends(second, third),
        spreads(first, second),
        spreads(second, third),
    ensures
        spreads(first, third),
{
    assert forall|i: int|
        0 <= i < first.scopes.len() && first.scopes[i].cancelled is None && (#[trigger] third.scopes[i]).cancelled is Some implies children_cancelled(
        third,
        i,
    ) by {
        assert(first.scope_ok(first.scopes[i], i));
        assert(async_runtime::scope_extends(first.scopes[i], second.scopes[i]));
        assert(async_runtime::scope_extends(second.scopes[i], third.scopes[i]));
        if second.scopes[i].cancelled is Some {
            assert(children_cancelled(second, i));
            assert forall|k: int| 0 <= k < third.scopes[i].children.len() implies third.scope(
                #[trigger] third.scopes[i].children[k],
            ).cancelled is Some by {
                let child = second.scopes[i].children[k];
                assert(second.scope(child).cancelled is Some);
                assert(async_runtime::scope_extends(second.scopes[child.0 - 1], third.scopes[child.0 - 1]));
            }
        }
    }
}

proof fn lemma_cancelled_spreads(state: SchedulerView, id: ScopeId, reason: CancelReason)
    requires
        state.shaped(),
    ensures
        spreads(state, state.cancelled(id, reason)),
    decreases u64::MAX - id.0, 1int, 0int,
{
    if state.has_scope(id) && !(state.scope(id).cancelled is Some) && !state.scope(id).closed {
        let scope = state.scope(id);
        assert(state.scope_ok(scope, id.0 - 1));
        let marked = state.with_scope(id, ScopeView { cancelled: Some(reason), ..scope }).traced(
            EventView::cancel(state.now, EventKind::ScopeCancelled, id, reason),
        );
        async_runtime::lemma_marked_shaped(state, marked, id, reason);
        async_runtime::lemma_cancelled_children(marked, scope.children, 0, id);
        let inner = marked.cancelled_children(scope.children, 0, id);
        lemma_children_spread(marked, scope.children, 0, id);
        async_runtime::lemma_cancelled_tasks(inner, scope.tasks, 0, id);
        let last = inner.cancelled_tasks(scope.tasks, 0, id);
        assert(last.scopes == inner.scopes);
        assert(async_runtime::scope_extends(marked.scopes[id.0 - 1], inner.scopes[id.0 - 1]));
        assert forall|i: int|
            0 <= i < state.scopes.len() && state.scopes[i].cancelled is None && (#[trigger] last.scopes[i]).cancelled is Some implies children_cancelled(
            last,
            i,
        ) by {
            if i == id.0 - 1 {
                assert forall|k: int| 0 <= k < last.scopes[i].children.len() implies last.scope(
                    #[trigger] last.scopes[i].children[k],
                ).cancelled is Some by {
                    assert(inner.scope(scope.children[k]).cancelled is Some);
                }
            } else {
                assert(marked.scopes[i].cancelled is None);
                assert(children_cancelled(inner, i));
                assert forall|k: int| 0 <= k < last.scopes[i].children.len() implies last.scope(
                    #[trigger] last.scopes[i].children[k],
                ).cancelled is Some by {
                    assert(inner.scope(inner.scopes[i].children[k]).cancelled is Some);
                }
            }
        }
    }
}

proof fn lemma_children_spread(state: SchedulerView, children: Seq<ScopeId>, from: int, owner: ScopeId)
    requires
        state.shaped(),
        0 <= from,
        forall|k: int| 0 <= k < children.len() ==> owner.0 < (#[trigger] children[k]).0 <= state.scopes.len(),
    ensures
        spreads(state, state.cancelled_children(children, from, owner)),
        forall|k: int|
            from <= k < children.len() ==> state.cancelled_children(children, from, owner).scope(
                #[trigger] children[k],
            ).cancelled is Some,
    decreases u64::MAX - owner.0, 0int, children.len() - from,
{
    if from < children.len() {
        let reason = CancelReason::ParentCancelled;
        let id = children[from];
        lemma_cancelled_spreads(state, id, reason);
        async_runtime::lemma_cancelled(state, id, reason);
        let next = state.cancelled(id, reason);
        lemma_children_spread(next, children, from + 1, owner);
        async_runtime::lemma_cancelled_children(next, children, from + 1, owner);
        let last = next.cancelled_children(children, from + 1, owner);
        lemma_spreads_on(state, next, last);
        assert(async_runtime::scope_extends(next.scopes[id.0 - 1], last.scopes[id.0 - 1]));
    }
}

proof fn lemma_expired_spreads(state: SchedulerView, ids: Seq<ScopeId>, from: int)
    requires
        state.shaped(),
        0 <= from,
    ensures
        spreads(state, state.expired(ids, from)),
    decreases ids.len() - from,
{
    if from < ids.len() {
        lemma_cancelled_spreads(state, ids[from], CancelReason::Deadline);
        async_runtime::lemma_cancelled(state, ids[from], CancelReason::Deadline);
        let next = state.cancelled(ids[from], CancelReason::Deadline);
        lemma_expired_spreads(next, ids, from + 1);
        async_runtime::lemma_expired(next, ids, from + 1);
        lemma_spreads_on(state, next, next.expired(ids, from + 1));
    }
}

/// Whether a scope is another or stands below it with no scope between them that
/// is cancelled, nor cancelled itself.
pub open spec fn falls_with(state: SchedulerView, top: ScopeId, id: ScopeId) -> bool
    decreases u64::MAX - top.0,
{
    id == top || exists|k: int|
        0 <= k < state.scope(top).children.len() && top.0 < (#[trigger] state.scope(top).children[k]).0 && state.scope(
            state.scope(top).children[k],
        ).cancelled is None && falls_with(state, state.scope(top).children[k], id)
}

proof fn lemma_falls(before: SchedulerView, after: SchedulerView, top: ScopeId, id: ScopeId)
    requires
        before.shaped(),
        before.has_scope(top),
        async_runtime::extends(before, after),
        spreads(before, after),
        before.scope(top).cancelled is None,
        after.scope(top).cancelled is Some,
        falls_with(before, top, id),
    ensures
        after.scope(id).cancelled is Some,
    decreases u64::MAX - top.0,
{
    if id != top {
        let k = choose|k: int|
            0 <= k < before.scope(top).children.len() && top.0 < (#[trigger] before.scope(top).children[k]).0
                && before.scope(before.scope(top).children[k]).cancelled is None && falls_with(
                before,
                before.scope(top).children[k],
                id,
            );
        let child = before.scope(top).children[k];
        assert(before.scope_ok(before.scopes[top.0 - 1], top.0 - 1));
        assert(async_runtime::scope_extends(before.scopes[top.0 - 1], after.scopes[top.0 - 1]));
        assert(children_cancelled(after, top.0 - 1));
        assert(after.scopes[top.0 - 1].children[k] == child);
        lemma_falls(before, after, child, id);
    }
}

/// A deadline reaches down: a scope that stands below an overdue one, with no
/// cancelled scope between them, is cancelled with it.
pub proof fn law_deadlines_reach_down(state: SchedulerView, at: u64, top: ScopeId, id: ScopeId)
    requires
        state.well_formed(),
        state.has_scope(top),
        state.is_overdue(top.0 - 1, at),
        falls_with(state, top, id),
    ensures
        state.advanced(at).scope(id).cancelled is Some,
{
    let clock = SchedulerView { now: at, ..state };
    async_runtime::lemma_clock_well_formed(state, at);
    let ids = clock.overdue(0, at);
    async_runtime::lemma_expired(clock, ids, 0);
    let middle = clock.expired(ids, 0);
    lemma_expired_spreads(clock, ids, 0);
    async_runtime::lemma_completed(middle, 0, at);
    lemma_overdue_cancelled(state, at, top);
    lemma_same_fall(state, clock, top, id);
    lemma_falls(clock, middle, top, id);
}

proof fn lemma_same_fall(state: SchedulerView, clock: SchedulerView, top: ScopeId, id: ScopeId)
    requires
        clock.scopes == state.scopes,
        falls_with(state, top, id),
    ensures
        falls_with(clock, top, id),
    decreases u64::MAX - top.0,
{
    if id != top {
        let k = choose|k: int|
            0 <= k < state.scope(top).children.len() && top.0 < (#[trigger] state.scope(top).children[k]).0
                && state.scope(state.scope(top).children[k]).cancelled is None && falls_with(
                state,
                state.scope(top).children[k],
                id,
            );
        lemma_same_fall(state, clock, state.scope(top).children[k], id);
        assert(clock.scope(top).children[k] == state.scope(top).children[k]);
    }
}

// One step or two.

/// Whether two states differ in their clocks and traces alone.
pub open spec fn alike(left: SchedulerView, right: SchedulerView) -> bool {
    left.scopes == right.scopes && left.tasks == right.tasks && left.open == right.open
}

proof fn lemma_tasks_alike(left: SchedulerView, right: SchedulerView, tasks: Seq<TaskId>, from: int, scope: ScopeId)
    requires
        alike(left, right),
    ensures
        alike(left.cancelled_tasks(tasks, from, scope), right.cancelled_tasks(tasks, from, scope)),
    decreases tasks.len() - from,
{
    if 0 <= from < tasks.len() {
        if left.has_task(tasks[from]) && left.task(tasks[from]).state is Waiting {
            let outcome = OutcomeView::Cancelled(CancelReason::ParentCancelled);
            lemma_tasks_alike(
                left.finished(tasks[from], scope, outcome),
                right.finished(tasks[from], scope, outcome),
                tasks,
                from + 1,
                scope,
            );
        } else {
            lemma_tasks_alike(left, right, tasks, from + 1, scope);
        }
    }
}

proof fn lemma_cancelled_alike(left: SchedulerView, right: SchedulerView, id: ScopeId, reason: CancelReason)
    requires
        alike(left, right),
    ensures
        alike(left.cancelled(id, reason), right.cancelled(id, reason)),
    decreases u64::MAX - id.0, 1int, 0int,
{
    if left.has_scope(id) && !(left.scope(id).cancelled is Some) && !left.scope(id).closed {
        let scope = left.scope(id);
        let marked = ScopeView { cancelled: Some(reason), ..scope };
        let first = left.with_scope(id, marked).traced(
            EventView::cancel(left.now, EventKind::ScopeCancelled, id, reason),
        );
        let second = right.with_scope(id, marked).traced(
            EventView::cancel(right.now, EventKind::ScopeCancelled, id, reason),
        );
        lemma_children_alike(first, second, scope.children, 0, id);
        lemma_tasks_alike(
            first.cancelled_children(scope.children, 0, id),
            second.cancelled_children(scope.children, 0, id),
            scope.tasks,
            0,
            id,
        );
    }
}

proof fn lemma_children_alike(
    left: SchedulerView,
    right: SchedulerView,
    children: Seq<ScopeId>,
    from: int,
    owner: ScopeId,
)
    requires
        alike(left, right),
    ensures
        alike(left.cancelled_children(children, from, owner), right.cancelled_children(children, from, owner)),
    decreases u64::MAX - owner.0, 0int, children.len() - from,
{
    if 0 <= from < children.len() && children[from].0 > owner.0 {
        let reason = CancelReason::ParentCancelled;
        lemma_cancelled_alike(left, right, children[from], reason);
        lemma_children_alike(
            left.cancelled(children[from], reason),
            right.cancelled(children[from], reason),
            children,
            from + 1,
            owner,
        );
    }
}

proof fn lemma_expired_alike(left: SchedulerView, right: SchedulerView, ids: Seq<ScopeId>, from: int)
    requires
        alike(left, right),
    ensures
        alike(left.expired(ids, from), right.expired(ids, from)),
    decreases ids.len() - from,
{
    if 0 <= from < ids.len() {
        lemma_cancelled_alike(left, right, ids[from], CancelReason::Deadline);
        lemma_expired_alike(
            left.cancelled(ids[from], CancelReason::Deadline),
            right.cancelled(ids[from], CancelReason::Deadline),
            ids,
            from + 1,
        );
    }
}

proof fn lemma_same_overdue(left: SchedulerView, right: SchedulerView, from: int, first: u64, second: u64)
    requires
        0 <= from,
        left.scopes.len() == right.scopes.len(),
        forall|i: int| 0 <= i < left.scopes.len() ==> #[trigger] left.is_overdue(i, first) == right.is_overdue(i, second),
    ensures
        left.overdue(from, first) == right.overdue(from, second),
    decreases left.scopes.len() - from,
{
    if from < left.scopes.len() {
        assert(left.is_overdue(from, first) == right.is_overdue(from, second));
        lemma_same_overdue(left, right, from + 1, first, second);
    }
}

/// The scopes that moving the clock leaves are those that its deadlines leave.
proof fn lemma_scopes_after(state: SchedulerView, at: u64)
    requires
        state.well_formed(),
    ensures
        ({
            let clock = SchedulerView { now: at, ..state };
            state.advanced(at).scopes == clock.expired(clock.overdue(0, at), 0).scopes
        }),
{
    let clock = SchedulerView { now: at, ..state };
    async_runtime::lemma_clock_well_formed(state, at);
    async_runtime::lemma_expired(clock, clock.overdue(0, at), 0);
    async_runtime::lemma_completed(clock.expired(clock.overdue(0, at), 0), 0, at);
}

/// Moving the clock in two steps leaves every task as moving it in one does,
/// unless a deadline lies between the steps: then one step cancels what the first
/// of two had let end.
pub proof fn law_two_steps_settle_as_one(state: SchedulerView, first: u64, second: u64, task: TaskId)
    requires
        state.well_formed(),
        state.has_task(task),
        first <= second,
        forall|i: int|
            0 <= i < state.scopes.len() && #[trigger] state.is_overdue(i, second) ==> state.is_overdue(i, first),
    ensures
        state.advanced(first).advanced(second).task(task) == state.advanced(second).task(task),
        state.advanced(first).advanced(second).scopes == state.advanced(second).scopes,
{
    let middle = state.advanced(first);
    let early = SchedulerView { now: first, ..state };
    let late = SchedulerView { now: second, ..state };
    async_runtime::law_nothing_is_undone(state, ScopeId(1), CancelReason::Deadline, first);
    assert forall|i: int| 0 <= i < early.scopes.len() implies #[trigger] early.is_overdue(i, first) == late.is_overdue(
        i,
        second,
    ) by {
        assert(state.is_overdue(i, second) ==> state.is_overdue(i, first));
    }
    lemma_same_overdue(early, late, 0, first, second);
    lemma_expired_alike(early, late, early.overdue(0, first), 0);
    lemma_scopes_after(state, first);
    lemma_scopes_after(state, second);
    assert(middle.scopes == state.advanced(second).scopes);
    let later = SchedulerView { now: second, ..middle };
    assert forall|i: int| 0 <= i < later.scopes.len() implies !#[trigger] later.is_overdue(i, second) by {
        assert(async_runtime::scope_extends(early.scopes[i], middle.scopes[i]));
        if later.is_overdue(i, second) {
            assert(state.is_overdue(i, second));
            lemma_overdue_cancelled(state, first, ScopeId((i + 1) as u64));
        }
    }
    lemma_none_overdue(later, 0, second);
    assert(later.expired(Seq::empty(), 0) == later);
    lemma_scopes_after(middle, second);
    assert(state.task_ok(state.tasks[task.0 - 1], task.0 - 1));
    law_advancing_settles_every_task(state, first, task, ScopeId(1));
    law_advancing_settles_every_task(state, second, task, ScopeId(1));
    law_advancing_settles_every_task(middle, second, task, ScopeId(1));
}

// The trace.

/// Whether an event is the end of a task.
pub open spec fn is_end(event: EventView) -> bool {
    event.kind == EventKind::TaskCompleted || event.kind == EventKind::TaskFailed || event.kind
        == EventKind::TaskCancelled
}

pub open spec fn is_release(event: EventView) -> bool {
    event.kind == EventKind::ResourceClosed
}

pub open spec fn has_resource(state: SchedulerView, id: ResourceId) -> bool {
    1 <= id.0 <= state.open.len()
}

/// Whether the event at a place of a trace ends a task.
pub open spec fn ends_at(trace: Seq<EventView>, i: int, id: TaskId) -> bool {
    0 <= i < trace.len() && is_end(trace[i]) && trace[i].task == Some(id)
}

pub open spec fn releases_at(trace: Seq<EventView>, i: int, id: ResourceId) -> bool {
    0 <= i < trace.len() && is_release(trace[i]) && trace[i].resource == Some(id)
}

/// Whether a trace has the end of a task exactly where the task has ended, once.
pub open spec fn tells_end(state: SchedulerView, id: TaskId) -> bool {
    &&& state.task(id).state is Terminal == exists|i: int| #[trigger] ends_at(state.trace, i, id)
    &&& forall|i: int, j: int| #[trigger] ends_at(state.trace, i, id) && #[trigger] ends_at(state.trace, j, id) ==> i == j
}

/// Whether a trace has the release of a resource exactly where the resource is
/// released, once.
pub open spec fn tells_release(state: SchedulerView, id: ResourceId) -> bool {
    &&& !state.open[id.0 - 1] == exists|i: int| #[trigger] releases_at(state.trace, i, id)
    &&& forall|i: int, j: int|
        #[trigger] releases_at(state.trace, i, id) && #[trigger] releases_at(state.trace, j, id) ==> i == j
}

/// What holds of the trace of every scheduler: it begins with the root, its
/// times do not fall and are not ahead of the clock, and it tells the end of
/// every ended task and the release of every released resource once.
pub open spec fn orderly(state: SchedulerView) -> bool {
    &&& timely(state)
    &&& forall|id: TaskId| state.has_task(id) ==> #[trigger] tells_end(state, id)
    &&& forall|id: ResourceId| has_resource(state, id) ==> #[trigger] tells_release(state, id)
    &&& forall|i: int|
        0 <= i < state.trace.len() && is_end(#[trigger] state.trace[i]) ==> state.trace[i].task is Some
            && state.has_task(state.trace[i].task->Some_0)
    &&& forall|i: int|
        0 <= i < state.trace.len() && is_release(#[trigger] state.trace[i]) ==> state.trace[i].resource is Some
            && has_resource(state, state.trace[i].resource->Some_0)
}

pub open spec fn timely(state: SchedulerView) -> bool {
    &&& state.trace.len() > 0
    &&& state.trace[0] == EventView::scope(0, EventKind::ScopeOpened, ScopeId(1))
    &&& forall|i: int, j: int|
        0 <= i <= j < state.trace.len() ==> (#[trigger] state.trace[i]).at <= (#[trigger] state.trace[j]).at
    &&& forall|i: int| 0 <= i < state.trace.len() ==> (#[trigger] state.trace[i]).at <= state.now
}

/// One more event, with what it stands for.
proof fn lemma_step(before: SchedulerView, after: SchedulerView, event: EventView)
    requires
        orderly(before),
        after.now == before.now,
        event.at == before.now,
        after.trace == before.trace.push(event),
        after.tasks.len() >= before.tasks.len(),
        after.open.len() >= before.open.len(),
        forall|id: TaskId| #[trigger]
            after.has_task(id) ==> if is_end(event) && event.task == Some(id) {
                before.has_task(id) && before.task(id).state is Waiting && after.task(id).state is Terminal
            } else if before.has_task(id) {
                after.task(id).state is Terminal == before.task(id).state is Terminal
            } else {
                after.task(id).state is Waiting
            },
        forall|id: ResourceId| #[trigger]
            has_resource(after, id) ==> if is_release(event) && event.resource == Some(id) {
                has_resource(before, id) && before.open[id.0 - 1] && !after.open[id.0 - 1]
            } else if has_resource(before, id) {
                after.open[id.0 - 1] == before.open[id.0 - 1]
            } else {
                after.open[id.0 - 1]
            },
        is_end(event) ==> event.task is Some && before.has_task(event.task->Some_0),
        is_release(event) ==> event.resource is Some && has_resource(before, event.resource->Some_0),
    ensures
        orderly(after),
{
    let last = before.trace.len() as int;
    assert forall|id: TaskId| after.has_task(id) implies #[trigger] tells_end(after, id) by {
        assert forall|i: int| #[trigger] ends_at(after.trace, i, id) implies (ends_at(before.trace, i, id) || (i == last
            && is_end(event) && event.task == Some(id))) by {}
        assert forall|i: int| #[trigger] ends_at(before.trace, i, id) implies ends_at(after.trace, i, id) by {}
        if before.has_task(id) {
            assert(tells_end(before, id));
        } else {
            assert forall|i: int| !#[trigger] ends_at(before.trace, i, id) by {}
        }
        if is_end(event) && event.task == Some(id) {
            assert(ends_at(after.trace, last, id));
        }
        if exists|i: int| #[trigger] ends_at(before.trace, i, id) {
            let i = choose|i: int| #[trigger] ends_at(before.trace, i, id);
            assert(ends_at(after.trace, i, id));
        }
        if exists|i: int| #[trigger] ends_at(after.trace, i, id) {
            let i = choose|i: int| #[trigger] ends_at(after.trace, i, id);
            assert(ends_at(before.trace, i, id) || (i == last && is_end(event) && event.task == Some(id)));
        }
    }
    assert forall|id: ResourceId| has_resource(after, id) implies #[trigger] tells_release(after, id) by {
        assert forall|i: int| #[trigger] releases_at(after.trace, i, id) implies (releases_at(before.trace, i, id) || (i
            == last && is_release(event) && event.resource == Some(id))) by {}
        assert forall|i: int| #[trigger] releases_at(before.trace, i, id) implies releases_at(after.trace, i, id) by {}
        if has_resource(before, id) {
            assert(tells_release(before, id));
        } else {
            assert forall|i: int| !#[trigger] releases_at(before.trace, i, id) by {}
        }
        if is_release(event) && event.resource == Some(id) {
            assert(releases_at(after.trace, last, id));
        }
        if exists|i: int| #[trigger] releases_at(before.trace, i, id) {
            let i = choose|i: int| #[trigger] releases_at(before.trace, i, id);
            assert(releases_at(after.trace, i, id));
        }
        if exists|i: int| #[trigger] releases_at(after.trace, i, id) {
            let i = choose|i: int| #[trigger] releases_at(after.trace, i, id);
            assert(releases_at(before.trace, i, id) || (i == last && is_release(event) && event.resource == Some(id)));
        }
    }
    assert forall|i: int, j: int| 0 <= i <= j < after.trace.len() implies (#[trigger] after.trace[i]).at <= (
    #[trigger] after.trace[j]).at by {
        if j < last {
            assert(before.trace[i].at <= before.trace[j].at);
        } else if i < last {
            assert(before.trace[i].at <= before.now);
        }
    }
    assert forall|i: int| 0 <= i < after.trace.len() implies (#[trigger] after.trace[i]).at <= after.now by {
        if i < last {
            assert(before.trace[i].at <= before.now);
        }
    }
    assert(after.trace[0] == before.trace[0]);
    assert forall|i: int| 0 <= i < after.trace.len() && is_end(#[trigger] after.trace[i]) implies after.trace[i].task is Some
        && after.has_task(after.trace[i].task->Some_0) by {
        if i < last {
            assert(is_end(before.trace[i]));
        }
    }
    assert forall|i: int| 0 <= i < after.trace.len() && is_release(#[trigger] after.trace[i]) implies after.trace[i].resource is Some
        && has_resource(after, after.trace[i].resource->Some_0) by {
        if i < last {
            assert(is_release(before.trace[i]));
        }
    }
}

/// Scopes have no part in it.
proof fn lemma_scopes_aside(before: SchedulerView, after: SchedulerView)
    requires
        orderly(before),
        after.now >= before.now,
        after.trace == before.trace,
        after.tasks == before.tasks,
        after.open == before.open,
    ensures
        orderly(after),
{
    assert forall|id: TaskId| after.has_task(id) implies #[trigger] tells_end(after, id) by {
        assert(tells_end(before, id));
    }
    assert forall|id: ResourceId| has_resource(after, id) implies #[trigger] tells_release(after, id) by {
        assert(tells_release(before, id));
    }
    assert forall|i: int| 0 <= i < after.trace.len() implies (#[trigger] after.trace[i]).at <= after.now by {
        assert(before.trace[i].at <= before.now);
    }
}

proof fn lemma_finished(state: SchedulerView, id: TaskId, scope: ScopeId, outcome: OutcomeView)
    requires
        orderly(state),
        state.has_task(id),
        state.task(id).state is Waiting,
    ensures
        orderly(state.finished(id, scope, outcome)),
{
    lemma_step(state, state.finished(id, scope, outcome), EventView::outcome(state.now, scope, id, outcome));
}

proof fn lemma_tasks_orderly(state: SchedulerView, tasks: Seq<TaskId>, from: int, scope: ScopeId)
    requires
        orderly(state),
    ensures
        orderly(state.cancelled_tasks(tasks, from, scope)),
    decreases tasks.len() - from,
{
    if 0 <= from < tasks.len() {
        if state.has_task(tasks[from]) && state.task(tasks[from]).state is Waiting {
            let outcome = OutcomeView::Cancelled(CancelReason::ParentCancelled);
            lemma_finished(state, tasks[from], scope, outcome);
            lemma_tasks_orderly(state.finished(tasks[from], scope, outcome), tasks, from + 1, scope);
        } else {
            lemma_tasks_orderly(state, tasks, from + 1, scope);
        }
    }
}

proof fn lemma_cancelled_orderly(state: SchedulerView, id: ScopeId, reason: CancelReason)
    requires
        orderly(state),
    ensures
        orderly(state.cancelled(id, reason)),
    decreases u64::MAX - id.0, 1int, 0int,
{
    if state.has_scope(id) && !(state.scope(id).cancelled is Some) && !state.scope(id).closed {
        let scope = state.scope(id);
        let event = EventView::cancel(state.now, EventKind::ScopeCancelled, id, reason);
        let marked = state.with_scope(id, ScopeView { cancelled: Some(reason), ..scope }).traced(event);
        lemma_step(state, marked, event);
        lemma_children_orderly(marked, scope.children, 0, id);
        lemma_tasks_orderly(marked.cancelled_children(scope.children, 0, id), scope.tasks, 0, id);
    }
}

proof fn lemma_children_orderly(state: SchedulerView, children: Seq<ScopeId>, from: int, owner: ScopeId)
    requires
        orderly(state),
    ensures
        orderly(state.cancelled_children(children, from, owner)),
    decreases u64::MAX - owner.0, 0int, children.len() - from,
{
    if 0 <= from < children.len() && children[from].0 > owner.0 {
        lemma_cancelled_orderly(state, children[from], CancelReason::ParentCancelled);
        lemma_children_orderly(
            state.cancelled(children[from], CancelReason::ParentCancelled),
            children,
            from + 1,
            owner,
        );
    }
}

proof fn lemma_expired_orderly(state: SchedulerView, ids: Seq<ScopeId>, from: int)
    requires
        orderly(state),
    ensures
        orderly(state.expired(ids, from)),
    decreases ids.len() - from,
{
    if 0 <= from < ids.len() {
        lemma_cancelled_orderly(state, ids[from], CancelReason::Deadline);
        lemma_expired_orderly(state.cancelled(ids[from], CancelReason::Deadline), ids, from + 1);
    }
}

proof fn lemma_completed_orderly(state: SchedulerView, from: int, at: u64)
    requires
        orderly(state),
    ensures
        orderly(state.completed(from, at)),
    decreases state.tasks.len() - from,
{
    if 0 <= from < state.tasks.len() && from < u64::MAX {
        if state.is_due(from, at) {
            let id = TaskId((from + 1) as u64);
            lemma_finished(state, id, state.tasks[from].scope, state.tasks[from].state->outcome);
            lemma_completed_orderly(
                state.finished(id, state.tasks[from].scope, state.tasks[from].state->outcome),
                from + 1,
                at,
            );
        } else {
            lemma_completed_orderly(state, from + 1, at);
        }
    }
}

proof fn lemma_resources_orderly(
    state: SchedulerView,
    resources: Seq<ResourceId>,
    count: int,
    scope: ScopeId,
    closed: nat,
)
    requires
        orderly(state),
    ensures
        orderly(state.closed_resources(resources, count, scope, closed).0),
    decreases count,
{
    if 0 < count <= resources.len() {
        let id = resources[count - 1];
        if 1 <= id.0 <= state.open.len() && state.open[id.0 - 1] {
            let event = EventView::resource(state.now, EventKind::ResourceClosed, scope, id);
            let next = SchedulerView { open: state.open.update(id.0 - 1, false), ..state }.traced(event);
            lemma_step(state, next, event);
            lemma_resources_orderly(next, resources, count - 1, scope, closed + 1);
        } else {
            lemma_resources_orderly(state, resources, count - 1, scope, closed);
        }
    }
}

proof fn lemma_closed_orderly(state: SchedulerView, id: ScopeId)
    requires
        orderly(state),
    ensures
        orderly(state.closed(id).0),
    decreases u64::MAX - id.0, 1int, 0int,
{
    let pending = state.waiting_in(id, state.tasks.len() as int);
    let cancelled = state.cancelled(id, CancelReason::ScopeClosed);
    lemma_cancelled_orderly(state, id, CancelReason::ScopeClosed);
    let scope = cancelled.scope(id);
    lemma_closed_children_orderly(cancelled, scope.children, 0, id, pending, 0);
    let (inner, tasks, released) = cancelled.closed_children(scope.children, 0, id, pending, 0);
    lemma_resources_orderly(inner, scope.resources, scope.resources.len() as int, id, released);
    let emptied = inner.closed_resources(scope.resources, scope.resources.len() as int, id, released).0;
    if !emptied.scope(id).closed {
        lemma_step(
            emptied,
            emptied.completed_scope(id),
            EventView::scope(emptied.now, EventKind::ScopeCompleted, id),
        );
    }
}

proof fn lemma_closed_children_orderly(
    state: SchedulerView,
    children: Seq<ScopeId>,
    from: int,
    owner: ScopeId,
    tasks: nat,
    released: nat,
)
    requires
        orderly(state),
    ensures
        orderly(state.closed_children(children, from, owner, tasks, released).0),
    decreases u64::MAX - owner.0, 0int, children.len() - from,
{
    if 0 <= from < children.len() && children[from].0 > owner.0 {
        lemma_closed_orderly(state, children[from]);
        let (next, child_tasks, child_released) = state.closed(children[from]);
        lemma_closed_children_orderly(
            next,
            children,
            from + 1,
            owner,
            tasks + child_tasks,
            released + child_released,
        );
    }
}

/// The trace of a new scheduler is orderly.
pub proof fn law_new_traces_are_orderly(grants: Set<GrantView>)
    ensures
        orderly(SchedulerView::initial(grants)),
{
    let state = SchedulerView::initial(grants);
    assert(state.trace[0] == EventView::scope(0, EventKind::ScopeOpened, ScopeId(1)));
}

/// Cancelling, moving the clock on and closing keep the trace orderly.
pub proof fn law_ending_keeps_the_trace_orderly(state: SchedulerView, scope: ScopeId, reason: CancelReason, at: u64)
    requires
        orderly(state),
        state.now <= at,
    ensures
        orderly(state.cancelled(scope, reason)),
        orderly(state.advanced(at)),
        orderly(state.closed(scope).0),
{
    lemma_cancelled_orderly(state, scope, reason);
    lemma_closed_orderly(state, scope);
    let clock = SchedulerView { now: at, ..state };
    lemma_scopes_aside(state, clock);
    lemma_expired_orderly(clock, clock.overdue(0, at), 0);
    lemma_completed_orderly(clock.expired(clock.overdue(0, at), 0), 0, at);
}

/// Opening a scope, starting a task, opening a resource and joining a task keep
/// the trace orderly and only add to it.
pub proof fn law_beginning_keeps_the_trace_orderly(
    state: SchedulerView,
    scope: ScopeId,
    grants: Set<GrantView>,
    deadline: Option<u64>,
    at: u64,
    outcome: OutcomeView,
    task: TaskId,
)
    requires
        orderly(state),
        state.tasks.len() < u64::MAX,
        state.open.len() < u64::MAX,
    ensures
        orderly(state.opened(scope, grants, deadline)),
        orderly(state.spawned(scope, at, outcome)),
        orderly(state.acquired(scope)),
        orderly(state.traced(EventView::task(state.now, EventKind::JoinCompleted, scope, task))),
        state.trace.is_prefix_of(state.opened(scope, grants, deadline).trace),
        state.trace.is_prefix_of(state.spawned(scope, at, outcome).trace),
        state.trace.is_prefix_of(state.acquired(scope).trace),
{
    let opened = state.opened(scope, grants, deadline);
    lemma_step(state, opened, EventView::scope(state.now, EventKind::ScopeOpened, state.next_scope()));
    assert(opened.trace.take(state.trace.len() as int) =~= state.trace);
    let id = state.next_task();
    let owner = state.scope(scope);
    let created = EventView::task(state.now, EventKind::TaskCreated, scope, id);
    let waits = EventView::task(state.now, EventKind::TaskWaiting, scope, id);
    let spawned = state.spawned(scope, at, outcome);
    let first = SchedulerView { trace: state.trace.push(created), ..spawned };
    lemma_step(state, first, created);
    lemma_step(first, spawned, waits);
    assert(spawned.trace.take(state.trace.len() as int) =~= state.trace);
    let acquired = state.acquired(scope);
    lemma_step(state, acquired, EventView::resource(state.now, EventKind::ResourceOpened, scope, state.next_resource()));
    assert(acquired.trace.take(state.trace.len() as int) =~= state.trace);
    let event = EventView::task(state.now, EventKind::JoinCompleted, scope, task);
    lemma_step(state, state.traced(event), event);
}

// Closing.

/// Whether a scope is another or stands below it.
pub open spec fn stands_under(state: SchedulerView, top: ScopeId, id: ScopeId) -> bool
    decreases u64::MAX - top.0,
{
    id == top || exists|k: int|
        0 <= k < state.scope(top).children.len() && top.0 < (#[trigger] state.scope(top).children[k]).0 && stands_under(
            state,
            state.scope(top).children[k],
            id,
        )
}

proof fn lemma_quiet_below(state: SchedulerView, top: ScopeId, id: ScopeId)
    requires
        async_runtime::quiet(state, top),
        stands_under(state, top, id),
    ensures
        async_runtime::quiet(state, id),
    decreases u64::MAX - top.0,
{
    if id != top {
        let k = choose|k: int|
            0 <= k < state.scope(top).children.len() && top.0 < (#[trigger] state.scope(top).children[k]).0
                && stands_under(state, state.scope(top).children[k], id);
        lemma_quiet_below(state, state.scope(top).children[k], id);
    }
}

/// How many releases a trace has.
pub open spec fn release_count(trace: Seq<EventView>) -> nat
    decreases trace.len(),
{
    if trace.len() == 0 {
        0
    } else {
        release_count(trace.drop_last()) + if is_release(trace.last()) {
            1nat
        } else {
            0nat
        }
    }
}

proof fn lemma_release_count(trace: Seq<EventView>, event: EventView)
    ensures
        release_count(trace.push(event)) == release_count(trace) + if is_release(event) {
            1nat
        } else {
            0nat
        },
{
    assert(trace.push(event).drop_last() =~= trace);
}

proof fn lemma_tasks_release_none(state: SchedulerView, tasks: Seq<TaskId>, from: int, scope: ScopeId)
    ensures
        release_count(state.cancelled_tasks(tasks, from, scope).trace) == release_count(state.trace),
    decreases tasks.len() - from,
{
    if 0 <= from < tasks.len() {
        if state.has_task(tasks[from]) && state.task(tasks[from]).state is Waiting {
            let outcome = OutcomeView::Cancelled(CancelReason::ParentCancelled);
            lemma_release_count(state.trace, EventView::outcome(state.now, scope, tasks[from], outcome));
            lemma_tasks_release_none(state.finished(tasks[from], scope, outcome), tasks, from + 1, scope);
        } else {
            lemma_tasks_release_none(state, tasks, from + 1, scope);
        }
    }
}

proof fn lemma_cancelled_releases_none(state: SchedulerView, id: ScopeId, reason: CancelReason)
    ensures
        release_count(state.cancelled(id, reason).trace) == release_count(state.trace),
    decreases u64::MAX - id.0, 1int, 0int,
{
    if state.has_scope(id) && !(state.scope(id).cancelled is Some) && !state.scope(id).closed {
        let scope = state.scope(id);
        let event = EventView::cancel(state.now, EventKind::ScopeCancelled, id, reason);
        let marked = state.with_scope(id, ScopeView { cancelled: Some(reason), ..scope }).traced(event);
        lemma_release_count(state.trace, event);
        lemma_children_release_none(marked, scope.children, 0, id);
        lemma_tasks_release_none(marked.cancelled_children(scope.children, 0, id), scope.tasks, 0, id);
    }
}

proof fn lemma_children_release_none(state: SchedulerView, children: Seq<ScopeId>, from: int, owner: ScopeId)
    ensures
        release_count(state.cancelled_children(children, from, owner).trace) == release_count(state.trace),
    decreases u64::MAX - owner.0, 0int, children.len() - from,
{
    if 0 <= from < children.len() && children[from].0 > owner.0 {
        lemma_cancelled_releases_none(state, children[from], CancelReason::ParentCancelled);
        lemma_children_release_none(
            state.cancelled(children[from], CancelReason::ParentCancelled),
            children,
            from + 1,
            owner,
        );
    }
}

proof fn lemma_resources_counted(
    state: SchedulerView,
    resources: Seq<ResourceId>,
    count: int,
    scope: ScopeId,
    closed: nat,
)
    ensures
        ({
            let (after, total) = state.closed_resources(resources, count, scope, closed);
            release_count(after.trace) + closed == release_count(state.trace) + total
        }),
    decreases count,
{
    if 0 < count <= resources.len() {
        let id = resources[count - 1];
        if 1 <= id.0 <= state.open.len() && state.open[id.0 - 1] {
            let event = EventView::resource(state.now, EventKind::ResourceClosed, scope, id);
            let next = SchedulerView { open: state.open.update(id.0 - 1, false), ..state }.traced(event);
            lemma_release_count(state.trace, event);
            lemma_resources_counted(next, resources, count - 1, scope, closed + 1);
        } else {
            lemma_resources_counted(state, resources, count - 1, scope, closed);
        }
    }
}

proof fn lemma_closed_counted(state: SchedulerView, id: ScopeId)
    ensures
        release_count(state.closed(id).0.trace) == release_count(state.trace) + state.closed(id).2,
    decreases u64::MAX - id.0, 1int, 0int,
{
    let pending = state.waiting_in(id, state.tasks.len() as int);
    let cancelled = state.cancelled(id, CancelReason::ScopeClosed);
    lemma_cancelled_releases_none(state, id, CancelReason::ScopeClosed);
    let scope = cancelled.scope(id);
    lemma_closed_children_counted(cancelled, scope.children, 0, id, pending, 0);
    let (inner, tasks, released) = cancelled.closed_children(scope.children, 0, id, pending, 0);
    lemma_resources_counted(inner, scope.resources, scope.resources.len() as int, id, released);
    let emptied = inner.closed_resources(scope.resources, scope.resources.len() as int, id, released).0;
    lemma_release_count(emptied.trace, EventView::scope(emptied.now, EventKind::ScopeCompleted, id));
}

proof fn lemma_closed_children_counted(
    state: SchedulerView,
    children: Seq<ScopeId>,
    from: int,
    owner: ScopeId,
    tasks: nat,
    released: nat,
)
    ensures
        ({
            let (after, all_tasks, all_released) = state.closed_children(children, from, owner, tasks, released);
            release_count(after.trace) + released == release_count(state.trace) + all_released
        }),
    decreases u64::MAX - owner.0, 0int, children.len() - from,
{
    if 0 <= from < children.len() && children[from].0 > owner.0 {
        lemma_closed_counted(state, children[from]);
        let (next, child_tasks, child_released) = state.closed(children[from]);
        lemma_closed_children_counted(
            next,
            children,
            from + 1,
            owner,
            tasks + child_tasks,
            released + child_released,
        );
    }
}

/// Closing a scope closes it and every scope below it, so that no scope, task or
/// resource can be opened there again, and reports how many resources it
/// released, which is how many releases it adds to the trace.
pub proof fn law_closing_reaches_every_scope_below(state: SchedulerView, top: ScopeId, id: ScopeId)
    requires
        state.well_formed(),
        state.has_scope(top),
        stands_under(state.closed(top).0, top, id),
    ensures
        state.closed(top).0.scope(id).closed,
        state.closed(top).0.scope(id).cancelled is Some,
        state.closed(top).2 == state.open_count(state.open.len() as int) - state.closed(top).0.open_count(
            state.open.len() as int,
        ),
        state.closed(top).2 == release_count(state.closed(top).0.trace) - release_count(state.trace),
{
    async_runtime::lemma_closed(state, top);
    async_runtime::law_closed_scopes_are_quiet(state, top);
    lemma_quiet_below(state.closed(top).0, top, id);
    lemma_closed_counted(state, top);
}

/// Closing a scope leaves one release in the trace for every resource that was
/// opened in it or below it.
pub proof fn law_every_resource_is_released_once(state: SchedulerView, top: ScopeId, id: ScopeId, k: int)
    requires
        state.well_formed(),
        orderly(state),
        state.has_scope(top),
        state.has_scope(id),
        stands_under(state.closed(top).0, top, id),
        0 <= k < state.scope(id).resources.len(),
    ensures
        exists|i: int| #[trigger] releases_at(state.closed(top).0.trace, i, state.scope(id).resources[k]),
        forall|i: int, j: int|
            #[trigger] releases_at(state.closed(top).0.trace, i, state.scope(id).resources[k])
                && #[trigger] releases_at(state.closed(top).0.trace, j, state.scope(id).resources[k]) ==> i == j,
{
    let after = state.closed(top).0;
    let resource = state.scope(id).resources[k];
    async_runtime::lemma_closed(state, top);
    async_runtime::law_closed_scopes_are_quiet(state, top);
    lemma_quiet_below(after, top, id);
    lemma_closed_orderly(state, top);
    assert(async_runtime::scope_extends(state.scopes[id.0 - 1], after.scopes[id.0 - 1]));
    assert(state.scope_ok(state.scopes[id.0 - 1], id.0 - 1));
    assert(after.scope(id).resources[k] == resource);
    assert(has_resource(after, resource));
    assert(tells_release(after, resource));
}

} // verus!
