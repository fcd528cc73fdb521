//! What the single steps of the scheduler do: opening, starting, cancelling and
//! releasing.
use vstd::prelude::*;
use crate::async_runtime::{
    lemma_cancelled_children, lemma_cancelled_tasks, lemma_marked_shaped, lemma_only_cancels, scope_extends,
    CancelReason, EventKind, EventView, GrantView, OutcomeView, ResourceId, SchedulerView, ScopeId, ScopeView, TaskId,
    TaskStateView,
};

verus! {

/// A new scope has the parent, the grants and the deadline that it was opened with, and
/// nothing in it; its parent has it as a child, and every other scope is as it was.
pub proof fn law_new_scopes_are_empty(
    state: SchedulerView,
    parent: ScopeId,
    grants: Set<GrantView>,
    deadline: Option<u64>,
    other: ScopeId,
)
    requires
        state.has_scope(parent),
        state.has_scope(other),
        state.scopes.len() < u64::MAX,
    ensures
        ({
            let after = state.opened(parent, grants, deadline);
            let id = ScopeId((state.scopes.len() + 1) as u64);
            &&& after.scopes.len() == state.scopes.len() + 1
            &&& after.scope(id).parent == Some(parent)
            &&& after.scope(id).grants == grants
            &&& after.scope(id).deadline == deadline
            &&& after.scope(id).cancelled is None
            &&& !after.scope(id).closed
            &&& after.scope(id).tasks.len() == 0
            &&& after.scope(id).resources.len() == 0
            &&& after.scope(id).children.len() == 0
            &&& after.scope(parent).children == state.scope(parent).children.push(id)
            &&& other != parent ==> after.scope(other) == state.scope(other)
            &&& after.tasks == state.tasks
            &&& after.open == state.open
            &&& after.now == state.now
            &&& after.trace == state.trace.push(EventView::scope(state.now, EventKind::ScopeOpened, id))
        }),
{
}

/// A new task waits in its scope for the instant it was given and will then end as it
/// was told to; every other task is as it was.
pub proof fn law_new_tasks_wait(state: SchedulerView, scope: ScopeId, at: u64, outcome: OutcomeView, other: TaskId)
    requires
        state.has_scope(scope),
        state.has_task(other),
        state.tasks.len() < u64::MAX,
    ensures
        ({
            let after = state.spawned(scope, at, outcome);
            let id = TaskId((state.tasks.len() + 1) as u64);
            &&& after.tasks.len() == state.tasks.len() + 1
            &&& after.task(id).scope == scope
            &&& after.task(id).state == (TaskStateView::Waiting { at, outcome })
            &&& after.scope(scope).tasks == state.scope(scope).tasks.push(id)
            &&& after.task(other) == state.task(other)
            &&& after.open == state.open
            &&& after.now == state.now
            &&& after.scopes.len() == state.scopes.len()
        }),
{
}

/// A new resource is open and belongs to its scope; every other resource is as it was.
pub proof fn law_new_resources_are_open(state: SchedulerView, scope: ScopeId, other: ResourceId)
    requires
        state.has_scope(scope),
        1 <= other.0 <= state.open.len(),
        state.open.len() < u64::MAX,
    ensures
        ({
            let after = state.acquired(scope);
            let id = ResourceId((state.open.len() + 1) as u64);
            &&& after.open.len() == state.open.len() + 1
            &&& after.open[id.0 - 1]
            &&& after.open[other.0 - 1] == state.open[other.0 - 1]
            &&& after.scope(scope).resources == state.scope(scope).resources.push(id)
            &&& after.tasks == state.tasks
            &&& after.now == state.now
        }),
{
}

/// A scope that is cancelled is cancelled for the reason given, which the trace tells
/// first; every task that waited in it is cancelled with it. What is cancelled or closed
/// already stays as it is.
pub proof fn law_cancelling_keeps_the_reason(state: SchedulerView, id: ScopeId, reason: CancelReason, k: int)
    requires
        state.well_formed(),
        state.has_scope(id),
    ensures
        state.scope(id).cancelled is Some || state.scope(id).closed ==> state.cancelled(id, reason) == state,
        state.scope(id).cancelled is None && !state.scope(id).closed ==> {
            let after = state.cancelled(id, reason);
            &&& after.scope(id).cancelled == Some(reason)
            &&& after.trace.len() > state.trace.len()
            &&& after.trace[state.trace.len() as int] == EventView::cancel(
                state.now,
                EventKind::ScopeCancelled,
                id,
                reason,
            )
            &&& 0 <= k < state.scope(id).tasks.len() && state.task(state.scope(id).tasks[k]).state is Waiting
                ==> after.task(state.scope(id).tasks[k]).state == TaskStateView::Terminal(
                OutcomeView::Cancelled(CancelReason::ParentCancelled),
            )
        },
{
    if state.scope(id).cancelled is None && !state.scope(id).closed {
        let scope = state.scope(id);
        assert(state.scope_ok(scope, id.0 - 1));
        let event = EventView::cancel(state.now, EventKind::ScopeCancelled, id, reason);
        let marked = state.with_scope(id, ScopeView { cancelled: Some(reason), ..scope }).traced(event);
        lemma_marked_shaped(state, marked, id, reason);
        lemma_cancelled_children(marked, scope.children, 0, id);
        let inner = marked.cancelled_children(scope.children, 0, id);
        lemma_cancelled_tasks(inner, scope.tasks, 0, id);
        let after = state.cancelled(id, reason);
        assert(after == inner.cancelled_tasks(scope.tasks, 0, id));
        assert(scope_extends(marked.scopes[id.0 - 1], inner.scopes[id.0 - 1]));
        assert(marked.trace.is_prefix_of(inner.trace));
        assert(inner.trace.is_prefix_of(after.trace));
        assert(after.trace[state.trace.len() as int] == inner.trace[state.trace.len() as int]);
        assert(inner.trace[state.trace.len() as int] == marked.trace[state.trace.len() as int]);
        lemma_only_cancels(state, id, reason);
        if 0 <= k < scope.tasks.len() && state.task(scope.tasks[k]).state is Waiting {
            let task = scope.tasks[k];
            assert(after.task(task).state is Terminal);
            assert(after.tasks[task.0 - 1] == state.tasks[task.0 - 1] || after.tasks[task.0 - 1].state
                == TaskStateView::Terminal(OutcomeView::Cancelled(CancelReason::ParentCancelled)));
        }
    }
}

/// Resources are released from the last one that was opened to the first.
pub proof fn law_the_last_resource_is_released_first(
    state: SchedulerView,
    resources: Seq<ResourceId>,
    count: int,
    scope: ScopeId,
    closed: nat,
)
    requires
        0 < count <= resources.len(),
        1 <= resources[count - 1].0 <= state.open.len(),
        state.open[resources[count - 1].0 - 1],
    ensures
        ({
            let id = resources[count - 1];
            let (after, released) = state.closed_resources(resources, count, scope, closed);
            &&& after.trace.len() > state.trace.len()
            &&& after.trace[state.trace.len() as int] == EventView::resource(
                state.now,
                EventKind::ResourceClosed,
                scope,
                id,
            )
            &&& released >= closed + 1
        }),
{
    let id = resources[count - 1];
    let next = SchedulerView { open: state.open.update(id.0 - 1, false), ..state }.traced(
        EventView::resource(state.now, EventKind::ResourceClosed, scope, id),
    );
    lemma_releasing_adds(next, resources, count - 1, scope, closed + 1);
    assert(state.closed_resources(resources, count, scope, closed) == next.closed_resources(
        resources,
        count - 1,
        scope,
        closed + 1,
    ));
    let after = state.closed_resources(resources, count, scope, closed).0;
    assert(next.trace.is_prefix_of(after.trace));
    assert(after.trace[state.trace.len() as int] == next.trace[state.trace.len() as int]);
}

proof fn lemma_releasing_adds(
    state: SchedulerView,
    resources: Seq<ResourceId>,
    count: int,
    scope: ScopeId,
    closed: nat,
)
    ensures
        state.trace.is_prefix_of(state.closed_resources(resources, count, scope, closed).0.trace),
        state.closed_resources(resources, count, scope, closed).1 >= closed,
    decreases count,
{
    if 0 < count <= resources.len() {
        let id = resources[count - 1];
        if 1 <= id.0 <= state.open.len() && state.open[id.0 - 1] {
            let next = SchedulerView { open: state.open.update(id.0 - 1, false), ..state }.traced(
                EventView::resource(state.now, EventKind::ResourceClosed, scope, id),
            );
            lemma_releasing_adds(next, resources, count - 1, scope, closed + 1);
        } else {
            lemma_releasing_adds(state, resources, count - 1, scope, closed);
        }
    }
}

/// The trace tells how a task ended: that it completed or failed, and with what, or that
/// it was cancelled, and why.
pub proof fn law_the_trace_tells_how_tasks_end(
    at: u64,
    scope: ScopeId,
    task: TaskId,
    text: Seq<char>,
    reason: CancelReason,
)
    ensures
        ({
            let done = EventView::outcome(at, scope, task, OutcomeView::Completed(text));
            let failed = EventView::outcome(at, scope, task, OutcomeView::Failed(text));
            let cancelled = EventView::outcome(at, scope, task, OutcomeView::Cancelled(reason));
            &&& done.kind == EventKind::TaskCompleted && done.detail == Some(text) && done.task == Some(task)
            &&& failed.kind == EventKind::TaskFailed && failed.detail == Some(text) && failed.task == Some(task)
            &&& cancelled.kind == EventKind::TaskCancelled && cancelled.reason == Some(reason) && cancelled.task
                == Some(task)
            &&& done.at == at && failed.at == at && cancelled.at == at
            &&& done.scope == scope && failed.scope == scope && cancelled.scope == scope
        }),
{
}

/// A grant is within another of its domain where its resource is the same or lies below
/// it; a name that only begins alike does not.
pub proof fn law_grants_go_by_whole_names(
    domain: Seq<char>,
    other_domain: Seq<char>,
    outer: Seq<char>,
    rest: Seq<char>,
    letter: char,
)
    requires
        domain != other_domain,
        letter != '/',
        outer.len() > 0,
    ensures
        (GrantView { domain, resource_prefix: outer }).within(GrantView { domain, resource_prefix: outer }),
        (GrantView { domain, resource_prefix: outer }).within(GrantView { domain, resource_prefix: Seq::empty() }),
        (GrantView { domain, resource_prefix: outer + seq!['/'] + rest }).within(
            GrantView { domain, resource_prefix: outer },
        ),
        !(GrantView { domain, resource_prefix: outer + seq![letter] + rest }).within(
            GrantView { domain, resource_prefix: outer },
        ),
        !(GrantView { domain, resource_prefix: outer }).within(
            GrantView { domain, resource_prefix: outer + seq!['/'] + rest },
        ),
        !(GrantView { domain: other_domain, resource_prefix: outer }).within(
            GrantView { domain, resource_prefix: outer },
        ),
{
    let below = outer + seq!['/'] + rest;
    let beside = outer + seq![letter] + rest;
    assert(below.take(outer.len() as int) =~= outer);
    assert(beside.take(outer.len() as int) =~= outer);
    assert(below[outer.len() as int] == '/');
    assert(beside[outer.len() as int] == letter);
    assert(below.len() > outer.len());
    assert(beside.len() > outer.len());
}

} // verus!
