//! Deterministic, single-threaded structured-concurrency runtime.
//!
//! Completions are scripted against an injected monotonic clock.
use vstd::prelude::*;
use crate::text::{same_text, text_precedes};

verus! {

#[derive(Debug, Clone, Copy, PartialEq, Eq, PartialOrd, Ord, Structural)]
pub struct ScopeId(pub u64);

#[derive(Debug, Clone, Copy, PartialEq, Eq, PartialOrd, Ord, Structural)]
pub struct TaskId(pub u64);

#[derive(Debug, Clone, Copy, PartialEq, Eq, PartialOrd, Ord, Structural)]
pub struct ResourceId(pub u64);

#[derive(Debug, PartialEq, Eq)]
pub struct CapabilityGrant {
    pub domain: String,
    /// Hierarchical resource prefix. Empty means the whole domain.
    pub resource_prefix: String,
}

/// What a [`CapabilityGrant`] holds.
pub struct GrantView {
    pub domain: Seq<char>,
    pub resource_prefix: Seq<char>,
}

impl GrantView {
    /// Whether this grant gives no more than `parent` does.
    pub open spec fn within(self, parent: GrantView) -> bool {
        self.domain == parent.domain && (parent.resource_prefix.len() == 0 || self.resource_prefix
            == parent.resource_prefix || (self.resource_prefix.len() > parent.resource_prefix.len()
            && self.resource_prefix.take(parent.resource_prefix.len() as int) == parent.resource_prefix
            && self.resource_prefix[parent.resource_prefix.len() as int] == '/'))
    }

    /// Whether some grant of `allowed` covers this one.
    pub open spec fn covered(self, allowed: Set<GrantView>) -> bool {
        exists|grant: GrantView| #[trigger] allowed.contains(grant) && self.within(grant)
    }

    /// The order of grants: by domain, then by resource prefix.
    pub open spec fn before(self, other: GrantView) -> bool {
        crate::text::precedes(self.domain, other.domain) || (self.domain == other.domain && crate::text::precedes(
            self.resource_prefix,
            other.resource_prefix,
        ))
    }
}

impl View for CapabilityGrant {
    type V = GrantView;

    open spec fn view(&self) -> GrantView {
        GrantView { domain: self.domain@, resource_prefix: self.resource_prefix@ }
    }
}

/// The grants as a set.
pub open spec fn grant_set(grants: Seq<CapabilityGrant>) -> Set<GrantView> {
    Set::new(|grant: GrantView| exists|i: int| 0 <= i < grants.len() && (#[trigger] grants[i])@ == grant)
}

impl CapabilityGrant {
    fn copy(&self) -> (result: CapabilityGrant)
        ensures
            result@ == self@,
    {
        CapabilityGrant { domain: self.domain.clone(), resource_prefix: self.resource_prefix.clone() }
    }

    /// Whether this grant gives no more than `parent` does.
    pub fn is_within(&self, parent: &CapabilityGrant) -> (result: bool)
        ensures
            result == self@.within(parent@),
    {
        if !same_text(self.domain.as_str(), parent.domain.as_str()) {
            return false;
        }
        let outer = crate::text::characters(parent.resource_prefix.as_str());
        let inner = crate::text::characters(self.resource_prefix.as_str());
        if outer.len() == 0 {
            return true;
        }
        if inner.len() < outer.len() {
            assert(self.resource_prefix@ != parent.resource_prefix@);
            return false;
        }
        let mut i: usize = 0;
        while i < outer.len()
            invariant
                i <= outer.len() <= inner.len(),
                0 < outer.len(),
                outer@ == parent.resource_prefix@,
                inner@ == self.resource_prefix@,
                forall|k: int| 0 <= k < i ==> inner@[k] == outer@[k],
            decreases outer.len() - i,
        {
            if inner[i] != outer[i] {
                assert(self.resource_prefix@.take(outer@.len() as int)[i as int] != parent.resource_prefix@[i as int]);
                return false;
            }
            i += 1;
        }
        assert(inner@.take(outer@.len() as int) =~= outer@);
        if inner.len() == outer.len() {
            assert(inner@ =~= outer@);
            return true;
        }
        inner[outer.len()] == '/'
    }

    fn is_before(&self, other: &CapabilityGrant) -> (result: bool)
        ensures
            result == self@.before(other@),
    {
        text_precedes(self.domain.as_str(), other.domain.as_str()) || (same_text(
            self.domain.as_str(),
            other.domain.as_str(),
        ) && text_precedes(self.resource_prefix.as_str(), other.resource_prefix.as_str()))
    }
}

#[derive(Debug, Clone, Copy, PartialEq, Eq, Structural)]
pub enum CancelReason {
    Explicit,
    ParentCancelled,
    Deadline,
    SiblingFailed,
    CapabilityRevoked,
    ScopeClosed,
}

#[derive(Debug, PartialEq, Eq)]
pub enum TaskOutcome {
    Completed(String),
    Failed(String),
    Cancelled(CancelReason),
}

/// What a [`TaskOutcome`] holds.
pub enum OutcomeView {
    Completed(Seq<char>),
    Failed(Seq<char>),
    Cancelled(CancelReason),
}

impl View for TaskOutcome {
    type V = OutcomeView;

    open spec fn view(&self) -> OutcomeView {
        match *self {
            TaskOutcome::Completed(text) => OutcomeView::Completed(text@),
            TaskOutcome::Failed(text) => OutcomeView::Failed(text@),
            TaskOutcome::Cancelled(reason) => OutcomeView::Cancelled(reason),
        }
    }
}

impl TaskOutcome {
    fn copy(&self) -> (result: TaskOutcome)
        ensures
            result@ == self@,
    {
        match self {
            TaskOutcome::Completed(text) => TaskOutcome::Completed(text.clone()),
            TaskOutcome::Failed(text) => TaskOutcome::Failed(text.clone()),
            TaskOutcome::Cancelled(reason) => TaskOutcome::Cancelled(*reason),
        }
    }
}

#[derive(Debug)]
enum TaskState {
    Waiting { at: u64, outcome: TaskOutcome },
    Terminal(TaskOutcome),
}

#[derive(Debug)]
struct Task {
    scope: ScopeId,
    state: TaskState,
}

#[derive(Debug)]
struct Scope {
    parent: Option<ScopeId>,
    children: Vec<ScopeId>,
    tasks: Vec<TaskId>,
    resources: Vec<ResourceId>,
    grants: Vec<CapabilityGrant>,
    deadline: Option<u64>,
    cancelled: Option<CancelReason>,
    closed: bool,
}

/// Where a task stands.
pub enum TaskStateView {
    Waiting { at: u64, outcome: OutcomeView },
    Terminal(OutcomeView),
}

pub struct TaskView {
    pub scope: ScopeId,
    pub state: TaskStateView,
}

pub struct ScopeView {
    pub parent: Option<ScopeId>,
    pub children: Seq<ScopeId>,
    pub tasks: Seq<TaskId>,
    pub resources: Seq<ResourceId>,
    pub grants: Set<GrantView>,
    pub deadline: Option<u64>,
    pub cancelled: Option<CancelReason>,
    pub closed: bool,
}

#[derive(Debug, Clone, Copy, PartialEq, Eq, Structural)]
pub enum EventKind {
    ScopeOpened,
    ScopeCancelled,
    ScopeCompleted,
    TaskCreated,
    TaskWaiting,
    TaskCompleted,
    TaskFailed,
    TaskCancelled,
    JoinCompleted,
    ResourceOpened,
    ResourceClosed,
}

#[derive(Debug, PartialEq, Eq)]
pub struct TraceEvent {
    pub at: u64,
    pub kind: EventKind,
    pub scope: ScopeId,
    pub task: Option<TaskId>,
    pub resource: Option<ResourceId>,
    pub reason: Option<CancelReason>,
    pub detail: Option<String>,
}

/// What a [`TraceEvent`] holds.
pub struct EventView {
    pub at: u64,
    pub kind: EventKind,
    pub scope: ScopeId,
    pub task: Option<TaskId>,
    pub resource: Option<ResourceId>,
    pub reason: Option<CancelReason>,
    pub detail: Option<Seq<char>>,
}

impl View for TraceEvent {
    type V = EventView;

    open spec fn view(&self) -> EventView {
        EventView {
            at: self.at,
            kind: self.kind,
            scope: self.scope,
            task: self.task,
            resource: self.resource,
            reason: self.reason,
            detail: match self.detail {
                Some(text) => Some(text@),
                None => None,
            },
        }
    }
}

pub open spec fn events(trace: Seq<TraceEvent>) -> Seq<EventView> {
    Seq::new(trace.len(), |i: int| trace[i]@)
}

impl EventView {
    pub open spec fn scope(at: u64, kind: EventKind, scope: ScopeId) -> EventView {
        EventView { at, kind, scope, task: None, resource: None, reason: None, detail: None }
    }

    pub open spec fn task(at: u64, kind: EventKind, scope: ScopeId, task: TaskId) -> EventView {
        EventView { at, kind, scope, task: Some(task), resource: None, reason: None, detail: None }
    }

    pub open spec fn resource(at: u64, kind: EventKind, scope: ScopeId, resource: ResourceId) -> EventView {
        EventView { at, kind, scope, task: None, resource: Some(resource), reason: None, detail: None }
    }

    pub open spec fn cancel(at: u64, kind: EventKind, scope: ScopeId, reason: CancelReason) -> EventView {
        EventView { at, kind, scope, task: None, resource: None, reason: Some(reason), detail: None }
    }

    pub open spec fn outcome(at: u64, scope: ScopeId, task: TaskId, outcome: OutcomeView) -> EventView {
        match outcome {
            OutcomeView::Completed(text) => EventView {
                at,
                kind: EventKind::TaskCompleted,
                scope,
                task: Some(task),
                resource: None,
                reason: None,
                detail: Some(text),
            },
            OutcomeView::Failed(text) => EventView {
                at,
                kind: EventKind::TaskFailed,
                scope,
                task: Some(task),
                resource: None,
                reason: None,
                detail: Some(text),
            },
            OutcomeView::Cancelled(reason) => EventView {
                at,
                kind: EventKind::TaskCancelled,
                scope,
                task: Some(task),
                resource: None,
                reason: Some(reason),
                detail: None,
            },
        }
    }
}

impl TraceEvent {
    fn scope(at: u64, kind: EventKind, scope: ScopeId) -> (event: Self)
        ensures
            event@ == EventView::scope(at, kind, scope),
    {
        TraceEvent { at, kind, scope, task: None, resource: None, reason: None, detail: None }
    }

    fn task(at: u64, kind: EventKind, scope: ScopeId, task: TaskId) -> (event: Self)
        ensures
            event@ == EventView::task(at, kind, scope, task),
    {
        TraceEvent { at, kind, scope, task: Some(task), resource: None, reason: None, detail: None }
    }

    fn resource(at: u64, kind: EventKind, scope: ScopeId, resource: ResourceId) -> (event: Self)
        ensures
            event@ == EventView::resource(at, kind, scope, resource),
    {
        TraceEvent { at, kind, scope, task: None, resource: Some(resource), reason: None, detail: None }
    }

    fn cancel(at: u64, kind: EventKind, scope: ScopeId, reason: CancelReason) -> (event: Self)
        ensures
            event@ == EventView::cancel(at, kind, scope, reason),
    {
        TraceEvent { at, kind, scope, task: None, resource: None, reason: Some(reason), detail: None }
    }

    fn outcome(at: u64, scope: ScopeId, task: TaskId, outcome: &TaskOutcome) -> (event: Self)
        ensures
            event@ == EventView::outcome(at, scope, task, outcome@),
    {
        match outcome {
            TaskOutcome::Completed(text) => TraceEvent {
                at,
                kind: EventKind::TaskCompleted,
                scope,
                task: Some(task),
                resource: None,
                reason: None,
                detail: Some(text.clone()),
            },
            TaskOutcome::Failed(text) => TraceEvent {
                at,
                kind: EventKind::TaskFailed,
                scope,
                task: Some(task),
                resource: None,
                reason: None,
                detail: Some(text.clone()),
            },
            TaskOutcome::Cancelled(reason) => TraceEvent {
                at,
                kind: EventKind::TaskCancelled,
                scope,
                task: Some(task),
                resource: None,
                reason: Some(*reason),
                detail: None,
            },
        }
    }
}

#[derive(Debug, PartialEq, Eq)]
pub struct TraceDocument<'a> {
    pub contract_version: &'static str,
    pub events: &'a [TraceEvent],
}

#[derive(Debug, PartialEq, Eq)]
pub enum RuntimeError {
    UnknownScope,
    ScopeClosed,
    CapabilityAmplification(CapabilityGrant),
    DeadlineExceedsParent,
    UnknownTask,
    AlreadyJoined,
    TaskPending,
}

#[derive(Debug)]
pub struct JoinHandle {
    task: TaskId,
    joined: bool,
}

impl JoinHandle {
    /// The task that the handle stands for.
    pub closed spec fn id(&self) -> TaskId {
        self.task
    }

    /// Whether the handle has been used.
    pub closed spec fn used(&self) -> bool {
        self.joined
    }
}

#[derive(Debug, Clone, Copy, PartialEq, Eq, Structural)]
pub struct CleanupReport {
    pub cancelled_tasks: usize,
    pub closed_resources: usize,
}

/// The state of a scheduler. Scope, task and resource `n` stand at index
/// `n - 1`.
pub struct SchedulerView {
    pub now: u64,
    pub scopes: Seq<ScopeView>,
    pub tasks: Seq<TaskView>,
    pub open: Seq<bool>,
    pub trace: Seq<EventView>,
}

impl SchedulerView {
    pub open spec fn initial(grants: Set<GrantView>) -> SchedulerView {
        SchedulerView {
            now: 0,
            scopes: seq![
                ScopeView {
                    parent: None,
                    children: Seq::empty(),
                    tasks: Seq::empty(),
                    resources: Seq::empty(),
                    grants,
                    deadline: None,
                    cancelled: None,
                    closed: false,
                },
            ],
            tasks: Seq::empty(),
            open: Seq::empty(),
            trace: seq![EventView::scope(0, EventKind::ScopeOpened, ScopeId(1))],
        }
    }

    pub open spec fn has_scope(self, id: ScopeId) -> bool {
        1 <= id.0 <= self.scopes.len()
    }

    pub open spec fn has_task(self, id: TaskId) -> bool {
        1 <= id.0 <= self.tasks.len()
    }

    pub open spec fn scope(self, id: ScopeId) -> ScopeView {
        self.scopes[id.0 - 1]
    }

    pub open spec fn task(self, id: TaskId) -> TaskView {
        self.tasks[id.0 - 1]
    }

    pub open spec fn with_scope(self, id: ScopeId, scope: ScopeView) -> SchedulerView {
        SchedulerView { scopes: self.scopes.update(id.0 - 1, scope), ..self }
    }

    pub open spec fn traced(self, event: EventView) -> SchedulerView {
        SchedulerView { trace: self.trace.push(event), ..self }
    }

    /// What every reachable scheduler satisfies: identifiers are in range,
    /// children are younger than their parents and hold no more authority or
    /// time, and nothing is left waiting in a cancelled or closed scope.
    pub open spec fn well_formed(self) -> bool {
        self.shaped() && forall|i: int| 0 <= i < self.tasks.len() ==> !#[trigger] self.stranded(i)
    }

    /// Task `i + 1` waits in a cancelled scope.
    pub open spec fn stranded(self, i: int) -> bool {
        self.tasks[i].state is Waiting && self.scope(self.tasks[i].scope).cancelled is Some
    }

    pub open spec fn shaped(self) -> bool {
        &&& 1 <= self.scopes.len() <= u64::MAX
        &&& self.tasks.len() <= u64::MAX
        &&& self.open.len() <= u64::MAX
        &&& forall|i: int| 0 <= i < self.scopes.len() ==> self.scope_ok(#[trigger] self.scopes[i], i)
        &&& forall|i: int| 0 <= i < self.tasks.len() ==> self.task_ok(#[trigger] self.tasks[i], i)
    }

    pub open spec fn task_ok(self, task: TaskView, index: int) -> bool {
        self.has_scope(task.scope) && self.scope(task.scope).tasks.contains(TaskId((index + 1) as u64))
    }

    pub open spec fn scope_ok(self, scope: ScopeView, index: int) -> bool {
        &&& forall|k: int|
            0 <= k < scope.children.len() ==> index + 1 < (#[trigger] scope.children[k]).0 <= self.scopes.len()
        &&& forall|k: int|
            0 <= k < scope.tasks.len() ==> 1 <= (#[trigger] scope.tasks[k]).0 <= self.tasks.len() && self.task(
                scope.tasks[k],
            ).scope == ScopeId((index + 1) as u64)
        &&& forall|k: int| 0 <= k < scope.resources.len() ==> 1 <= (#[trigger] scope.resources[k]).0 <= self.open.len()
        &&& scope.closed ==> scope.cancelled is Some
        &&& match scope.parent {
            None => index == 0,
            Some(parent) => 1 <= parent.0 <= index && (forall|grant: GrantView| #[trigger]
                scope.grants.contains(grant) ==> grant.covered(self.scope(parent).grants)) && match (
                scope.deadline,
                self.scope(parent).deadline,
            ) {
                (Some(child), Some(bound)) => child <= bound,
                _ => true,
            },
        }
    }
}


impl SchedulerView {
    /// Task `id` ends with `outcome`.
    pub open spec fn finished(self, id: TaskId, scope: ScopeId, outcome: OutcomeView) -> SchedulerView {
        SchedulerView {
            tasks: self.tasks.update(
                id.0 - 1,
                TaskView { scope: self.task(id).scope, state: TaskStateView::Terminal(outcome) },
            ),
            ..self
        }.traced(EventView::outcome(self.now, scope, id, outcome))
    }

    /// The waiting tasks among `tasks[from..]` are cancelled.
    pub open spec fn cancelled_tasks(self, tasks: Seq<TaskId>, from: int, scope: ScopeId) -> SchedulerView
        decreases tasks.len() - from,
    {
        if from < 0 || from >= tasks.len() {
            self
        } else if self.has_task(tasks[from]) && self.task(tasks[from]).state is Waiting {
            self.finished(tasks[from], scope, OutcomeView::Cancelled(CancelReason::ParentCancelled)).cancelled_tasks(
                tasks,
                from + 1,
                scope,
            )
        } else {
            self.cancelled_tasks(tasks, from + 1, scope)
        }
    }

    /// Scope `id` is cancelled, then its children, then its own tasks. A scope
    /// that is already cancelled or closed is left alone.
    pub open spec fn cancelled(self, id: ScopeId, reason: CancelReason) -> SchedulerView
        decreases u64::MAX - id.0, 1int, 0int,
    {
        if !self.has_scope(id) || self.scope(id).cancelled is Some || self.scope(id).closed {
            self
        } else {
            let scope = self.scope(id);
            self.with_scope(id, ScopeView { cancelled: Some(reason), ..scope }).traced(
                EventView::cancel(self.now, EventKind::ScopeCancelled, id, reason),
            ).cancelled_children(scope.children, 0, id).cancelled_tasks(scope.tasks, 0, id)
        }
    }

    pub open spec fn cancelled_children(self, children: Seq<ScopeId>, from: int, owner: ScopeId) -> SchedulerView
        decreases u64::MAX - owner.0, 0int, children.len() - from,
    {
        if from < 0 || from >= children.len() || children[from].0 <= owner.0 {
            self
        } else {
            self.cancelled(children[from], CancelReason::ParentCancelled).cancelled_children(children, from + 1, owner)
        }
    }

    /// The scopes `ids[from..]` miss their deadline.
    pub open spec fn expired(self, ids: Seq<ScopeId>, from: int) -> SchedulerView
        decreases ids.len() - from,
    {
        if from < 0 || from >= ids.len() {
            self
        } else {
            self.cancelled(ids[from], CancelReason::Deadline).expired(ids, from + 1)
        }
    }

    pub open spec fn is_overdue(self, index: int, at: u64) -> bool {
        !self.scopes[index].closed && self.scopes[index].cancelled is None && match self.scopes[index].deadline {
            Some(deadline) => deadline <= at,
            None => false,
        }
    }

    /// The scopes `from + 1 ..` whose deadline has passed, oldest first.
    pub open spec fn overdue(self, from: int, at: u64) -> Seq<ScopeId>
        decreases self.scopes.len() - from,
    {
        if from < 0 || from >= self.scopes.len() {
            Seq::empty()
        } else if self.is_overdue(from, at) {
            seq![ScopeId((from + 1) as u64)] + self.overdue(from + 1, at)
        } else {
            self.overdue(from + 1, at)
        }
    }

    pub open spec fn is_due(self, index: int, at: u64) -> bool {
        match self.tasks[index].state {
            TaskStateView::Waiting { at: due, .. } => due <= at,
            TaskStateView::Terminal(_) => false,
        }
    }

    /// The tasks `from + 1 ..` that are due complete, oldest first.
    pub open spec fn completed(self, from: int, at: u64) -> SchedulerView
        decreases self.tasks.len() - from,
    {
        if from < 0 || from >= self.tasks.len() || from >= u64::MAX {
            self
        } else if self.is_due(from, at) {
            self.finished(
                TaskId((from + 1) as u64),
                self.tasks[from].scope,
                self.tasks[from].state->outcome,
            ).completed(from + 1, at)
        } else {
            self.completed(from + 1, at)
        }
    }

    /// The clock moves to `at`: deadlines first, then completions.
    pub open spec fn advanced(self, at: u64) -> SchedulerView {
        let clock = SchedulerView { now: at, ..self };
        clock.expired(clock.overdue(0, at), 0).completed(0, at)
    }

    /// How many of the tasks `1 ..= count` wait.
    pub open spec fn waiting(self, count: int) -> nat
        decreases count,
    {
        if count <= 0 {
            0
        } else {
            self.waiting(count - 1) + if self.tasks[count - 1].state is Waiting {
                1nat
            } else {
                0nat
            }
        }
    }

    /// How many of the tasks `1 ..= count` wait in `scope`.
    pub open spec fn waiting_in(self, scope: ScopeId, count: int) -> nat
        decreases count,
    {
        if count <= 0 {
            0
        } else {
            self.waiting_in(scope, count - 1) + if self.tasks[count - 1].state is Waiting && self.tasks[count
                - 1].scope == scope {
                1nat
            } else {
                0nat
            }
        }
    }

    /// How many of the resources `1 ..= count` are open.
    pub open spec fn open_count(self, count: int) -> nat
        decreases count,
    {
        if count <= 0 {
            0
        } else {
            self.open_count(count - 1) + if self.open[count - 1] {
                1nat
            } else {
                0nat
            }
        }
    }

    /// The resources `resources[..count]` are closed, youngest first; `closed`
    /// were closed before.
    pub open spec fn closed_resources(self, resources: Seq<ResourceId>, count: int, scope: ScopeId, closed: nat) -> (
        SchedulerView,
        nat,
    )
        decreases count,
    {
        if count <= 0 || count > resources.len() {
            (self, closed)
        } else {
            let id = resources[count - 1];
            if 1 <= id.0 <= self.open.len() && self.open[id.0 - 1] {
                SchedulerView { open: self.open.update(id.0 - 1, false), ..self }.traced(
                    EventView::resource(self.now, EventKind::ResourceClosed, scope, id),
                ).closed_resources(resources, count - 1, scope, closed + 1)
            } else {
                self.closed_resources(resources, count - 1, scope, closed)
            }
        }
    }

    /// Scope `id` is marked closed, once.
    pub open spec fn completed_scope(self, id: ScopeId) -> SchedulerView {
        if self.scope(id).closed {
            self
        } else {
            self.with_scope(id, ScopeView { closed: true, ..self.scope(id) }).traced(
                EventView::scope(self.now, EventKind::ScopeCompleted, id),
            )
        }
    }

    /// Scope `id` is closed: it is cancelled, its children are closed, and its
    /// resources are released in reverse order of opening. Yields the state, the
    /// number of cancelled tasks and the number of released resources.
    pub open spec fn closed(self, id: ScopeId) -> (SchedulerView, nat, nat)
        decreases u64::MAX - id.0, 1int, 0int,
    {
        let pending = self.waiting_in(id, self.tasks.len() as int);
        let cancelled = self.cancelled(id, CancelReason::ScopeClosed);
        let scope = cancelled.scope(id);
        let (state, tasks, released) = cancelled.closed_children(scope.children, 0, id, pending, 0);
        let (state, released) = state.closed_resources(scope.resources, scope.resources.len() as int, id, released);
        (state.completed_scope(id), tasks, released)
    }

    pub open spec fn closed_children(
        self,
        children: Seq<ScopeId>,
        from: int,
        owner: ScopeId,
        tasks: nat,
        released: nat,
    ) -> (SchedulerView, nat, nat)
        decreases u64::MAX - owner.0, 0int, children.len() - from,
    {
        if from < 0 || from >= children.len() || children[from].0 <= owner.0 {
            (self, tasks, released)
        } else {
            let (state, child_tasks, child_released) = self.closed(children[from]);
            state.closed_children(children, from + 1, owner, tasks + child_tasks, released + child_released)
        }
    }
}

/// `after` extends `before`: nothing that was recorded, ended or cancelled is
/// undone, and no task is newly stranded.
pub open spec fn extends(before: SchedulerView, after: SchedulerView) -> bool {
    &&& after.now == before.now
    &&& after.scopes.len() == before.scopes.len()
    &&& after.tasks.len() == before.tasks.len()
    &&& after.open.len() == before.open.len()
    &&& forall|i: int| 0 <= i < before.scopes.len() ==> scope_extends(before.scopes[i], #[trigger] after.scopes[i])
    &&& forall|i: int| 0 <= i < before.tasks.len() ==> task_extends(before.tasks[i], #[trigger] after.tasks[i])
    &&& forall|i: int| 0 <= i < before.open.len() && #[trigger] after.open[i] ==> before.open[i]
    &&& forall|i: int| 0 <= i < before.tasks.len() && #[trigger] after.stranded(i) ==> before.stranded(i)
    &&& before.trace.is_prefix_of(after.trace)
}

pub open spec fn scope_extends(before: ScopeView, after: ScopeView) -> bool {
    &&& after.parent == before.parent
    &&& after.children == before.children
    &&& after.tasks == before.tasks
    &&& after.resources == before.resources
    &&& after.grants == before.grants
    &&& after.deadline == before.deadline
    &&& before.cancelled is Some ==> after.cancelled == before.cancelled
    &&& before.closed ==> after.closed
    &&& after.closed ==> before.closed || after.cancelled is Some
}

pub open spec fn task_extends(before: TaskView, after: TaskView) -> bool {
    after.scope == before.scope && (before.state is Terminal ==> after.state == before.state)
}

proof fn lemma_extends_transitive(first: SchedulerView, second: SchedulerView, third: SchedulerView)
    requires
        extends(first, second),
        extends(second, third),
    ensures
        extends(first, third),
{
    assert forall|i: int| 0 <= i < first.scopes.len() implies scope_extends(first.scopes[i], #[trigger] third.scopes[i]) by {
        assert(scope_extends(first.scopes[i], second.scopes[i]));
        assert(scope_extends(second.scopes[i], third.scopes[i]));
    }
    assert forall|i: int| 0 <= i < first.tasks.len() implies task_extends(first.tasks[i], #[trigger] third.tasks[i]) by {
        assert(task_extends(first.tasks[i], second.tasks[i]));
        assert(task_extends(second.tasks[i], third.tasks[i]));
    }
    assert forall|i: int| 0 <= i < first.tasks.len() && #[trigger] third.stranded(i) implies first.stranded(i) by {
        assert(second.stranded(i));
    }
    assert forall|i: int| 0 <= i < first.open.len() && #[trigger] third.open[i] implies first.open[i] by {
        assert(second.open[i]);
    }
    assert(first.trace.is_prefix_of(third.trace)) by {
        assert(first.trace =~= third.trace.take(first.trace.len() as int)) by {
            assert(first.trace =~= second.trace.take(first.trace.len() as int));
            assert(second.trace =~= third.trace.take(second.trace.len() as int));
        }
    }
}

/// An extension keeps the shape.
pub(crate) proof fn lemma_extends_shaped(before: SchedulerView, after: SchedulerView)
    requires
        before.shaped(),
        extends(before, after),
    ensures
        after.shaped(),
{
    assert forall|i: int| 0 <= i < after.scopes.len() implies after.scope_ok(#[trigger] after.scopes[i], i) by {
        assert(before.scope_ok(before.scopes[i], i));
        assert(scope_extends(before.scopes[i], after.scopes[i]));
        let scope = after.scopes[i];
        assert forall|k: int| 0 <= k < scope.tasks.len() implies 1 <= (#[trigger] scope.tasks[k]).0 <= after.tasks.len()
            && after.task(scope.tasks[k]).scope == ScopeId((i + 1) as u64) by {
            let id = before.scopes[i].tasks[k];
            assert(task_extends(before.tasks[id.0 - 1], after.tasks[id.0 - 1]));
        }
        if let Some(parent) = scope.parent {
            assert(scope_extends(before.scopes[parent.0 - 1], after.scopes[parent.0 - 1]));
        }
    }
    assert forall|i: int| 0 <= i < after.tasks.len() implies after.task_ok(#[trigger] after.tasks[i], i) by {
        assert(before.task_ok(before.tasks[i], i));
        assert(task_extends(before.tasks[i], after.tasks[i]));
        let id = before.tasks[i].scope;
        assert(scope_extends(before.scopes[id.0 - 1], after.scopes[id.0 - 1]));
    }
}

pub(crate) proof fn lemma_cancelled_tasks(state: SchedulerView, tasks: Seq<TaskId>, from: int, scope: ScopeId)
    requires
        0 <= from,
        forall|k: int| 0 <= k < tasks.len() ==> 1 <= (#[trigger] tasks[k]).0 <= state.tasks.len(),
    ensures
        extends(state, state.cancelled_tasks(tasks, from, scope)),
        state.cancelled_tasks(tasks, from, scope).scopes == state.scopes,
        state.cancelled_tasks(tasks, from, scope).open == state.open,
        forall|k: int|
            from <= k < tasks.len() ==> state.cancelled_tasks(tasks, from, scope).task(
                #[trigger] tasks[k],
            ).state is Terminal,
    decreases tasks.len() - from,
{
    if from < tasks.len() {
        let id = tasks[from];
        if state.task(id).state is Waiting {
            let next = state.finished(id, scope, OutcomeView::Cancelled(CancelReason::ParentCancelled));
            assert(extends(state, next)) by {
                assert(state.trace =~= next.trace.take(state.trace.len() as int));
            }
            lemma_cancelled_tasks(next, tasks, from + 1, scope);
            let last = next.cancelled_tasks(tasks, from + 1, scope);
            lemma_extends_transitive(state, next, last);
            assert(task_extends(next.tasks[id.0 - 1], last.tasks[id.0 - 1]));
        } else {
            lemma_cancelled_tasks(state, tasks, from + 1, scope);
            let last = state.cancelled_tasks(tasks, from + 1, scope);
            assert(task_extends(state.tasks[id.0 - 1], last.tasks[id.0 - 1]));
        }
    } else {
        assert(state.trace =~= state.trace.take(state.trace.len() as int));
    }
}

proof fn lemma_extends_reflexive(state: SchedulerView)
    ensures
        extends(state, state),
{
    assert(state.trace =~= state.trace.take(state.trace.len() as int));
}

pub(crate) proof fn lemma_cancelled(state: SchedulerView, id: ScopeId, reason: CancelReason)
    requires
        state.shaped(),
    ensures
        extends(state, state.cancelled(id, reason)),
        state.cancelled(id, reason).shaped(),
        state.cancelled(id, reason).open == state.open,
        state.has_scope(id) ==> state.cancelled(id, reason).scope(id).cancelled is Some,
    decreases u64::MAX - id.0, 1int, 0int,
{
    lemma_extends_reflexive(state);
    if state.has_scope(id) && !(state.scope(id).cancelled is Some) && !state.scope(id).closed {
        let scope = state.scope(id);
        assert(state.scope_ok(scope, id.0 - 1));
        let marked = state.with_scope(id, ScopeView { cancelled: Some(reason), ..scope }).traced(
            EventView::cancel(state.now, EventKind::ScopeCancelled, id, reason),
        );
        lemma_marked_shaped(state, marked, id, reason);
        lemma_cancelled_children(marked, scope.children, 0, id);
        let inner = marked.cancelled_children(scope.children, 0, id);
        lemma_cancelled_tasks(inner, scope.tasks, 0, id);
        let last = inner.cancelled_tasks(scope.tasks, 0, id);
        lemma_extends_transitive(marked, inner, last);
        assert(scope_extends(marked.scopes[id.0 - 1], last.scopes[id.0 - 1]));
        assert forall|i: int| 0 <= i < state.scopes.len() implies scope_extends(state.scopes[i], #[trigger] last.scopes[i]) by {
            assert(scope_extends(marked.scopes[i], last.scopes[i]));
        }
        assert forall|i: int| 0 <= i < state.tasks.len() implies task_extends(state.tasks[i], #[trigger] last.tasks[i]) by {
            assert(task_extends(marked.tasks[i], last.tasks[i]));
        }
        assert forall|i: int| 0 <= i < state.tasks.len() && #[trigger] last.stranded(i) implies state.stranded(i) by {
            assert(marked.stranded(i));
            assert(state.task_ok(state.tasks[i], i));
            if state.tasks[i].scope == id {
                let k = choose|k: int| 0 <= k < scope.tasks.len() && scope.tasks[k] == TaskId((i + 1) as u64);
                assert(scope.tasks[k] == TaskId((i + 1) as u64));
                assert(last.task(scope.tasks[k]).state is Terminal);
            }
        }
        assert(state.trace.is_prefix_of(last.trace)) by {
            assert(state.trace =~= marked.trace.take(state.trace.len() as int));
            assert(marked.trace =~= last.trace.take(marked.trace.len() as int));
            assert(state.trace =~= last.trace.take(state.trace.len() as int));
        }
        assert(extends(state, last));
        lemma_extends_shaped(state, last);
    }
}

pub(crate) proof fn lemma_marked_shaped(state: SchedulerView, marked: SchedulerView, id: ScopeId, reason: CancelReason)
    requires
        state.shaped(),
        state.has_scope(id),
        state.scope(id).cancelled is None,
        marked == state.with_scope(id, ScopeView { cancelled: Some(reason), ..state.scope(id) }).traced(
            EventView::cancel(state.now, EventKind::ScopeCancelled, id, reason),
        ),
    ensures
        marked.shaped(),
{
    assert forall|i: int| 0 <= i < marked.scopes.len() implies marked.scope_ok(#[trigger] marked.scopes[i], i) by {
        assert(state.scope_ok(state.scopes[i], i));
    }
    assert forall|i: int| 0 <= i < marked.tasks.len() implies marked.task_ok(#[trigger] marked.tasks[i], i) by {
        assert(state.task_ok(state.tasks[i], i));
    }
}

pub(crate) proof fn lemma_cancelled_children(state: SchedulerView, children: Seq<ScopeId>, from: int, owner: ScopeId)
    requires
        state.shaped(),
        0 <= from,
    ensures
        extends(state, state.cancelled_children(children, from, owner)),
        state.cancelled_children(children, from, owner).shaped(),
        state.cancelled_children(children, from, owner).open == state.open,
    decreases u64::MAX - owner.0, 0int, children.len() - from,
{
    lemma_extends_reflexive(state);
    if from < children.len() && children[from].0 > owner.0 {
        lemma_cancelled(state, children[from], CancelReason::ParentCancelled);
        let next = state.cancelled(children[from], CancelReason::ParentCancelled);
        lemma_cancelled_children(next, children, from + 1, owner);
        lemma_extends_transitive(state, next, next.cancelled_children(children, from + 1, owner));
    }
}

pub(crate) proof fn lemma_expired(state: SchedulerView, ids: Seq<ScopeId>, from: int)
    requires
        state.shaped(),
        0 <= from,
    ensures
        extends(state, state.expired(ids, from)),
        state.expired(ids, from).shaped(),
    decreases ids.len() - from,
{
    lemma_extends_reflexive(state);
    if from < ids.len() {
        lemma_cancelled(state, ids[from], CancelReason::Deadline);
        let next = state.cancelled(ids[from], CancelReason::Deadline);
        lemma_expired(next, ids, from + 1);
        lemma_extends_transitive(state, next, next.expired(ids, from + 1));
    }
}

pub(crate) proof fn lemma_completed(state: SchedulerView, from: int, at: u64)
    requires
        state.shaped(),
        0 <= from,
    ensures
        extends(state, state.completed(from, at)),
        state.completed(from, at).shaped(),
        state.completed(from, at).scopes == state.scopes,
    decreases state.tasks.len() - from,
{
    lemma_extends_reflexive(state);
    if from < state.tasks.len() {
        if state.is_due(from, at) {
            let next = state.finished(
                TaskId((from + 1) as u64),
                state.tasks[from].scope,
                state.tasks[from].state->outcome,
            );
            assert(extends(state, next)) by {
                assert(state.trace =~= next.trace.take(state.trace.len() as int));
            }
            lemma_extends_shaped(state, next);
            lemma_completed(next, from + 1, at);
            lemma_extends_transitive(state, next, next.completed(from + 1, at));
        } else {
            lemma_completed(state, from + 1, at);
        }
    }
}

pub(crate) proof fn lemma_extends_well_formed(before: SchedulerView, after: SchedulerView)
    requires
        before.well_formed(),
        extends(before, after),
    ensures
        after.well_formed(),
{
    lemma_extends_shaped(before, after);
    assert forall|i: int| 0 <= i < after.tasks.len() implies !#[trigger] after.stranded(i) by {
        if after.stranded(i) {
            assert(before.stranded(i));
        }
    }
}

proof fn lemma_waiting_shrinks(before: SchedulerView, after: SchedulerView, count: int)
    requires
        extends(before, after),
        count <= before.tasks.len(),
    ensures
        after.waiting(count) <= before.waiting(count),
    decreases count,
{
    if count > 0 {
        assert(task_extends(before.tasks[count - 1], after.tasks[count - 1]));
        lemma_waiting_shrinks(before, after, count - 1);
    }
}

proof fn lemma_waiting_leaves_scope(before: SchedulerView, after: SchedulerView, scope: ScopeId, count: int)
    requires
        extends(before, after),
        count <= before.tasks.len(),
        forall|i: int|
            0 <= i < before.tasks.len() && (
                #[trigger] after.tasks[i]
            ).state is Waiting ==> before.tasks[i].scope != scope,
    ensures
        after.waiting(count) + before.waiting_in(scope, count) <= before.waiting(count),
    decreases count,
{
    if count > 0 {
        assert(task_extends(before.tasks[count - 1], after.tasks[count - 1]));
        lemma_waiting_leaves_scope(before, after, scope, count - 1);
    }
}

proof fn lemma_waiting_bound(state: SchedulerView, count: int)
    requires
        count >= 0,
    ensures
        state.waiting(count) <= count,
    decreases count,
{
    if count > 0 {
        lemma_waiting_bound(state, count - 1);
    }
}

proof fn lemma_open_bound(state: SchedulerView, count: int)
    requires
        count >= 0,
    ensures
        state.open_count(count) <= count,
    decreases count,
{
    if count > 0 {
        lemma_open_bound(state, count - 1);
    }
}

proof fn lemma_open_update(before: SchedulerView, after: SchedulerView, index: int, count: int)
    requires
        0 <= index < before.open.len(),
        count <= before.open.len(),
        before.open[index],
        after.open == before.open.update(index, false),
    ensures
        before.open_count(count) == after.open_count(count) + if index < count {
            1nat
        } else {
            0nat
        },
    decreases count,
{
    if count > 0 {
        lemma_open_update(before, after, index, count - 1);
    }
}

proof fn lemma_open_same(before: SchedulerView, after: SchedulerView, count: int)
    requires
        after.open == before.open,
    ensures
        after.open_count(count) == before.open_count(count),
    decreases count,
{
    if count > 0 {
        lemma_open_same(before, after, count - 1);
    }
}

proof fn lemma_closed_resources(
    state: SchedulerView,
    resources: Seq<ResourceId>,
    count: int,
    scope: ScopeId,
    closed: nat,
)
    ensures
        extends(state, state.closed_resources(resources, count, scope, closed).0),
        state.closed_resources(resources, count, scope, closed).0.scopes == state.scopes,
        state.closed_resources(resources, count, scope, closed).0.tasks == state.tasks,
        state.closed_resources(resources, count, scope, closed).1 + state.closed_resources(
            resources,
            count,
            scope,
            closed,
        ).0.open_count(state.open.len() as int) == closed + state.open_count(state.open.len() as int),
    decreases count,
{
    lemma_extends_reflexive(state);
    if 0 < count <= resources.len() {
        let id = resources[count - 1];
        if 1 <= id.0 <= state.open.len() && state.open[id.0 - 1] {
            let next = SchedulerView { open: state.open.update(id.0 - 1, false), ..state }.traced(
                EventView::resource(state.now, EventKind::ResourceClosed, scope, id),
            );
            assert(extends(state, next)) by {
                assert(state.trace =~= next.trace.take(state.trace.len() as int));
            }
            lemma_open_update(state, next, id.0 - 1, state.open.len() as int);
            lemma_closed_resources(next, resources, count - 1, scope, closed + 1);
            lemma_extends_transitive(state, next, next.closed_resources(resources, count - 1, scope, closed + 1).0);
        } else {
            lemma_closed_resources(state, resources, count - 1, scope, closed);
        }
    }
}

/// Closing a scope extends the state, leaves the scope closed, and counts each
/// cancelled task and released resource once.
pub(crate) proof fn lemma_closed(state: SchedulerView, id: ScopeId)
    requires
        state.well_formed(),
        state.has_scope(id),
    ensures
        ({
            let (after, tasks, released) = state.closed(id);
            &&& extends(state, after)
            &&& after.well_formed()
            &&& after.scope(id).closed
            &&& tasks + after.waiting(state.tasks.len() as int) <= state.waiting(state.tasks.len() as int)
            &&& released + after.open_count(state.open.len() as int) == state.open_count(state.open.len() as int)
        }),
    decreases u64::MAX - id.0, 1int, 0int,
{
    let count = state.tasks.len() as int;
    let pending = state.waiting_in(id, count);
    let cancelled = state.cancelled(id, CancelReason::ScopeClosed);
    lemma_cancelled(state, id, CancelReason::ScopeClosed);
    lemma_extends_well_formed(state, cancelled);
    assert forall|i: int| 0 <= i < state.tasks.len() && (#[trigger] cancelled.tasks[i]).state is Waiting implies
        state.tasks[i].scope != id by {
        assert(!cancelled.stranded(i));
        assert(task_extends(state.tasks[i], cancelled.tasks[i]));
    }
    lemma_waiting_leaves_scope(state, cancelled, id, count);
    lemma_open_same(state, cancelled, state.open.len() as int);
    let scope = cancelled.scope(id);
    let (inner, tasks, released) = cancelled.closed_children(scope.children, 0, id, pending, 0);
    assert(cancelled.scope_ok(scope, id.0 - 1));
    lemma_closed_children(cancelled, scope.children, 0, id, pending, 0);
    lemma_extends_transitive(state, cancelled, inner);
    let (emptied, total) = inner.closed_resources(scope.resources, scope.resources.len() as int, id, released);
    lemma_closed_resources(inner, scope.resources, scope.resources.len() as int, id, released);
    lemma_extends_transitive(state, inner, emptied);
    assert(scope_extends(cancelled.scopes[id.0 - 1], inner.scopes[id.0 - 1]));
    let last = emptied.completed_scope(id);
    assert(extends(emptied, last)) by {
        lemma_extends_reflexive(emptied);
        if !emptied.scope(id).closed {
            assert(emptied.trace =~= last.trace.take(emptied.trace.len() as int));
            assert forall|i: int| 0 <= i < emptied.tasks.len()
                && #[trigger] last.stranded(i) implies emptied.stranded(i) by {
            }
        }
    }
    lemma_extends_transitive(state, emptied, last);
    lemma_extends_well_formed(state, last);
    lemma_waiting_shrinks(inner, emptied, count);
    lemma_waiting_shrinks(emptied, last, count);
    lemma_open_same(emptied, last, state.open.len() as int);
}

proof fn lemma_closed_children(
    state: SchedulerView,
    children: Seq<ScopeId>,
    from: int,
    owner: ScopeId,
    tasks: nat,
    released: nat,
)
    requires
        state.well_formed(),
        0 <= from,
        forall|k: int| 0 <= k < children.len() ==> owner.0 < (#[trigger] children[k]).0 <= state.scopes.len(),
    ensures
        ({
            let (after, all_tasks, all_released) = state.closed_children(children, from, owner, tasks, released);
            &&& extends(state, after)
            &&& after.well_formed()
            &&& all_tasks + after.waiting(state.tasks.len() as int) <= tasks + state.waiting(state.tasks.len() as int)
            &&& all_released + after.open_count(state.open.len() as int) == released + state.open_count(
                state.open.len() as int,
            )
        }),
    decreases u64::MAX - owner.0, 0int, children.len() - from,
{
    lemma_extends_reflexive(state);
    if from < children.len() {
        let (next, child_tasks, child_released) = state.closed(children[from]);
        lemma_closed(state, children[from]);
        lemma_closed_children(next, children, from + 1, owner, tasks + child_tasks, released + child_released);
        lemma_extends_transitive(
            state,
            next,
            next.closed_children(children, from + 1, owner, tasks + child_tasks, released + child_released).0,
        );
    }
}

/// What a [`RuntimeError`] holds.
pub enum RuntimeErrorView {
    UnknownScope,
    ScopeClosed,
    CapabilityAmplification(GrantView),
    DeadlineExceedsParent,
    UnknownTask,
    AlreadyJoined,
    TaskPending,
}

impl View for RuntimeError {
    type V = RuntimeErrorView;

    open spec fn view(&self) -> RuntimeErrorView {
        match *self {
            RuntimeError::UnknownScope => RuntimeErrorView::UnknownScope,
            RuntimeError::ScopeClosed => RuntimeErrorView::ScopeClosed,
            RuntimeError::CapabilityAmplification(grant) => RuntimeErrorView::CapabilityAmplification(grant@),
            RuntimeError::DeadlineExceedsParent => RuntimeErrorView::DeadlineExceedsParent,
            RuntimeError::UnknownTask => RuntimeErrorView::UnknownTask,
            RuntimeError::AlreadyJoined => RuntimeErrorView::AlreadyJoined,
            RuntimeError::TaskPending => RuntimeErrorView::TaskPending,
        }
    }
}

spec fn state_view(state: TaskState) -> TaskStateView {
    match state {
        TaskState::Waiting { at, outcome } => TaskStateView::Waiting { at, outcome: outcome@ },
        TaskState::Terminal(outcome) => TaskStateView::Terminal(outcome@),
    }
}

spec fn task_view(task: Task) -> TaskView {
    TaskView { scope: task.scope, state: state_view(task.state) }
}

spec fn scope_view(scope: Scope) -> ScopeView {
    ScopeView {
        parent: scope.parent,
        children: scope.children@,
        tasks: scope.tasks@,
        resources: scope.resources@,
        grants: grant_set(scope.grants@),
        deadline: scope.deadline,
        cancelled: scope.cancelled,
        closed: scope.closed,
    }
}

/// Fake-clock scheduler. Task IDs are creation order and therefore the stable
/// tie-breaker for completions at the same instant.
#[derive(Debug)]
pub struct Scheduler {
    now: u64,
    scopes: Vec<Scope>,
    tasks: Vec<Task>,
    open_resources: Vec<bool>,
    trace: Vec<TraceEvent>,
}

impl View for Scheduler {
    type V = SchedulerView;

    closed spec fn view(&self) -> SchedulerView {
        SchedulerView {
            now: self.now,
            scopes: Seq::new(self.scopes@.len(), |i: int| scope_view(self.scopes@[i])),
            tasks: Seq::new(self.tasks@.len(), |i: int| task_view(self.tasks@[i])),
            open: self.open_resources@,
            trace: events(self.trace@),
        }
    }
}

fn copy_scope_ids(ids: &Vec<ScopeId>) -> (result: Vec<ScopeId>)
    ensures
        result@ == ids@,
{
    let mut result: Vec<ScopeId> = Vec::new();
    let mut i: usize = 0;
    while i < ids.len()
        invariant
            i <= ids.len(),
            result@ == ids@.take(i as int),
        decreases ids.len() - i,
    {
        result.push(ids[i]);
        i += 1;
        assert(result@ =~= ids@.take(i as int));
    }
    assert(result@ =~= ids@);
    result
}

fn copy_task_ids(ids: &Vec<TaskId>) -> (result: Vec<TaskId>)
    ensures
        result@ == ids@,
{
    let mut result: Vec<TaskId> = Vec::new();
    let mut i: usize = 0;
    while i < ids.len()
        invariant
            i <= ids.len(),
            result@ == ids@.take(i as int),
        decreases ids.len() - i,
    {
        result.push(ids[i]);
        i += 1;
        assert(result@ =~= ids@.take(i as int));
    }
    assert(result@ =~= ids@);
    result
}

fn copy_resource_ids(ids: &Vec<ResourceId>) -> (result: Vec<ResourceId>)
    ensures
        result@ == ids@,
{
    let mut result: Vec<ResourceId> = Vec::new();
    let mut i: usize = 0;
    while i < ids.len()
        invariant
            i <= ids.len(),
            result@ == ids@.take(i as int),
        decreases ids.len() - i,
    {
        result.push(ids[i]);
        i += 1;
        assert(result@ =~= ids@.take(i as int));
    }
    assert(result@ =~= ids@);
    result
}

impl Scheduler {
    pub fn new(grants: Vec<CapabilityGrant>) -> (scheduler: Self)
        ensures
            scheduler@ == SchedulerView::initial(grant_set(grants@)),
            scheduler@.well_formed(),
    {
        let mut scopes: Vec<Scope> = Vec::new();
        scopes.push(
            Scope {
                parent: None,
                children: Vec::new(),
                tasks: Vec::new(),
                resources: Vec::new(),
                grants,
                deadline: None,
                cancelled: None,
                closed: false,
            },
        );
        let mut trace: Vec<TraceEvent> = Vec::new();
        trace.push(TraceEvent::scope(0, EventKind::ScopeOpened, ScopeId(1)));
        let scheduler = Scheduler {
            now: 0,
            scopes,
            tasks: Vec::new(),
            open_resources: Vec::new(),
            trace,
        };
        proof {
            let expected = SchedulerView::initial(grant_set(grants@));
            assert(scheduler@.scopes[0] == expected.scopes[0]);
            assert(scheduler@.scopes =~= expected.scopes);
            assert(scheduler@.tasks =~= expected.tasks);
            assert(scheduler@.trace =~= expected.trace);
        }
        scheduler
    }

    pub fn root(&self) -> (id: ScopeId)
        ensures
            id == ScopeId(1),
    {
        ScopeId(1)
    }

    pub fn now(&self) -> (now: u64)
        ensures
            now == self@.now,
    {
        self.now
    }

    pub fn trace(&self) -> (trace: &[TraceEvent])
        ensures
            events(trace@) == self@.trace,
    {
        self.trace.as_slice()
    }

    pub fn trace_document(&self) -> (document: TraceDocument<'_>)
        ensures
            document.contract_version@ == "1"@,
            events(document.events@) == self@.trace,
    {
        TraceDocument { contract_version: "1", events: self.trace.as_slice() }
    }

    fn knows_scope(&self, scope: ScopeId) -> (result: bool)
        ensures
            result == self@.has_scope(scope),
    {
        1 <= scope.0 && scope.0 <= self.scopes.len() as u64
    }

    fn scope_index(&self, id: ScopeId) -> (index: usize)
        requires
            self@.has_scope(id),
        ensures
            index == id.0 - 1,
            index < self.scopes@.len(),
    {
        assert(self@.scopes.len() == self.scopes.len());
        (id.0 - 1) as usize
    }

    fn task_index(&self, id: TaskId) -> (index: usize)
        requires
            self@.has_task(id),
        ensures
            index == id.0 - 1,
            index < self.tasks@.len(),
    {
        assert(self@.tasks.len() == self.tasks.len());
        (id.0 - 1) as usize
    }

    fn record(&mut self, event: TraceEvent)
        ensures
            final(self)@ == old(self)@.traced(event@),
    {
        let ghost before = self@;
        let ghost held = event@;
        self.trace.push(event);
        assert(self@.trace =~= before.trace.push(held));
        assert(self@.scopes =~= before.scopes);
        assert(self@.tasks =~= before.tasks);
    }

    fn mark_cancelled(&mut self, id: ScopeId, reason: CancelReason)
        requires
            old(self)@.has_scope(id),
        ensures
            final(self)@ == old(self)@.with_scope(id, ScopeView { cancelled: Some(reason), ..old(self)@.scope(id) }),
    {
        let ghost before = self@;
        let index: usize = self.scope_index(id);
        self.scopes[index].cancelled = Some(reason);
        assert(self@.scopes =~= before.scopes.update(
            index as int,
            ScopeView { cancelled: Some(reason), ..before.scope(id) },
        ));
        assert(self@.tasks =~= before.tasks);
    }

    fn mark_closed(&mut self, id: ScopeId)
        requires
            old(self)@.has_scope(id),
        ensures
            final(self)@ == old(self)@.with_scope(id, ScopeView { closed: true, ..old(self)@.scope(id) }),
    {
        let ghost before = self@;
        let index: usize = self.scope_index(id);
        self.scopes[index].closed = true;
        assert(self@.scopes =~= before.scopes.update(index as int, ScopeView { closed: true, ..before.scope(id) }));
        assert(self@.tasks =~= before.tasks);
    }

    fn finish(&mut self, id: TaskId, scope: ScopeId, outcome: TaskOutcome)
        requires
            old(self)@.has_task(id),
        ensures
            final(self)@ == old(self)@.finished(id, scope, outcome@),
    {
        let ghost before = self@;
        let ghost held = outcome@;
        let index: usize = self.task_index(id);
        let event = TraceEvent::outcome(self.now, scope, id, &outcome);
        self.tasks[index].state = TaskState::Terminal(outcome);
        assert(self@.tasks =~= before.tasks.update(
            index as int,
            TaskView { scope: before.task(id).scope, state: TaskStateView::Terminal(held) },
        ));
        assert(self@.scopes =~= before.scopes);
        self.record(event);
    }

    fn is_waiting(&self, id: TaskId) -> (result: bool)
        ensures
            result == (self@.has_task(id) && self@.task(id).state is Waiting),
    {
        if 1 <= id.0 && id.0 <= self.tasks.len() as u64 {
            match &self.tasks[self.task_index(id)].state {
                TaskState::Waiting { .. } => true,
                TaskState::Terminal(_) => false,
            }
        } else {
            false
        }
    }

    pub fn parent_scope(&self, scope: ScopeId) -> (result: Result<Option<ScopeId>, RuntimeError>)
        ensures
            match result {
                Ok(parent) => self@.has_scope(scope) && parent == self@.scope(scope).parent,
                Err(error) => !self@.has_scope(scope) && error@ == RuntimeErrorView::UnknownScope,
            },
    {
        if self.knows_scope(scope) {
            Ok(self.scopes[self.scope_index(scope)].parent)
        } else {
            Err(RuntimeError::UnknownScope)
        }
    }
}

impl SchedulerView {
    /// A grant of `requested` that the grants of `parent` do not cover, and that
    /// comes before all other such grants.
    pub open spec fn first_amplification(self, parent: ScopeId, requested: Set<GrantView>, grant: GrantView) -> bool {
        &&& requested.contains(grant)
        &&& !grant.covered(self.scope(parent).grants)
        &&& forall|other: GrantView|
            #[trigger] requested.contains(other) && !other.covered(self.scope(parent).grants) && other != grant
                ==> grant.before(other)
    }

    pub open spec fn attenuates(self, parent: ScopeId, requested: Set<GrantView>) -> bool {
        forall|grant: GrantView| #[trigger] requested.contains(grant) ==> grant.covered(self.scope(parent).grants)
    }

    pub open spec fn fits_deadline(self, parent: ScopeId, deadline: Option<u64>) -> bool {
        match (deadline, self.scope(parent).deadline) {
            (Some(child), Some(bound)) => child <= bound,
            _ => true,
        }
    }

    pub open spec fn next_scope(self) -> ScopeId {
        ScopeId((self.scopes.len() + 1) as u64)
    }

    pub open spec fn next_task(self) -> TaskId {
        TaskId((self.tasks.len() + 1) as u64)
    }

    pub open spec fn next_resource(self) -> ResourceId {
        ResourceId((self.open.len() + 1) as u64)
    }

    /// A child scope is opened under `parent`.
    pub open spec fn opened(self, parent: ScopeId, grants: Set<GrantView>, deadline: Option<u64>) -> SchedulerView {
        let owner = self.scope(parent);
        let id = self.next_scope();
        SchedulerView {
            scopes: self.scopes.update(
                parent.0 - 1,
                ScopeView { children: owner.children.push(id), ..owner },
            ).push(
                ScopeView {
                    parent: Some(parent),
                    children: Seq::empty(),
                    tasks: Seq::empty(),
                    resources: Seq::empty(),
                    grants,
                    deadline,
                    cancelled: None,
                    closed: false,
                },
            ),
            ..self
        }.traced(EventView::scope(self.now, EventKind::ScopeOpened, id))
    }

    /// A task is created in `scope` and waits.
    pub open spec fn spawned(self, scope: ScopeId, at: u64, outcome: OutcomeView) -> SchedulerView {
        let id = self.next_task();
        let owner = self.scope(scope);
        SchedulerView {
            scopes: self.scopes.update(scope.0 - 1, ScopeView { tasks: owner.tasks.push(id), ..owner }),
            tasks: self.tasks.push(TaskView { scope, state: TaskStateView::Waiting { at, outcome } }),
            ..self
        }.traced(EventView::task(self.now, EventKind::TaskCreated, scope, id)).traced(
            EventView::task(self.now, EventKind::TaskWaiting, scope, id),
        )
    }

    /// A resource is opened in `scope`.
    pub open spec fn acquired(self, scope: ScopeId) -> SchedulerView {
        let id = self.next_resource();
        let owner = self.scope(scope);
        SchedulerView {
            scopes: self.scopes.update(scope.0 - 1, ScopeView { resources: owner.resources.push(id), ..owner }),
            open: self.open.push(true),
            ..self
        }.traced(EventView::resource(self.now, EventKind::ResourceOpened, scope, id))
    }
}

proof fn lemma_opened_well_formed(state: SchedulerView, parent: ScopeId, grants: Set<GrantView>, deadline: Option<u64>)
    requires
        state.well_formed(),
        state.has_scope(parent),
        state.scopes.len() < u64::MAX,
        state.attenuates(parent, grants),
        state.fits_deadline(parent, deadline),
    ensures
        state.opened(parent, grants, deadline).well_formed(),
{
    let after = state.opened(parent, grants, deadline);
    assert forall|i: int| 0 <= i < after.scopes.len() implies after.scope_ok(#[trigger] after.scopes[i], i) by {
        if i < state.scopes.len() {
            assert(state.scope_ok(state.scopes[i], i));
            if let Some(owner) = state.scopes[i].parent {
                assert(after.scope(owner).grants == state.scope(owner).grants);
            }
        } else {
            assert(after.scope(parent).grants == state.scope(parent).grants);
        }
    }
    assert forall|i: int| 0 <= i < after.tasks.len() implies after.task_ok(#[trigger] after.tasks[i], i) by {
        assert(state.task_ok(state.tasks[i], i));
    }
    assert forall|i: int| 0 <= i < after.tasks.len() implies !#[trigger] after.stranded(i) by {
        assert(state.task_ok(state.tasks[i], i));
        assert(!state.stranded(i));
    }
}

proof fn lemma_spawned_well_formed(state: SchedulerView, scope: ScopeId, at: u64, outcome: OutcomeView)
    requires
        state.well_formed(),
        state.has_scope(scope),
        state.scope(scope).cancelled is None,
        state.tasks.len() < u64::MAX,
    ensures
        state.spawned(scope, at, outcome).well_formed(),
{
    let after = state.spawned(scope, at, outcome);
    let owner = state.scope(scope);
    assert forall|i: int| 0 <= i < after.scopes.len() implies after.scope_ok(#[trigger] after.scopes[i], i) by {
        assert(state.scope_ok(state.scopes[i], i));
        let held = after.scopes[i];
        assert forall|k: int| 0 <= k < held.tasks.len() implies 1 <= (#[trigger] held.tasks[k]).0 <= after.tasks.len()
            && after.task(held.tasks[k]).scope == ScopeId((i + 1) as u64) by {
            if k < state.scopes[i].tasks.len() {
                assert(state.scopes[i].tasks[k] == held.tasks[k]);
            }
        }
    }
    assert forall|i: int| 0 <= i < after.tasks.len() implies after.task_ok(#[trigger] after.tasks[i], i) by {
        let id = TaskId((i + 1) as u64);
        if i < state.tasks.len() {
            assert(state.task_ok(state.tasks[i], i));
            let held = state.scope(state.tasks[i].scope).tasks;
            let k = choose|k: int| 0 <= k < held.len() && held[k] == id;
            assert(held[k] == id);
            assert(after.scope(after.tasks[i].scope).tasks[k] == id);
        } else {
            assert(after.scope(scope).tasks[owner.tasks.len() as int] == id);
        }
    }
    assert forall|i: int| 0 <= i < after.tasks.len() implies !#[trigger] after.stranded(i) by {
        if i < state.tasks.len() {
            assert(state.task_ok(state.tasks[i], i));
            assert(!state.stranded(i));
        }
    }
}

proof fn lemma_acquired_well_formed(state: SchedulerView, scope: ScopeId)
    requires
        state.well_formed(),
        state.has_scope(scope),
        state.open.len() < u64::MAX,
    ensures
        state.acquired(scope).well_formed(),
{
    let after = state.acquired(scope);
    assert forall|i: int| 0 <= i < after.scopes.len() implies after.scope_ok(#[trigger] after.scopes[i], i) by {
        assert(state.scope_ok(state.scopes[i], i));
        let held = after.scopes[i];
        assert forall|k: int| 0 <= k < held.resources.len() implies 1 <= (#[trigger] held.resources[k]).0
            <= after.open.len() by {
            if k < state.scopes[i].resources.len() {
                assert(state.scopes[i].resources[k] == held.resources[k]);
            }
        }
    }
    assert forall|i: int| 0 <= i < after.tasks.len() implies after.task_ok(#[trigger] after.tasks[i], i) by {
        assert(state.task_ok(state.tasks[i], i));
    }
    assert forall|i: int| 0 <= i < after.tasks.len() implies !#[trigger] after.stranded(i) by {
        assert(state.task_ok(state.tasks[i], i));
        assert(!state.stranded(i));
    }
}

/// Distinct grants are ordered one way.
proof fn lemma_before_total(left: GrantView, right: GrantView)
    requires
        left != right,
    ensures
        left.before(right) || right.before(left),
{
    if left.domain == right.domain {
        assert(left.resource_prefix != right.resource_prefix);
        assert(left.resource_prefix.take(0) =~= right.resource_prefix.take(0));
        crate::text::lemma_precedes_total(left.resource_prefix, right.resource_prefix, 0);
    } else {
        assert(left.domain.take(0) =~= right.domain.take(0));
        crate::text::lemma_precedes_total(left.domain, right.domain, 0);
    }
}

proof fn lemma_before_transitive(first: GrantView, second: GrantView, third: GrantView)
    requires
        first.before(second),
        second.before(third),
    ensures
        first.before(third),
{
    if crate::text::precedes(first.domain, second.domain) {
        if crate::text::precedes(second.domain, third.domain) {
            crate::text::lemma_precedes_transitive(first.domain, second.domain, third.domain, 0);
        }
    } else if !crate::text::precedes(second.domain, third.domain) {
        crate::text::lemma_precedes_transitive(
            first.resource_prefix,
            second.resource_prefix,
            third.resource_prefix,
            0,
        );
    }
}

fn is_covered(grant: &CapabilityGrant, allowed: &Vec<CapabilityGrant>) -> (result: bool)
    ensures
        result == grant@.covered(grant_set(allowed@)),
{
    let mut i: usize = 0;
    while i < allowed.len()
        invariant
            i <= allowed.len(),
            forall|k: int| 0 <= k < i ==> !grant@.within((#[trigger] allowed@[k])@),
        decreases allowed.len() - i,
    {
        if grant.is_within(&allowed[i]) {
            assert(grant_set(allowed@).contains(allowed@[i as int]@));
            return true;
        }
        i += 1;
    }
    assert forall|other: GrantView| #[trigger] grant_set(allowed@).contains(other) implies !grant@.within(other) by {
        let k = choose|k: int| 0 <= k < allowed@.len() && (#[trigger] allowed@[k])@ == other;
        assert(!grant@.within(allowed@[k]@));
    }
    false
}

/// The index of the first uncovered grant in the order of grants.
fn find_amplification(requested: &Vec<CapabilityGrant>, allowed: &Vec<CapabilityGrant>) -> (result: Option<usize>)
    ensures
        match result {
            Some(index) => index < requested@.len() && !requested@[index as int]@.covered(grant_set(allowed@))
                && forall|k: int|
                0 <= k < requested@.len() && !(#[trigger] requested@[k])@.covered(grant_set(allowed@))
                    && requested@[k]@ != requested@[index as int]@ ==> requested@[index as int]@.before(requested@[k]@),
            None => forall|k: int|
                0 <= k < requested@.len() ==> (#[trigger] requested@[k])@.covered(grant_set(allowed@)),
        },
{
    let mut best: Option<usize> = None;
    let mut i: usize = 0;
    while i < requested.len()
        invariant
            i <= requested.len(),
            match best {
                Some(index) => index < i && !requested@[index as int]@.covered(grant_set(allowed@)) && forall|k: int|
                    0 <= k < i && !(#[trigger] requested@[k])@.covered(grant_set(allowed@)) && requested@[k]@
                        != requested@[index as int]@ ==> requested@[index as int]@.before(requested@[k]@),
                None => forall|k: int| 0 <= k < i ==> (#[trigger] requested@[k])@.covered(grant_set(allowed@)),
            },
        decreases requested.len() - i,
    {
        if !is_covered(&requested[i], allowed) {
            match best {
                Some(index) => {
                    if requested[i].is_before(&requested[index]) {
                        proof {
                            assert forall|k: int|
                                0 <= k <= i && !(
                                    #[trigger] requested@[k]
                                )@.covered(grant_set(allowed@)) && requested@[k]@
                                    != requested@[i as int]@ implies requested@[i as int]@.before(requested@[k]@) by {
                                if k < i && requested@[k]@ != requested@[index as int]@ {
                                    lemma_before_transitive(
                                        requested@[i as int]@,
                                        requested@[index as int]@,
                                        requested@[k]@,
                                    );
                                }
                            }
                        }
                        best = Some(i);
                    } else {
                        proof {
                            if requested@[i as int]@ != requested@[index as int]@ {
                                lemma_before_total(requested@[i as int]@, requested@[index as int]@);
                            }
                        }
                    }
                }
                None => {
                    best = Some(i);
                }
            }
        }
        i += 1;
    }
    best
}

impl Scheduler {
    /// Opens a child scope. Its grants must each be covered by a grant of the
    /// parent, and its deadline may not exceed the parent's.
    pub fn open_scope(
        &mut self,
        parent: ScopeId,
        grants: Vec<CapabilityGrant>,
        deadline: Option<u64>,
    ) -> (result: Result<ScopeId, RuntimeError>)
        requires
            old(self)@.well_formed(),
            old(self)@.scopes.len() < u64::MAX,
        ensures
            final(self)@.well_formed(),
            match result {
                Ok(id) => {
                    &&& old(self)@.has_scope(parent)
                    &&& !old(self)@.scope(parent).closed
                    &&& old(self)@.attenuates(parent, grant_set(grants@))
                    &&& old(self)@.fits_deadline(parent, deadline)
                    &&& id == old(self)@.next_scope()
                    &&& final(self)@ == old(self)@.opened(parent, grant_set(grants@), deadline)
                },
                Err(error) => {
                    &&& final(self)@ == old(self)@
                    &&& match error@ {
                        RuntimeErrorView::UnknownScope => !old(self)@.has_scope(parent),
                        RuntimeErrorView::ScopeClosed => old(self)@.has_scope(parent) && old(self)@.scope(
                            parent,
                        ).closed,
                        RuntimeErrorView::CapabilityAmplification(grant) => old(self)@.has_scope(parent) && !old(
                            self,
                        )@.scope(parent).closed && old(self)@.first_amplification(parent, grant_set(grants@), grant),
                        RuntimeErrorView::DeadlineExceedsParent => old(self)@.has_scope(parent) && !old(self)@.scope(
                            parent,
                        ).closed && old(self)@.attenuates(parent, grant_set(grants@)) && !old(self)@.fits_deadline(
                            parent,
                            deadline,
                        ),
                        _ => false,
                    }
                },
            },
    {
        let ghost before = self@;
        if !self.knows_scope(parent) {
            return Err(RuntimeError::UnknownScope);
        }
        let index: usize = self.scope_index(parent);
        if self.scopes[index].closed {
            return Err(RuntimeError::ScopeClosed);
        }
        assert(before.scope(parent).grants == grant_set(self.scopes@[index as int].grants@));
        match find_amplification(&grants, &self.scopes[index].grants) {
            Some(found) => {
                proof {
                    let worst = grants@[found as int]@;
                    assert(grant_set(grants@).contains(worst));
                    assert forall|other: GrantView|
                        #[trigger] grant_set(grants@).contains(other) && !other.covered(before.scope(parent).grants)
                            && other != worst implies worst.before(other) by {
                        let k = choose|k: int| 0 <= k < grants@.len() && (#[trigger] grants@[k])@ == other;
                        assert(!grants@[k]@.covered(before.scope(parent).grants));
                    }
                }
                return Err(RuntimeError::CapabilityAmplification(grants[found].copy()));
            }
            None => {}
        }
        assert(before.attenuates(parent, grant_set(grants@))) by {
            assert forall|grant: GrantView| #[trigger] grant_set(grants@).contains(grant) implies grant.covered(
                before.scope(parent).grants,
            ) by {
                let k = choose|k: int| 0 <= k < grants@.len() && (#[trigger] grants@[k])@ == grant;
                assert(grants@[k]@.covered(before.scope(parent).grants));
            }
        }
        match (deadline, self.scopes[index].deadline) {
            (Some(child), Some(bound)) => {
                if child > bound {
                    return Err(RuntimeError::DeadlineExceedsParent);
                }
            }
            _ => {}
        }
        let ghost requested = grant_set(grants@);
        let id = ScopeId(self.scopes.len() as u64 + 1);
        self.scopes[index].children.push(id);
        self.scopes.push(
            Scope {
                parent: Some(parent),
                children: Vec::new(),
                tasks: Vec::new(),
                resources: Vec::new(),
                grants,
                deadline,
                cancelled: None,
                closed: false,
            },
        );
        let event = TraceEvent::scope(self.now, EventKind::ScopeOpened, id);
        proof {
            let expected = before.opened(parent, requested, deadline);
            assert forall|i: int| 0 <= i < expected.scopes.len() implies self@.scopes[i] == expected.scopes[i] by {}
            assert(self@.scopes =~= expected.scopes);
            assert(self@.tasks =~= before.tasks);
            lemma_opened_well_formed(before, parent, requested, deadline);
        }
        self.record(event);
        Ok(id)
    }

    /// Creates a task that ends with `outcome` once the clock reaches `at`.
    pub fn spawn_scripted(&mut self, scope: ScopeId, at: u64, outcome: TaskOutcome) -> (result: Result<
        JoinHandle,
        RuntimeError,
    >)
        requires
            old(self)@.well_formed(),
            old(self)@.tasks.len() < u64::MAX,
        ensures
            final(self)@.well_formed(),
            match result {
                Ok(handle) => {
                    &&& old(self)@.has_scope(scope)
                    &&& !old(self)@.scope(scope).closed
                    &&& old(self)@.scope(scope).cancelled is None
                    &&& handle.id() == old(self)@.next_task()
                    &&& !handle.used()
                    &&& final(self)@ == old(self)@.spawned(scope, at, outcome@)
                },
                Err(error) => {
                    &&& final(self)@ == old(self)@
                    &&& match error@ {
                        RuntimeErrorView::UnknownScope => !old(self)@.has_scope(scope),
                        RuntimeErrorView::ScopeClosed => old(self)@.has_scope(scope) && (old(self)@.scope(
                            scope,
                        ).closed || old(self)@.scope(scope).cancelled is Some),
                        _ => false,
                    }
                },
            },
    {
        let ghost before = self@;
        if !self.knows_scope(scope) {
            return Err(RuntimeError::UnknownScope);
        }
        let index: usize = self.scope_index(scope);
        if self.scopes[index].closed || self.scopes[index].cancelled.is_some() {
            return Err(RuntimeError::ScopeClosed);
        }
        let ghost held = outcome@;
        assert(self@.tasks.len() == self.tasks.len());
        let id = TaskId(self.tasks.len() as u64 + 1);
        self.scopes[index].tasks.push(id);
        self.tasks.push(Task { scope, state: TaskState::Waiting { at, outcome } });
        let created = TraceEvent::task(self.now, EventKind::TaskCreated, scope, id);
        let waiting = TraceEvent::task(self.now, EventKind::TaskWaiting, scope, id);
        proof {
            let expected = before.spawned(scope, at, held);
            assert forall|i: int| 0 <= i < expected.scopes.len() implies self@.scopes[i] == expected.scopes[i] by {}
            assert(self@.scopes =~= expected.scopes);
            assert(self@.tasks =~= expected.tasks);
            lemma_spawned_well_formed(before, scope, at, held);
        }
        self.record(created);
        self.record(waiting);
        Ok(JoinHandle { task: id, joined: false })
    }

    pub fn open_resource(&mut self, scope: ScopeId) -> (result: Result<ResourceId, RuntimeError>)
        requires
            old(self)@.well_formed(),
            old(self)@.open.len() < u64::MAX,
        ensures
            final(self)@.well_formed(),
            match result {
                Ok(id) => {
                    &&& old(self)@.has_scope(scope)
                    &&& !old(self)@.scope(scope).closed
                    &&& id == old(self)@.next_resource()
                    &&& final(self)@ == old(self)@.acquired(scope)
                },
                Err(error) => {
                    &&& final(self)@ == old(self)@
                    &&& match error@ {
                        RuntimeErrorView::UnknownScope => !old(self)@.has_scope(scope),
                        RuntimeErrorView::ScopeClosed => old(self)@.has_scope(scope) && old(self)@.scope(scope).closed,
                        _ => false,
                    }
                },
            },
    {
        let ghost before = self@;
        if !self.knows_scope(scope) {
            return Err(RuntimeError::UnknownScope);
        }
        let index: usize = self.scope_index(scope);
        if self.scopes[index].closed {
            return Err(RuntimeError::ScopeClosed);
        }
        let id = ResourceId(self.open_resources.len() as u64 + 1);
        self.scopes[index].resources.push(id);
        self.open_resources.push(true);
        let event = TraceEvent::resource(self.now, EventKind::ResourceOpened, scope, id);
        proof {
            let expected = before.acquired(scope);
            assert forall|i: int| 0 <= i < expected.scopes.len() implies self@.scopes[i] == expected.scopes[i] by {}
            assert(self@.scopes =~= expected.scopes);
            assert(self@.tasks =~= before.tasks);
            lemma_acquired_well_formed(before, scope);
        }
        self.record(event);
        Ok(id)
    }

    fn cancel_tasks(&mut self, tasks: &Vec<TaskId>, scope: ScopeId)
        ensures
            final(self)@ == old(self)@.cancelled_tasks(tasks@, 0, scope),
    {
        let ghost before = self@;
        let mut i: usize = 0;
        while i < tasks.len()
            invariant
                i <= tasks.len(),
                before == old(self)@,
                before.cancelled_tasks(tasks@, 0, scope) == self@.cancelled_tasks(tasks@, i as int, scope),
            decreases tasks.len() - i,
        {
            if self.is_waiting(tasks[i]) {
                self.finish(tasks[i], scope, TaskOutcome::Cancelled(CancelReason::ParentCancelled));
            }
            i += 1;
        }
    }

    fn cancel(&mut self, scope: ScopeId, reason: CancelReason)
        requires
            old(self)@.shaped(),
        ensures
            final(self)@ == old(self)@.cancelled(scope, reason),
        decreases u64::MAX - scope.0, 1int,
    {
        if !self.knows_scope(scope) {
            return;
        }
        let index: usize = self.scope_index(scope);
        if self.scopes[index].cancelled.is_some() || self.scopes[index].closed {
            return;
        }
        let children = copy_scope_ids(&self.scopes[index].children);
        let tasks = copy_task_ids(&self.scopes[index].tasks);
        let ghost before = self@;
        assert(before.scope_ok(before.scopes[index as int], index as int));
        self.mark_cancelled(scope, reason);
        let event = TraceEvent::cancel(self.now, EventKind::ScopeCancelled, scope, reason);
        self.record(event);
        proof {
            lemma_marked_shaped(before, self@, scope, reason);
        }
        self.cancel_children(&children, scope);
        self.cancel_tasks(&tasks, scope);
    }

    fn cancel_children(&mut self, children: &Vec<ScopeId>, owner: ScopeId)
        requires
            old(self)@.shaped(),
            forall|k: int| 0 <= k < children@.len() ==> owner.0 < (#[trigger] children@[k]).0,
        ensures
            final(self)@ == old(self)@.cancelled_children(children@, 0, owner),
        decreases u64::MAX - owner.0, 0int,
    {
        let ghost before = self@;
        let mut i: usize = 0;
        while i < children.len()
            invariant
                i <= children.len(),
                before == old(self)@,
                self@.shaped(),
                forall|k: int| 0 <= k < children@.len() ==> owner.0 < (#[trigger] children@[k]).0,
                before.cancelled_children(children@, 0, owner) == self@.cancelled_children(
                    children@,
                    i as int,
                    owner,
                ),
            decreases children.len() - i,
        {
            proof {
                lemma_cancelled(self@, children@[i as int], CancelReason::ParentCancelled);
            }
            self.cancel(children[i], CancelReason::ParentCancelled);
            i += 1;
        }
    }

    /// Cancels a scope, its descendants and their tasks. A scope that is unknown,
    /// cancelled or closed is left alone.
    pub fn cancel_scope(&mut self, scope: ScopeId, reason: CancelReason)
        requires
            old(self)@.well_formed(),
        ensures
            final(self)@ == old(self)@.cancelled(scope, reason),
            final(self)@.well_formed(),
            extends(old(self)@, final(self)@),
    {
        proof {
            lemma_cancelled(self@, scope, reason);
            lemma_extends_well_formed(self@, self@.cancelled(scope, reason));
        }
        self.cancel(scope, reason);
    }

    fn overdue(&self, at: u64) -> (result: Vec<ScopeId>)
        requires
            self@.scopes.len() <= u64::MAX,
        ensures
            result@ == self@.overdue(0, at),
    {
        let mut result: Vec<ScopeId> = Vec::new();
        let mut i: usize = 0;
        assert(result@ + self@.overdue(0, at) =~= self@.overdue(0, at));
        while i < self.scopes.len()
            invariant
                i <= self.scopes@.len(),
                self@.scopes.len() == self.scopes@.len(),
                self@.scopes.len() <= u64::MAX,
                result@ + self@.overdue(i as int, at) == self@.overdue(0, at),
            decreases self.scopes@.len() - i,
        {
            let scope = &self.scopes[i];
            let late = match scope.deadline {
                Some(deadline) => deadline <= at,
                None => false,
            };
            let ghost before = result@;
            if !scope.closed && scope.cancelled.is_none() && late {
                result.push(ScopeId(i as u64 + 1));
                assert(result@ + self@.overdue(i as int + 1, at) =~= before + (seq![ScopeId((i + 1) as u64)]
                    + self@.overdue(i as int + 1, at)));
            }
            i += 1;
        }
        assert(result@ + self@.overdue(i as int, at) =~= result@);
        result
    }

    /// Advance the injected monotonic clock. Deadlines at an instant are
    /// applied before task completions; completions then use task order.
    pub fn advance_to(&mut self, at: u64)
        requires
            old(self)@.well_formed(),
            at >= old(self)@.now,
        ensures
            final(self)@ == old(self)@.advanced(at),
            final(self)@.well_formed(),
            final(self)@.now == at,
    {
        let ghost before = self@;
        self.now = at;
        let ghost clock = self@;
        proof {
            assert(self@.scopes =~= before.scopes);
            assert(self@.tasks =~= before.tasks);
            assert(clock == (SchedulerView { now: at, ..before }));
            assert forall|i: int| 0 <= i < clock.scopes.len() implies clock.scope_ok(#[trigger] clock.scopes[i], i) by {
                assert(before.scope_ok(before.scopes[i], i));
            }
            assert forall|i: int| 0 <= i < clock.tasks.len() implies clock.task_ok(#[trigger] clock.tasks[i], i) by {
                assert(before.task_ok(before.tasks[i], i));
            }
            assert forall|i: int| 0 <= i < clock.tasks.len() implies !#[trigger] clock.stranded(i) by {
                assert(!before.stranded(i));
            }
        }
        let late = self.overdue(at);
        let mut i: usize = 0;
        while i < late.len()
            invariant
                i <= late.len(),
                self@.shaped(),
                clock.expired(late@, 0) == self@.expired(late@, i as int),
            decreases late.len() - i,
        {
            proof {
                lemma_cancelled(self@, late@[i as int], CancelReason::Deadline);
            }
            self.cancel(late[i], CancelReason::Deadline);
            i += 1;
        }
        let ghost settled = self@;
        proof {
            lemma_expired(clock, late@, 0);
            lemma_completed(settled, 0, at);
            lemma_extends_transitive(clock, settled, settled.completed(0, at));
            lemma_extends_well_formed(clock, settled.completed(0, at));
        }
        let mut k: usize = 0;
        while k < self.tasks.len()
            invariant
                k <= self.tasks@.len(),
                self@.shaped(),
                self@.tasks.len() == self.tasks@.len(),
                self@.now == at,
                settled.completed(0, at) == self@.completed(k as int, at),
            decreases self.tasks@.len() - k,
        {
            let ghost current = self@;
            assert(k < u64::MAX);
            let ready = match &self.tasks[k].state {
                TaskState::Waiting { at: due, outcome } => if *due <= at {
                    Some((self.tasks[k].scope, outcome.copy()))
                } else {
                    None
                },
                TaskState::Terminal(_) => None,
            };
            assert(current.tasks[k as int] == task_view(self.tasks@[k as int]));
            match ready {
                Some((scope, outcome)) => {
                    proof {
                        lemma_completed(current, k as int, at);
                        let next = current.finished(TaskId((k + 1) as u64), scope, outcome@);
                        assert(extends(current, next)) by {
                            assert(current.trace =~= next.trace.take(current.trace.len() as int));
                        }
                        lemma_extends_shaped(current, next);
                    }
                    self.finish(TaskId(k as u64 + 1), scope, outcome);
                }
                None => {}
            }
            k += 1;
        }
    }

    /// Takes the outcome of a finished task; a handle gives it out once.
    pub fn join(&mut self, handle: &mut JoinHandle) -> (result: Result<TaskOutcome, RuntimeError>)
        requires
            old(self)@.well_formed(),
        ensures
            final(self)@.well_formed(),
            final(handle).id() == old(handle).id(),
            match result {
                Ok(outcome) => {
                    &&& !old(handle).used()
                    &&& final(handle).used()
                    &&& old(self)@.has_task(old(handle).id())
                    &&& old(self)@.task(old(handle).id()).state == TaskStateView::Terminal(outcome@)
                    &&& final(self)@ == old(self)@.traced(
                        EventView::task(
                            old(self)@.now,
                            EventKind::JoinCompleted,
                            old(self)@.task(old(handle).id()).scope,
                            old(handle).id(),
                        ),
                    )
                },
                Err(error) => {
                    &&& final(self)@ == old(self)@
                    &&& final(handle).used() == old(handle).used()
                    &&& match error@ {
                        RuntimeErrorView::AlreadyJoined => old(handle).used(),
                        RuntimeErrorView::UnknownTask => !old(handle).used() && !old(self)@.has_task(old(handle).id()),
                        RuntimeErrorView::TaskPending => !old(handle).used() && old(self)@.has_task(old(handle).id())
                            && old(self)@.task(old(handle).id()).state is Waiting,
                        _ => false,
                    }
                },
            },
    {
        let ghost before = self@;
        if handle.joined {
            return Err(RuntimeError::AlreadyJoined);
        }
        assert(self@.tasks.len() == self.tasks.len());
        if handle.task.0 < 1 || handle.task.0 > self.tasks.len() as u64 {
            return Err(RuntimeError::UnknownTask);
        }
        let index: usize = self.task_index(handle.task);
        assert(before.tasks[index as int] == task_view(self.tasks@[index as int]));
        let scope = self.tasks[index].scope;
        let outcome = match &self.tasks[index].state {
            TaskState::Terminal(outcome) => outcome.copy(),
            TaskState::Waiting { .. } => {
                return Err(RuntimeError::TaskPending);
            }
        };
        handle.joined = true;
        let event = TraceEvent::task(self.now, EventKind::JoinCompleted, scope, handle.task);
        proof {
            let after = before.traced(event@);
            assert(extends(before, after)) by {
                assert(before.trace =~= after.trace.take(before.trace.len() as int));
            }
            lemma_extends_well_formed(before, after);
        }
        self.record(event);
        Ok(outcome)
    }

    fn count_waiting(&self, scope: ScopeId) -> (count: usize)
        ensures
            count == self@.waiting_in(scope, self@.tasks.len() as int),
    {
        let mut count: usize = 0;
        let mut i: usize = 0;
        while i < self.tasks.len()
            invariant
                i <= self.tasks@.len(),
                self@.tasks.len() == self.tasks@.len(),
                count <= i,
                count == self@.waiting_in(scope, i as int),
            decreases self.tasks@.len() - i,
        {
            assert(self@.tasks[i as int] == task_view(self.tasks@[i as int]));
            let waits = match &self.tasks[i].state {
                TaskState::Waiting { .. } => true,
                TaskState::Terminal(_) => false,
            };
            if waits && self.tasks[i].scope == scope {
                count += 1;
            }
            i += 1;
        }
        count
    }

    fn release_resources(&mut self, resources: &Vec<ResourceId>, scope: ScopeId, closed: usize) -> (total: usize)
        requires
            closed + old(self)@.open_count(old(self)@.open.len() as int) <= usize::MAX,
        ensures
            old(self)@.closed_resources(resources@, resources@.len() as int, scope, closed as nat) == (
                final(self)@,
                total as nat,
            ),
    {
        let ghost before = self@;
        let ghost size = self@.open.len() as int;
        let mut total: usize = closed;
        let mut count: usize = resources.len();
        while count > 0
            invariant
                count <= resources@.len(),
                before == old(self)@,
                size == before.open.len(),
                self@.open.len() == size,
                total + self@.open_count(size) <= usize::MAX,
                before.closed_resources(resources@, resources@.len() as int, scope, closed as nat)
                    == self@.closed_resources(resources@, count as int, scope, total as nat),
            decreases count,
        {
            let ghost current = self@;
            let id = resources[count - 1];
            assert(self@.open.len() == self.open_resources.len());
            if 1 <= id.0 && id.0 <= self.open_resources.len() as u64 {
                let index: usize = (id.0 - 1) as usize;
                if self.open_resources[index] {
                    self.open_resources[index] = false;
                    let event = TraceEvent::resource(self.now, EventKind::ResourceClosed, scope, id);
                    proof {
                        assert(self@.open =~= current.open.update(index as int, false));
                        assert(self@.scopes =~= current.scopes);
                        assert(self@.tasks =~= current.tasks);
                        lemma_open_update(current, self@, index as int, size);
                    }
                    let ghost emptied = self@;
                    self.record(event);
                    proof {
                        lemma_open_same(emptied, self@, size);
                    }
                    total += 1;
                }
            }
            count -= 1;
        }
        total
    }

    fn close(&mut self, scope: ScopeId) -> (report: CleanupReport)
        requires
            old(self)@.well_formed(),
            old(self)@.has_scope(scope),
        ensures
            old(self)@.closed(scope) == (
                final(self)@,
                report.cancelled_tasks as nat,
                report.closed_resources as nat,
            ),
        decreases u64::MAX - scope.0, 1int,
    {
        let ghost before = self@;
        let pending = self.count_waiting(scope);
        proof {
            lemma_closed(before, scope);
            lemma_cancelled(before, scope, CancelReason::ScopeClosed);
            lemma_extends_well_formed(before, before.cancelled(scope, CancelReason::ScopeClosed));
        }
        self.cancel(scope, CancelReason::ScopeClosed);
        let ghost cancelled = self@;
        let index: usize = self.scope_index(scope);
        let children = copy_scope_ids(&self.scopes[index].children);
        let resources = copy_resource_ids(&self.scopes[index].resources);
        assert(cancelled.scope_ok(cancelled.scopes[index as int], index as int));
        proof {
            let count = before.tasks.len() as int;
            assert forall|i: int| 0 <= i < before.tasks.len() && (
                #[trigger] cancelled.tasks[i]
            ).state is Waiting implies
                before.tasks[i].scope != scope by {
                assert(!cancelled.stranded(i));
                assert(task_extends(before.tasks[i], cancelled.tasks[i]));
            }
            lemma_waiting_leaves_scope(before, cancelled, scope, count);
            lemma_waiting_bound(before, count);
            lemma_open_bound(cancelled, cancelled.open.len() as int);
            assert(self@.tasks.len() == self.tasks.len());
            assert(self@.open.len() == self.open_resources.len());
        }
        let report = self.close_children(&children, scope, pending);
        proof {
            lemma_closed_children(cancelled, children@, 0, scope, pending as nat, 0);
            assert(scope_extends(cancelled.scopes[index as int], self@.scopes[index as int]));
        }
        let released = self.release_resources(&resources, scope, report.closed_resources);
        proof {
            let (inner, _, so_far) = cancelled.closed_children(children@, 0, scope, pending as nat, 0);
            lemma_closed_resources(inner, resources@, resources@.len() as int, scope, so_far);
        }
        let index: usize = self.scope_index(scope);
        if !self.scopes[index].closed {
            self.mark_closed(scope);
            let event = TraceEvent::scope(self.now, EventKind::ScopeCompleted, scope);
            self.record(event);
        }
        CleanupReport { cancelled_tasks: report.cancelled_tasks, closed_resources: released }
    }

    fn close_children(&mut self, children: &Vec<ScopeId>, owner: ScopeId, pending: usize) -> (report: CleanupReport)
        requires
            old(self)@.well_formed(),
            forall|k: int| 0 <= k < children@.len() ==> owner.0 < (
                #[trigger] children@[k]
            ).0 <= old(self)@.scopes.len(),
            pending + old(self)@.waiting(old(self)@.tasks.len() as int) <= usize::MAX,
            old(self)@.open_count(old(self)@.open.len() as int) <= usize::MAX,
        ensures
            old(self)@.closed_children(children@, 0, owner, pending as nat, 0) == (
                final(self)@,
                report.cancelled_tasks as nat,
                report.closed_resources as nat,
            ),
        decreases u64::MAX - owner.0, 0int,
    {
        let ghost before = self@;
        let ghost tasks = before.tasks.len() as int;
        let ghost size = before.open.len() as int;
        let mut report = CleanupReport { cancelled_tasks: pending, closed_resources: 0 };
        let mut i: usize = 0;
        while i < children.len()
            invariant
                i <= children.len(),
                before == old(self)@,
                tasks == before.tasks.len(),
                size == before.open.len(),
                self@.well_formed(),
                self@.tasks.len() == tasks,
                self@.open.len() == size,
                self@.scopes.len() == before.scopes.len(),
                forall|k: int| 0 <= k < children@.len() ==> owner.0 < (
                    #[trigger] children@[k]
                ).0 <= before.scopes.len(),
                report.cancelled_tasks + self@.waiting(tasks) <= usize::MAX,
                report.closed_resources + self@.open_count(size) <= usize::MAX,
                before.closed_children(children@, 0, owner, pending as nat, 0) == self@.closed_children(
                    children@,
                    i as int,
                    owner,
                    report.cancelled_tasks as nat,
                    report.closed_resources as nat,
                ),
            decreases children.len() - i,
        {
            proof {
                lemma_closed(self@, children@[i as int]);
            }
            let child = self.close(children[i]);
            report = CleanupReport {
                cancelled_tasks: report.cancelled_tasks + child.cancelled_tasks,
                closed_resources: report.closed_resources + child.closed_resources,
            };
            i += 1;
        }
        report
    }

    /// Closes a scope: cancels it, closes its children, releases its resources in
    /// reverse order of opening and reports what was cleaned up.
    pub fn close_scope(&mut self, scope: ScopeId) -> (result: Result<CleanupReport, RuntimeError>)
        requires
            old(self)@.well_formed(),
        ensures
            final(self)@.well_formed(),
            match result {
                Ok(report) => old(self)@.has_scope(scope) && old(self)@.closed(scope) == (
                    final(self)@,
                    report.cancelled_tasks as nat,
                    report.closed_resources as nat,
                ),
                Err(error) => !old(self)@.has_scope(scope) && error@ == RuntimeErrorView::UnknownScope && final(self)@
                    == old(self)@,
            },
    {
        if !self.knows_scope(scope) {
            return Err(RuntimeError::UnknownScope);
        }
        proof {
            lemma_closed(self@, scope);
        }
        Ok(self.close(scope))
    }
}

// Laws.

/// Cancelling, advancing the clock and closing never undo anything: ended tasks
/// stay ended, cancelled scopes stay cancelled, closed scopes stay closed, and
/// the trace only grows.
pub proof fn law_nothing_is_undone(state: SchedulerView, scope: ScopeId, reason: CancelReason, at: u64)
    requires
        state.well_formed(),
        state.has_scope(scope),
    ensures
        extends(state, state.cancelled(scope, reason)),
        extends(SchedulerView { now: at, ..state }, state.advanced(at)),
        extends(state, state.closed(scope).0),
        state.cancelled(scope, reason).well_formed(),
        state.advanced(at).well_formed(),
        state.closed(scope).0.well_formed(),
{
    lemma_cancelled(state, scope, reason);
    lemma_extends_well_formed(state, state.cancelled(scope, reason));
    lemma_closed(state, scope);
    let clock = SchedulerView { now: at, ..state };
    lemma_clock_well_formed(state, at);
    let settled = clock.expired(clock.overdue(0, at), 0);
    lemma_expired(clock, clock.overdue(0, at), 0);
    lemma_completed(settled, 0, at);
    lemma_extends_transitive(clock, settled, settled.completed(0, at));
    lemma_extends_well_formed(clock, settled.completed(0, at));
}

pub(crate) proof fn lemma_clock_well_formed(state: SchedulerView, at: u64)
    requires
        state.well_formed(),
    ensures
        (SchedulerView { now: at, ..state }).well_formed(),
{
    let clock = SchedulerView { now: at, ..state };
    assert forall|i: int| 0 <= i < clock.scopes.len() implies clock.scope_ok(#[trigger] clock.scopes[i], i) by {
        assert(state.scope_ok(state.scopes[i], i));
    }
    assert forall|i: int| 0 <= i < clock.tasks.len() implies clock.task_ok(#[trigger] clock.tasks[i], i) by {
        assert(state.task_ok(state.tasks[i], i));
    }
    assert forall|i: int| 0 <= i < clock.tasks.len() implies !#[trigger] clock.stranded(i) by {
        assert(!state.stranded(i));
    }
}

/// Every task of `after` is the task of `before`, or was cancelled with its scope.
pub open spec fn only_cancels(before: SchedulerView, after: SchedulerView) -> bool {
    after.tasks.len() == before.tasks.len() && forall|i: int|
        0 <= i < before.tasks.len() ==> (#[trigger] after.tasks[i]) == before.tasks[i] || after.tasks[i].state
            == TaskStateView::Terminal(OutcomeView::Cancelled(CancelReason::ParentCancelled))
}

proof fn lemma_tasks_only_cancelled(state: SchedulerView, tasks: Seq<TaskId>, from: int, scope: ScopeId)
    ensures
        only_cancels(state, state.cancelled_tasks(tasks, from, scope)),
    decreases tasks.len() - from,
{
    if 0 <= from < tasks.len() {
        if state.has_task(tasks[from]) && state.task(tasks[from]).state is Waiting {
            let next = state.finished(tasks[from], scope, OutcomeView::Cancelled(CancelReason::ParentCancelled));
            lemma_tasks_only_cancelled(next, tasks, from + 1, scope);
        } else {
            lemma_tasks_only_cancelled(state, tasks, from + 1, scope);
        }
    }
}

pub(crate) proof fn lemma_only_cancels(state: SchedulerView, id: ScopeId, reason: CancelReason)
    ensures
        only_cancels(state, state.cancelled(id, reason)),
    decreases u64::MAX - id.0, 1int, 0int,
{
    if state.has_scope(id) && !(state.scope(id).cancelled is Some) && !state.scope(id).closed {
        let scope = state.scope(id);
        let marked = state.with_scope(id, ScopeView { cancelled: Some(reason), ..scope }).traced(
            EventView::cancel(state.now, EventKind::ScopeCancelled, id, reason),
        );
        lemma_children_only_cancel(marked, scope.children, 0, id);
        lemma_tasks_only_cancelled(marked.cancelled_children(scope.children, 0, id), scope.tasks, 0, id);
    }
}

proof fn lemma_children_only_cancel(state: SchedulerView, children: Seq<ScopeId>, from: int, owner: ScopeId)
    ensures
        only_cancels(state, state.cancelled_children(children, from, owner)),
    decreases u64::MAX - owner.0, 0int, children.len() - from,
{
    if 0 <= from < children.len() && children[from].0 > owner.0 {
        lemma_only_cancels(state, children[from], CancelReason::ParentCancelled);
        lemma_children_only_cancel(
            state.cancelled(children[from], CancelReason::ParentCancelled),
            children,
            from + 1,
            owner,
        );
    }
}

pub(crate) proof fn lemma_expired_cancels(state: SchedulerView, ids: Seq<ScopeId>, from: int)
    requires
        state.shaped(),
        0 <= from,
        forall|k: int| 0 <= k < ids.len() ==> state.has_scope(#[trigger] ids[k]),
    ensures
        only_cancels(state, state.expired(ids, from)),
        forall|k: int| from <= k < ids.len() ==> state.expired(ids, from).scope(#[trigger] ids[k]).cancelled is Some,
    decreases ids.len() - from,
{
    if from < ids.len() {
        let id = ids[from];
        lemma_cancelled(state, id, CancelReason::Deadline);
        lemma_only_cancels(state, id, CancelReason::Deadline);
        let next = state.cancelled(id, CancelReason::Deadline);
        lemma_expired_cancels(next, ids, from + 1);
        lemma_expired(next, ids, from + 1);
        let last = next.expired(ids, from + 1);
        assert(scope_extends(next.scopes[id.0 - 1], last.scopes[id.0 - 1]));
    }
}

pub(crate) proof fn lemma_overdue(state: SchedulerView, from: int, at: u64, index: int)
    requires
        0 <= from <= index < state.scopes.len() <= u64::MAX,
        state.is_overdue(index, at),
    ensures
        state.overdue(from, at).contains(ScopeId((index + 1) as u64)),
    decreases index - from,
{
    let all = state.overdue(from, at);
    if from == index {
        assert(all[0] == ScopeId((index + 1) as u64));
    } else {
        lemma_overdue(state, from + 1, at, index);
        let rest = state.overdue(from + 1, at);
        let k = choose|k: int| 0 <= k < rest.len() && rest[k] == ScopeId((index + 1) as u64);
        if state.is_overdue(from, at) {
            assert(all[k + 1] == rest[k]);
        } else {
            assert(all[k] == rest[k]);
        }
    }
}

pub(crate) proof fn lemma_overdue_known(state: SchedulerView, from: int, at: u64)
    requires
        0 <= from,
        state.scopes.len() <= u64::MAX,
    ensures
        forall|k: int| 0 <= k < state.overdue(from, at).len() ==> state.has_scope(
            #[trigger] state.overdue(from, at)[k],
        ),
    decreases state.scopes.len() - from,
{
    if from < state.scopes.len() {
        lemma_overdue_known(state, from + 1, at);
        let rest = state.overdue(from + 1, at);
        let all = state.overdue(from, at);
        assert forall|k: int| 0 <= k < all.len() implies state.has_scope(#[trigger] all[k]) by {
            if state.is_overdue(from, at) {
                if k > 0 {
                    assert(all[k] == rest[k - 1]);
                }
            } else {
                assert(all[k] == rest[k]);
            }
        }
    }
}

/// A deadline wins over a completion at the same instant: a task that waits in a
/// scope whose deadline has come is cancelled, whatever it was to complete with.
pub proof fn law_deadline_wins_over_completion(state: SchedulerView, at: u64, task: TaskId)
    requires
        state.well_formed(),
        state.has_task(task),
        state.task(task).state is Waiting,
        state.is_overdue(state.task(task).scope.0 - 1, at),
    ensures
        state.advanced(at).task(task).state == TaskStateView::Terminal(
            OutcomeView::Cancelled(CancelReason::ParentCancelled),
        ),
{
    let clock = SchedulerView { now: at, ..state };
    lemma_clock_well_formed(state, at);
    let index = task.0 - 1;
    let scope = state.task(task).scope;
    assert(state.task_ok(state.tasks[index], index));
    let ids = clock.overdue(0, at);
    assert(clock.is_overdue(scope.0 - 1, at));
    lemma_overdue(clock, 0, at, scope.0 - 1);
    lemma_overdue_known(clock, 0, at);
    let k = choose|k: int| 0 <= k < ids.len() && ids[k] == ScopeId((scope.0 - 1 + 1) as u64);
    assert(ids[k] == scope);
    lemma_expired_cancels(clock, ids, 0);
    lemma_expired(clock, ids, 0);
    let settled = clock.expired(ids, 0);
    lemma_extends_well_formed(clock, settled);
    assert(settled.scope(ids[k]).cancelled is Some);
    assert(task_extends(clock.tasks[index], settled.tasks[index]));
    assert(!settled.stranded(index));
    lemma_completed(settled, 0, at);
    assert(task_extends(settled.tasks[index], settled.completed(0, at).tasks[index]));
}

/// Authority within authority is within it.
pub proof fn law_attenuation_is_transitive(inner: GrantView, middle: GrantView, outer: GrantView)
    requires
        inner.within(middle),
        middle.within(outer),
    ensures
        inner.within(outer),
{
    if outer.resource_prefix.len() > 0 && inner.resource_prefix != outer.resource_prefix {
        let n = outer.resource_prefix.len() as int;
        let m = middle.resource_prefix.len() as int;
        if middle.resource_prefix != outer.resource_prefix && inner.resource_prefix != middle.resource_prefix {
            assert(inner.resource_prefix.take(n) =~= middle.resource_prefix.take(n)) by {
                assert forall|i: int| 0 <= i < n implies inner.resource_prefix[i] == middle.resource_prefix[i] by {
                    assert(inner.resource_prefix.take(m)[i] == middle.resource_prefix[i]);
                }
            }
            assert(inner.resource_prefix.take(m)[n] == middle.resource_prefix[n]);
        }
    }
}

/// No scope holds more authority than the root was given.
pub proof fn law_authority_never_exceeds_the_root(state: SchedulerView, scope: ScopeId, grant: GrantView)
    requires
        state.well_formed(),
        state.has_scope(scope),
        state.scope(scope).grants.contains(grant),
    ensures
        grant.covered(state.scope(ScopeId(1)).grants),
    decreases scope.0,
{
    assert(state.scope_ok(state.scopes[scope.0 - 1], scope.0 - 1));
    match state.scope(scope).parent {
        None => {
            assert(scope == ScopeId(1));
            assert(grant.within(grant));
        },
        Some(parent) => {
            let allowed = choose|allowed: GrantView| #[trigger]
                state.scope(parent).grants.contains(allowed) && grant.within(allowed);
            law_authority_never_exceeds_the_root(state, parent, allowed);
            let top = choose|top: GrantView| #[trigger] state.scope(ScopeId(1)).grants.contains(top) && allowed.within(
                top,
            );
            law_attenuation_is_transitive(grant, allowed, top);
        },
    }
}

/// Scope `id` and everything below it is closed and holds no open resource.
pub open spec fn quiet(state: SchedulerView, id: ScopeId) -> bool
    decreases u64::MAX - id.0,
{
    let scope = state.scope(id);
    &&& scope.closed
    &&& scope.cancelled is Some
    &&& forall|k: int| 0 <= k < scope.resources.len() ==> !state.open[(#[trigger] scope.resources[k]).0 - 1]
    &&& forall|k: int|
        0 <= k < scope.children.len() && id.0 < (#[trigger] scope.children[k]).0 ==> quiet(state, scope.children[k])
}

proof fn lemma_quiet_stays(before: SchedulerView, after: SchedulerView, id: ScopeId)
    requires
        before.shaped(),
        before.has_scope(id),
        extends(before, after),
        quiet(before, id),
    ensures
        quiet(after, id),
    decreases u64::MAX - id.0,
{
    let scope = before.scope(id);
    assert(before.scope_ok(before.scopes[id.0 - 1], id.0 - 1));
    assert(scope_extends(before.scopes[id.0 - 1], after.scopes[id.0 - 1]));
    assert forall|k: int| 0 <= k < scope.children.len() && id.0 < (#[trigger] scope.children[k]).0 implies quiet(
        after,
        scope.children[k],
    ) by {
        lemma_quiet_stays(before, after, scope.children[k]);
    }
    assert forall|k: int| 0 <= k < scope.resources.len() implies !after.open[(#[trigger] scope.resources[k]).0 - 1] by {
        assert(!before.open[scope.resources[k].0 - 1]);
    }
}

proof fn lemma_resources_released(
    state: SchedulerView,
    resources: Seq<ResourceId>,
    count: int,
    scope: ScopeId,
    closed: nat,
)
    requires
        0 <= count <= resources.len(),
        forall|k: int| 0 <= k < resources.len() ==> 1 <= (#[trigger] resources[k]).0 <= state.open.len(),
    ensures
        forall|k: int|
            0 <= k < count ==> !state.closed_resources(resources, count, scope, closed).0.open[(#[trigger] resources[k]).0
                - 1],
    decreases count,
{
    if count > 0 {
        let id = resources[count - 1];
        if state.open[id.0 - 1] {
            let next = SchedulerView { open: state.open.update(id.0 - 1, false), ..state }.traced(
                EventView::resource(state.now, EventKind::ResourceClosed, scope, id),
            );
            lemma_resources_released(next, resources, count - 1, scope, closed + 1);
            lemma_closed_resources(next, resources, count - 1, scope, closed + 1);
        } else {
            lemma_resources_released(state, resources, count - 1, scope, closed);
            lemma_closed_resources(state, resources, count - 1, scope, closed);
        }
    }
}

proof fn lemma_children_quiet(
    state: SchedulerView,
    children: Seq<ScopeId>,
    from: int,
    owner: ScopeId,
    tasks: nat,
    released: nat,
)
    requires
        state.well_formed(),
        0 <= from <= children.len(),
        forall|k: int| 0 <= k < children.len() ==> owner.0 < (#[trigger] children[k]).0 <= state.scopes.len(),
        forall|k: int| 0 <= k < from ==> quiet(state, #[trigger] children[k]),
    ensures
        forall|k: int|
            0 <= k < children.len() ==> quiet(
                state.closed_children(children, from, owner, tasks, released).0,
                #[trigger] children[k],
            ),
    decreases u64::MAX - owner.0, 0int, children.len() - from,
{
    if from < children.len() {
        let (next, child_tasks, child_released) = state.closed(children[from]);
        lemma_closed(state, children[from]);
        law_closed_scopes_are_quiet(state, children[from]);
        assert forall|k: int| 0 <= k < from + 1 implies quiet(next, #[trigger] children[k]) by {
            if k < from {
                lemma_quiet_stays(state, next, children[k]);
            }
        }
        lemma_children_quiet(next, children, from + 1, owner, tasks + child_tasks, released + child_released);
    }
}

/// A closed scope is quiet: its subtree is closed and cancelled, and every
/// resource that was opened in it is released.
pub proof fn law_closed_scopes_are_quiet(state: SchedulerView, id: ScopeId)
    requires
        state.well_formed(),
        state.has_scope(id),
    ensures
        quiet(state.closed(id).0, id),
    decreases u64::MAX - id.0, 1int, 0int,
{
    lemma_closed(state, id);
    let pending = state.waiting_in(id, state.tasks.len() as int);
    let cancelled = state.cancelled(id, CancelReason::ScopeClosed);
    lemma_cancelled(state, id, CancelReason::ScopeClosed);
    lemma_extends_well_formed(state, cancelled);
    let scope = cancelled.scope(id);
    assert(cancelled.scope_ok(cancelled.scopes[id.0 - 1], id.0 - 1));
    let (inner, tasks, released) = cancelled.closed_children(scope.children, 0, id, pending, 0);
    lemma_closed_children(cancelled, scope.children, 0, id, pending, 0);
    lemma_children_quiet(cancelled, scope.children, 0, id, pending, 0);
    assert(scope_extends(cancelled.scopes[id.0 - 1], inner.scopes[id.0 - 1]));
    let (emptied, total) = inner.closed_resources(scope.resources, scope.resources.len() as int, id, released);
    lemma_closed_resources(inner, scope.resources, scope.resources.len() as int, id, released);
    lemma_resources_released(inner, scope.resources, scope.resources.len() as int, id, released);
    let last = emptied.completed_scope(id);
    lemma_extends_reflexive(emptied);
    assert(extends(emptied, last)) by {
        if !emptied.scope(id).closed {
            assert(emptied.trace =~= last.trace.take(emptied.trace.len() as int));
        }
    }
    lemma_extends_transitive(inner, emptied, last);
    let held = last.scope(id);
    assert(held.children == scope.children);
    assert(held.resources == scope.resources);
    assert forall|k: int| 0 <= k < held.children.len() && id.0 < (#[trigger] held.children[k]).0 implies quiet(
        last,
        held.children[k],
    ) by {
        assert(quiet(inner, scope.children[k]));
        lemma_quiet_stays(inner, last, scope.children[k]);
    }
}

proof fn lemma_quiet_resources(
    state: SchedulerView,
    resources: Seq<ResourceId>,
    count: int,
    scope: ScopeId,
    closed: nat,
)
    requires
        0 <= count <= resources.len(),
        forall|k: int| 0 <= k < resources.len() ==> !state.open[(#[trigger] resources[k]).0 - 1],
    ensures
        state.closed_resources(resources, count, scope, closed) == (state, closed),
    decreases count,
{
    if count > 0 {
        assert(!state.open[resources[count - 1].0 - 1]);
        lemma_quiet_resources(state, resources, count - 1, scope, closed);
    }
}

proof fn lemma_none_waiting(state: SchedulerView, id: ScopeId, count: int)
    requires
        state.well_formed(),
        state.scope(id).cancelled is Some,
        count <= state.tasks.len(),
    ensures
        state.waiting_in(id, count) == 0,
    decreases count,
{
    if count > 0 {
        assert(!state.stranded(count - 1));
        lemma_none_waiting(state, id, count - 1);
    }
}

proof fn lemma_quiet_children(
    state: SchedulerView,
    children: Seq<ScopeId>,
    from: int,
    owner: ScopeId,
    tasks: nat,
    released: nat,
)
    requires
        state.well_formed(),
        0 <= from,
        forall|k: int| 0 <= k < children.len() ==> owner.0 < (#[trigger] children[k]).0 <= state.scopes.len(),
        forall|k: int| 0 <= k < children.len() ==> quiet(state, #[trigger] children[k]),
    ensures
        state.closed_children(children, from, owner, tasks, released) == (state, tasks, released),
    decreases u64::MAX - owner.0, 0int, children.len() - from,
{
    if from < children.len() {
        lemma_quiet_close(state, children[from]);
        lemma_quiet_children(state, children, from + 1, owner, tasks, released);
    }
}

proof fn lemma_quiet_close(state: SchedulerView, id: ScopeId)
    requires
        state.well_formed(),
        state.has_scope(id),
        quiet(state, id),
    ensures
        state.closed(id) == (state, 0nat, 0nat),
    decreases u64::MAX - id.0, 1int, 0int,
{
    let scope = state.scope(id);
    assert(state.scope_ok(state.scopes[id.0 - 1], id.0 - 1));
    lemma_none_waiting(state, id, state.tasks.len() as int);
    assert(state.cancelled(id, CancelReason::ScopeClosed) == state);
    lemma_quiet_children(state, scope.children, 0, id, 0, 0);
    lemma_quiet_resources(state, scope.resources, scope.resources.len() as int, id, 0);
}

/// Closing a closed scope again changes nothing and has nothing to report.
pub proof fn law_closing_twice_changes_nothing(state: SchedulerView, id: ScopeId)
    requires
        state.well_formed(),
        state.has_scope(id),
    ensures
        state.closed(id).0.closed(id) == (state.closed(id).0, 0nat, 0nat),
{
    lemma_closed(state, id);
    law_closed_scopes_are_quiet(state, id);
    lemma_quiet_close(state.closed(id).0, id);
}

proof fn lemma_completed_settles(state: SchedulerView, from: int, at: u64, index: int)
    requires
        state.shaped(),
        0 <= from <= index < state.tasks.len(),
        state.is_due(index, at) || state.tasks[index].state is Terminal,
    ensures
        state.completed(from, at).tasks[index].state is Terminal,
    decreases state.tasks.len() - from,
{
    if state.is_due(from, at) {
        let next = state.finished(
            TaskId((from + 1) as u64),
            state.tasks[from].scope,
            state.tasks[from].state->outcome,
        );
        assert(extends(state, next)) by {
            assert(state.trace =~= next.trace.take(state.trace.len() as int));
        }
        lemma_extends_shaped(state, next);
        if from == index {
            lemma_completed(next, from + 1, at);
            assert(task_extends(next.tasks[index], next.completed(from + 1, at).tasks[index]));
        } else {
            lemma_completed_settles(next, from + 1, at, index);
        }
    } else if from == index {
        lemma_completed(state, from + 1, at);
        assert(task_extends(state.tasks[index], state.completed(from + 1, at).tasks[index]));
    } else {
        lemma_completed_settles(state, from + 1, at, index);
    }
}

/// When the clock moves to an instant, every task that is due by then ends.
pub proof fn law_due_tasks_end(state: SchedulerView, at: u64, task: TaskId)
    requires
        state.well_formed(),
        state.has_task(task),
        state.is_due(task.0 - 1, at) || state.task(task).state is Terminal,
    ensures
        state.advanced(at).task(task).state is Terminal,
{
    let clock = SchedulerView { now: at, ..state };
    lemma_clock_well_formed(state, at);
    let ids = clock.overdue(0, at);
    lemma_overdue_known(clock, 0, at);
    lemma_expired_cancels(clock, ids, 0);
    lemma_expired(clock, ids, 0);
    let settled = clock.expired(ids, 0);
    let index = task.0 - 1;
    assert(settled.tasks[index] == clock.tasks[index] || settled.tasks[index].state is Terminal);
    lemma_completed_settles(settled, 0, at, index);
}

} // verus!
