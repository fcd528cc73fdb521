use vibra::async_runtime::{
    CancelReason, CapabilityGrant, CleanupReport, EventKind, RuntimeError, Scheduler, TaskId, TaskOutcome,
};

fn grant(domain: &str, prefix: &str) -> CapabilityGrant {
    CapabilityGrant { domain: domain.into(), resource_prefix: prefix.into() }
}

#[test]
fn completions_are_deterministic_and_join_is_affine() {
    let mut scheduler = Scheduler::new(vec![]);
    let root = scheduler.root();
    let mut first = scheduler.spawn_scripted(root, 5, TaskOutcome::Completed("first".into())).unwrap();
    let mut second = scheduler.spawn_scripted(root, 5, TaskOutcome::Completed("second".into())).unwrap();
    assert_eq!(scheduler.join(&mut first), Err(RuntimeError::TaskPending));
    scheduler.advance_to(5);
    assert_eq!(scheduler.join(&mut first).unwrap(), TaskOutcome::Completed("first".into()));
    assert_eq!(scheduler.join(&mut first), Err(RuntimeError::AlreadyJoined));
    assert_eq!(scheduler.join(&mut second).unwrap(), TaskOutcome::Completed("second".into()));
    let completed: Vec<_> = scheduler
        .trace()
        .iter()
        .filter(|event| event.kind == EventKind::TaskCompleted)
        .map(|event| event.task.unwrap())
        .collect();
    assert_eq!(completed, [TaskId(1), TaskId(2)]);
}

#[test]
fn deadline_wins_over_completion_and_propagates() {
    let mut scheduler = Scheduler::new(vec![]);
    let root = scheduler.root();
    let child = scheduler.open_scope(root, vec![], Some(10)).unwrap();
    let grandchild = scheduler.open_scope(child, vec![], Some(9)).unwrap();
    assert_eq!(scheduler.parent_scope(grandchild).unwrap(), Some(child));
    let mut task = scheduler.spawn_scripted(grandchild, 10, TaskOutcome::Completed("late".into())).unwrap();
    scheduler.advance_to(10);
    assert_eq!(scheduler.join(&mut task).unwrap(), TaskOutcome::Cancelled(CancelReason::ParentCancelled));
    let deadline = scheduler
        .trace()
        .iter()
        .position(|event| event.kind == EventKind::ScopeCancelled && event.reason == Some(CancelReason::Deadline))
        .unwrap();
    let task_cancel = scheduler.trace().iter().position(|event| event.kind == EventKind::TaskCancelled).unwrap();
    assert!(deadline < task_cancel);
}

#[test]
fn capabilities_can_only_be_attenuated() {
    let mut scheduler = Scheduler::new(vec![grant("filesystem-read", "/safe")]);
    let root = scheduler.root();
    assert!(scheduler.open_scope(root, vec![grant("filesystem-read", "/safe/cache")], None).is_ok());
    assert_eq!(
        scheduler.open_scope(root, vec![grant("filesystem-read", "/")], None),
        Err(RuntimeError::CapabilityAmplification(grant("filesystem-read", "/")))
    );
    assert_eq!(
        scheduler.open_scope(root, vec![grant("network", "")], None),
        Err(RuntimeError::CapabilityAmplification(grant("network", "")))
    );
}

#[test]
fn scope_close_cancels_tasks_and_closes_resources_in_reverse_order() {
    let mut scheduler = Scheduler::new(vec![]);
    let root = scheduler.root();
    let mut task = scheduler.spawn_scripted(root, 100, TaskOutcome::Completed("never".into())).unwrap();
    let first = scheduler.open_resource(root).unwrap();
    let second = scheduler.open_resource(root).unwrap();
    assert_eq!(
        scheduler.close_scope(root).unwrap(),
        CleanupReport { cancelled_tasks: 1, closed_resources: 2 }
    );
    assert_eq!(scheduler.join(&mut task).unwrap(), TaskOutcome::Cancelled(CancelReason::ParentCancelled));
    let closed: Vec<_> = scheduler
        .trace()
        .iter()
        .filter(|event| event.kind == EventKind::ResourceClosed)
        .map(|event| event.resource.unwrap())
        .collect();
    assert_eq!(closed, [second, first]);
}

#[test]
fn trace_document_is_versioned() {
    let scheduler = Scheduler::new(vec![]);
    let document = scheduler.trace_document();
    assert_eq!(document.contract_version, "1");
    assert_eq!(document.events.len(), 1);
    assert_eq!(document.events[0].kind, EventKind::ScopeOpened);
    assert_eq!(document.events[0].scope, scheduler.root());
}

#[test]
fn authority_is_inherited_through_scopes() {
    let mut scheduler = Scheduler::new(vec![grant("network", "/net")]);
    let root = scheduler.root();
    let inner = scheduler.open_scope(root, vec![grant("network", "/net/one")], None).unwrap();
    assert_eq!(
        scheduler.open_scope(inner, vec![grant("network", "/net")], None),
        Err(RuntimeError::CapabilityAmplification(grant("network", "/net")))
    );
}

#[test]
fn closing_twice_changes_nothing() {
    let mut scheduler = Scheduler::new(vec![]);
    let root = scheduler.root();
    let scope = scheduler.open_scope(root, vec![], None).unwrap();
    scheduler.open_resource(scope).unwrap();
    assert_eq!(scheduler.close_scope(scope).unwrap(), CleanupReport { cancelled_tasks: 0, closed_resources: 1 });
    let events = scheduler.trace().len();
    assert_eq!(scheduler.close_scope(scope).unwrap(), CleanupReport { cancelled_tasks: 0, closed_resources: 0 });
    assert_eq!(scheduler.trace().len(), events);
}

#[test]
fn cancelling_a_scope_reaches_its_children() {
    let mut scheduler = Scheduler::new(vec![]);
    let root = scheduler.root();
    let child = scheduler.open_scope(root, vec![], None).unwrap();
    let mut task = scheduler.spawn_scripted(child, 1, TaskOutcome::Completed("x".into())).unwrap();
    scheduler.cancel_scope(root, CancelReason::Explicit);
    scheduler.advance_to(5);
    assert!(matches!(scheduler.join(&mut task), Ok(TaskOutcome::Cancelled(_))));
    assert!(scheduler.spawn_scripted(child, 9, TaskOutcome::Completed("y".into())).is_err());
}

#[test]
fn advancing_settles_tasks_once() {
    let mut scheduler = Scheduler::new(vec![]);
    let root = scheduler.root();
    let child = scheduler.open_scope(root, vec![], Some(10)).unwrap();
    let below = scheduler.open_scope(child, vec![], None).unwrap();
    let mut due = scheduler.spawn_scripted(root, 10, TaskOutcome::Failed("due".into())).unwrap();
    let mut late = scheduler.spawn_scripted(root, 11, TaskOutcome::Completed("late".into())).unwrap();
    let mut lost = scheduler.spawn_scripted(below, 5, TaskOutcome::Completed("lost".into())).unwrap();
    scheduler.advance_to(10);
    assert_eq!(scheduler.now(), 10);
    let events = scheduler.trace().len();
    scheduler.advance_to(10);
    assert_eq!(scheduler.trace().len(), events);
    assert_eq!(scheduler.join(&mut due).unwrap(), TaskOutcome::Failed("due".into()));
    assert_eq!(scheduler.join(&mut late), Err(RuntimeError::TaskPending));
    assert_eq!(scheduler.join(&mut lost).unwrap(), TaskOutcome::Cancelled(CancelReason::ParentCancelled));
    let times: Vec<u64> = scheduler.trace().iter().map(|event| event.at).collect();
    assert!(times.windows(2).all(|pair| pair[0] <= pair[1]));
    assert_eq!(scheduler.trace()[0].kind, EventKind::ScopeOpened);
    assert_eq!(scheduler.trace()[0].at, 0);
}

#[test]
fn closing_reaches_below_and_releases_once() {
    let mut scheduler = Scheduler::new(vec![]);
    let root = scheduler.root();
    let child = scheduler.open_scope(root, vec![], None).unwrap();
    let below = scheduler.open_scope(child, vec![], None).unwrap();
    scheduler.open_resource(child).unwrap();
    scheduler.open_resource(below).unwrap();
    scheduler.open_resource(below).unwrap();
    let report = scheduler.close_scope(child).unwrap();
    assert_eq!(report.closed_resources, 3);
    let released = |scheduler: &Scheduler| {
        let mut ids: Vec<_> = scheduler
            .trace()
            .iter()
            .filter(|event| event.kind == EventKind::ResourceClosed)
            .map(|event| event.resource.unwrap().0)
            .collect();
        ids.sort();
        ids
    };
    assert_eq!(released(&scheduler), [1, 2, 3]);
    assert_eq!(scheduler.open_scope(below, vec![], None), Err(RuntimeError::ScopeClosed));
    assert_eq!(scheduler.open_resource(below), Err(RuntimeError::ScopeClosed));
    assert!(scheduler.spawn_scripted(below, 1, TaskOutcome::Completed(String::new())).is_err());
    assert_eq!(scheduler.close_scope(child).unwrap(), CleanupReport { cancelled_tasks: 0, closed_resources: 0 });
    assert_eq!(released(&scheduler), [1, 2, 3]);
}

#[test]
fn two_steps_settle_as_one_unless_a_deadline_lies_between() {
    let run = |steps: &[u64], deadline: u64| {
        let mut scheduler = Scheduler::new(vec![]);
        let root = scheduler.root();
        let child = scheduler.open_scope(root, vec![], Some(deadline)).unwrap();
        let mut task = scheduler.spawn_scripted(child, 4, TaskOutcome::Completed("done".into())).unwrap();
        for at in steps {
            scheduler.advance_to(*at);
        }
        scheduler.join(&mut task).unwrap()
    };
    assert_eq!(run(&[5, 10], 20), run(&[10], 20));
    assert_eq!(run(&[5, 10], 5), run(&[10], 5));
    assert_eq!(run(&[5, 10], 8), TaskOutcome::Completed("done".into()));
    assert_eq!(run(&[10], 8), TaskOutcome::Cancelled(CancelReason::ParentCancelled));
}
