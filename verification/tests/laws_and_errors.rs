use std::str::FromStr;

use moltis_work::clock::{epoch_millis, rfc3339_or_epoch};
use moltis_work::error::{RecordKind, ValueKind, WorkError};
use moltis_work::records::{NewTask, NewTaskApproval, TaskPatch};
use moltis_work::store::WorkStore;
use moltis_work::types::{ApprovalStatus, GoalStatus, RunStatus, TaskPriority, TaskStatus};

fn s(v: &str) -> String {
    v.to_string()
}

fn task(title: &str, blocked_by: Vec<String>) -> NewTask {
    NewTask {
        list_key: None,
        title: s(title),
        description: None,
        status: TaskStatus::Pending,
        priority: TaskPriority::Medium,
        goal_id: None,
        parent_task_id: None,
        owner: None,
        project_id: None,
        session_key: None,
        blocked_by,
    }
}

#[test]
fn created_task_is_read_back() {
    let mut store = WorkStore::default();
    let created = store.create_task_at(task("Read me", vec![s("b"), s("a")]), s("t1"), s("2026-01-01T00:00:00Z")).expect("create");
    let read = store.get_task("t1").expect("read back");
    assert_eq!(read.title, created.title);
    assert_eq!(read.created_at, "2026-01-01T00:00:00Z");
    assert_eq!(read.blocked_by, vec![s("a"), s("b")]);
    let again = store.create_task_at(task("Again", Vec::new()), s("t1"), s("2026-01-02T00:00:00Z"));
    assert!(matches!(again, Err(WorkError::DuplicateId { kind: RecordKind::Task, .. })));
}

#[test]
fn empty_patch_keeps_task_but_its_update_time() {
    let mut store = WorkStore::default();
    let created = store.create_task_at(task("Keep", Vec::new()), s("t1"), s("2026-01-01T00:00:00Z")).expect("create");
    let updated = store.update_task_at("t1", TaskPatch::default(), s("2026-01-03T00:00:00Z")).expect("update");
    assert_eq!(updated.title, created.title);
    assert_eq!(updated.status, created.status);
    assert_eq!(updated.created_at, created.created_at);
    assert_eq!(updated.claimed_at, created.claimed_at);
    assert_eq!(updated.updated_at, "2026-01-03T00:00:00Z");
    assert!(store.update_task_at("missing", TaskPatch::default(), s("x")).is_none());
}

#[test]
fn claim_binds_session_and_refuses_finished_tasks() {
    let mut store = WorkStore::default();
    let _ = store.create_task_at(task("Claim", Vec::new()), s("t1"), s("2026-01-01T00:00:00Z")).expect("create");
    let claimed = store.claim_task_at("t1", None, Some(s("sess")), s("2026-01-02T00:00:00Z")).expect("ok").expect("task");
    assert_eq!(claimed.status, TaskStatus::InProgress);
    assert_eq!(claimed.session_key.as_deref(), Some("sess"));
    assert_eq!(claimed.claimed_at.as_deref(), Some("2026-01-02T00:00:00Z"));
    let err = store.claim_task_at("t1", None, None, s("2026-01-03T00:00:00Z")).expect_err("in progress");
    assert!(matches!(&err, WorkError::ClaimFromStatus { status: TaskStatus::InProgress, .. }));
    assert_eq!(err.message(), "task t1 cannot be claimed from status in_progress");
    assert!(store.claim_task_at("nope", None, None, s("x")).expect("none").is_none());
}

#[test]
fn blocked_claim_lists_incomplete_dependencies_in_id_order() {
    let mut store = WorkStore::default();
    let _ = store.create_task_at(task("B", Vec::new()), s("b"), s("2026-01-01T00:00:00Z")).expect("b");
    let _ = store.create_task_at(task("A", Vec::new()), s("a"), s("2026-01-01T00:00:00Z")).expect("a");
    let _ = store.create_task_at(task("Main", vec![s("b"), s("a")]), s("m"), s("2026-01-01T00:00:00Z")).expect("m");
    assert_eq!(store.list_incomplete_dependencies("m"), vec![s("a"), s("b")]);
    let err = store.claim_task_at("m", None, None, s("2026-01-02T00:00:00Z")).expect_err("blocked");
    assert_eq!(err.message(), "task m is blocked by incomplete tasks: a, b");
    let done = TaskPatch { status: Some(TaskStatus::Completed), ..TaskPatch::default() };
    let _ = store.update_task_at("a", done.clone(), s("2026-01-02T00:00:00Z")).expect("a done");
    let _ = store.update_task_at("b", TaskPatch { status: Some(TaskStatus::Cancelled), ..TaskPatch::default() }, s("2026-01-02T00:00:00Z")).expect("b cancelled");
    assert!(store.claim_task_at("m", Some(s("w")), None, s("2026-01-03T00:00:00Z")).expect("claim").is_some());
}

#[test]
fn override_request_is_reused_by_the_next_check() {
    let mut store = WorkStore::default();
    let _ = store.create_task_at(task("Spend", Vec::new()), s("t1"), s("2026-01-01T00:00:00Z")).expect("task");
    let statuses = Vec::new();
    let first = store.enforce_task_budget_at("t1", statuses.clone(), s("req-1"), s("2026-01-02T00:00:00Z")).expect("no budgets");
    assert!(first.allowed);
    let over = vec![moltis_work::records::BudgetStatus {
        budget: moltis_work::records::WorkBudget {
            id: s("b1"),
            scope: moltis_work::types::BudgetScope::Task,
            scope_id: s("t1"),
            soft_limit_tokens: None,
            hard_limit_tokens: Some(1),
            soft_limit_usd_bits: None,
            hard_limit_usd_bits: None,
            note: None,
            created_at: s("x"),
            updated_at: s("x"),
        },
        total_tokens: 5,
        estimated_cost_usd_bits: 0,
        soft_exceeded: true,
        hard_exceeded: true,
    }];
    let check = store.enforce_task_budget_at("t1", over.clone(), s("req-1"), s("2026-01-03T00:00:00Z")).expect("over");
    assert!(!check.allowed && check.requires_approval);
    let again = store.enforce_task_budget_at("t1", over.clone(), s("req-2"), s("2026-01-04T00:00:00Z")).expect("over again");
    assert_eq!(again.pending_approval_id, check.pending_approval_id);
    assert_eq!(store.approvals.len(), 1);
    let _ = store.create_approval_at(
        NewTaskApproval { task_id: Some(s("t1")), kind: s("budget_override"), reason: None, status: ApprovalStatus::Approved },
        s("ap2"),
        s("2026-01-05T00:00:00Z"),
    );
    let allowed = store.enforce_task_budget_at("t1", over, s("req-3"), s("2026-01-06T00:00:00Z")).expect("approved");
    assert!(allowed.allowed);
}

#[test]
fn stored_names_read_back() {
    for st in [TaskStatus::Pending, TaskStatus::InProgress, TaskStatus::Blocked, TaskStatus::Completed, TaskStatus::Cancelled] {
        assert_eq!(TaskStatus::parse(st.as_str()).expect("status"), st);
    }
    for st in [RunStatus::Pending, RunStatus::Running] {
        assert_eq!(RunStatus::parse(st.as_str()).expect("run"), st);
    }
    assert_eq!(GoalStatus::parse("active").expect("goal"), GoalStatus::Active);
    let err = GoalStatus::parse("paused").expect_err("unknown");
    assert!(matches!(&err, WorkError::UnknownValue { value_kind: ValueKind::GoalStatus, .. }));
    assert_eq!(err.message(), "unknown goal status: paused");
}

#[test]
fn error_messages_name_what_went_wrong() {
    assert_eq!(WorkError::NotFound { kind: RecordKind::TaskTemplate, id: s("x") }.message(), "task template x not found");
    assert_eq!(WorkError::DuplicateId { kind: RecordKind::Goal, id: s("g") }.message(), "goal g already exists");
    assert_eq!(
        WorkError::MissingParentTemplate { template_id: s("c"), parent_template_id: s("p") }.message(),
        "template c references missing parent template p"
    );
    assert_eq!(
        WorkError::DependencyOutsideTree { template_id: s("c"), dependency_id: s("d") }.message(),
        "template c depends on template d outside the instantiated tree"
    );
    assert_eq!(WorkError::Schedule { message: s("bad cron") }.message(), "bad cron");
    assert_eq!(WorkError::MissingFrontmatterEnd.message(), "markdown file is missing closing ---");
}

#[test]
fn stamped_operations_draw_distinct_ids() {
    let mut store = WorkStore::default();
    let a = store.create_task(task("A", Vec::new())).expect("a");
    let b = store.create_task(task("B", Vec::new())).expect("b");
    assert_ne!(a.id, b.id);
    assert!(!a.created_at.is_empty());
    assert!(moltis_work::clock::now_ms() > 0);
}

#[test]
fn dashboard_parts_cover_every_task_and_portfolio_orders_projects() {
    let mut store = WorkStore::default();
    let statuses = [TaskStatus::Pending, TaskStatus::InProgress, TaskStatus::Blocked, TaskStatus::Completed, TaskStatus::Cancelled, TaskStatus::Pending];
    for (i, st) in statuses.iter().enumerate() {
        let mut t = task(&format!("T{i}"), Vec::new());
        t.status = *st;
        t.project_id = if i % 2 == 0 { Some(s("p-b")) } else if i == 1 { None } else { Some(s("p-a")) };
        let _ = store.create_task_at(t, format!("t{i}"), format!("2026-01-0{}T00:00:00Z", i + 1)).expect("task");
    }
    let d = store.dashboard(None, &Vec::new()).expect("dashboard");
    let total = d.counts.pending + d.counts.in_progress + d.counts.blocked + d.counts.completed + d.counts.cancelled;
    assert_eq!(total, 6);
    assert_eq!(d.counts.pending, 2);
    assert_eq!(d.pending_tasks[0].id, "t5");
    let p = store.portfolio(&Vec::new()).expect("portfolio");
    let keys: Vec<Option<&str>> = p.projects.iter().map(|x| x.project_id.as_deref()).collect();
    assert_eq!(keys, vec![None, Some("p-a"), Some("p-b")]);
    let tasks_total: usize = p
        .projects
        .iter()
        .map(|x| x.task_counts.pending + x.task_counts.in_progress + x.task_counts.blocked + x.task_counts.completed + x.task_counts.cancelled)
        .sum();
    assert_eq!(tasks_total, 6);
}

#[test]
fn clock_readings_are_converted_exactly() {
    assert_eq!(epoch_millis(None), 0);
    assert_eq!(epoch_millis(Some(1_700_000_000_123)), 1_700_000_000_123);
    assert_eq!(epoch_millis(Some((1u128 << 64) + 5)), 5);
    assert_eq!(rfc3339_or_epoch(None), "1970-01-01T00:00:00Z");
    assert_eq!(rfc3339_or_epoch(Some(s("2026-04-02T10:00:00Z"))), "2026-04-02T10:00:00Z");
}

#[test]
fn stored_names_parse_through_from_str() {
    assert_eq!(TaskStatus::from_str("in_progress").expect("status"), TaskStatus::InProgress);
    assert_eq!(moltis_work::types::BudgetScope::from_str("project").expect("scope"), moltis_work::types::BudgetScope::Project);
    assert_eq!(GoalStatus::from_str("done").expect_err("unknown").message(), "unknown goal status: done");
}
