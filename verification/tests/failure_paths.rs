use moltis_work::browser::BrowserSessionStore;
use moltis_work::error::{RecordKind, WorkError};
use moltis_work::records::{
    GoalPlanRequest, InstantiateTaskTemplate, NewGoal, NewRecurringTask, NewTaskApproval, NewTaskTemplate, NewWorkBudget,
    TrackerImportRequest,
};
use moltis_work::store::{TemplateRow, WorkStore};
use moltis_work::types::{ApprovalStatus, BudgetScope, GoalPlanPreset, GoalStatus, TaskPriority};
use moltis_work::package_import::{GoalRecord, TaskRecord};

fn s(v: &str) -> String {
    v.to_string()
}

fn row(id: &str, parent: Option<&str>) -> TemplateRow {
    TemplateRow {
        id: s(id),
        slug: None,
        title: format!("Template {id}"),
        description: None,
        priority: TaskPriority::Medium,
        list_key: None,
        goal_id: None,
        parent_template_id: parent.map(s),
        owner: None,
        project_id: None,
        created_at: s("2026-01-01T00:00:00Z"),
        updated_at: s("2026-01-01T00:00:00Z"),
    }
}

fn params(template_id: &str) -> InstantiateTaskTemplate {
    InstantiateTaskTemplate {
        template_id: s(template_id),
        list_key: None,
        goal_id: None,
        parent_task_id: None,
        owner: None,
        project_id: None,
    }
}

fn template(title: &str, parent: Option<&str>) -> NewTaskTemplate {
    NewTaskTemplate {
        slug: None,
        title: s(title),
        description: None,
        priority: TaskPriority::Medium,
        list_key: None,
        goal_id: None,
        parent_template_id: parent.map(s),
        owner: None,
        project_id: None,
        blocked_by: Vec::new(),
    }
}

fn record(remote_id: &str, task_id: Option<&str>) -> TrackerImportRequest {
    TrackerImportRequest {
        provider: s("github"),
        remote_id: s(remote_id),
        remote_title: s("Imported"),
        remote_body: None,
        remote_status: s("open"),
        remote_url: Some(s("https://example.com/1")),
        remote_updated_at: None,
        task_id: task_id.map(s),
        list_key: None,
        goal_id: None,
        owner: None,
        project_id: None,
    }
}

#[test]
fn root_template_with_a_parent_is_not_instantiated() {
    let mut store = WorkStore::default();
    store.templates.push(row("p", None));
    store.templates.push(row("r", Some("p")));
    let err = store.instantiate_task_template_at(params("r"), s("now")).expect_err("root has a parent");
    match err {
        WorkError::MissingParentTemplate { template_id, parent_template_id } => {
            assert_eq!(template_id, "r");
            assert_eq!(parent_template_id, "p");
        },
        other => panic!("unexpected error {other:?}"),
    }
    assert!(store.tasks.is_empty());
}

#[test]
fn parent_links_that_lead_back_are_refused() {
    let mut store = WorkStore::default();
    store.templates.push(row("a", Some("b")));
    store.templates.push(row("b", Some("a")));
    assert!(store.leads_back_to("a"));
    assert!(matches!(store.collect_template_subtree("a"), Err(WorkError::TemplateCycle { .. })));
    let err = store.instantiate_task_template_at(params("a"), s("now")).expect_err("cycle");
    assert!(matches!(err, WorkError::TemplateCycle { template_id } if template_id == "a"));
    assert!(store.tasks.is_empty());
    let mut plain = WorkStore::default();
    plain.templates.push(row("a", None));
    plain.templates.push(row("b", Some("a")));
    assert!(!plain.leads_back_to("a"));
    assert_eq!(plain.collect_template_subtree("a").expect("tree").len(), 2);
}

#[test]
fn instantiation_ids_must_be_fresh_and_distinct() {
    let mut store = WorkStore::default();
    store.templates.push(row("r", None));
    store.templates.push(row("c", Some("r")));
    let tree = store.collect_template_subtree("r").expect("tree");
    let repeated = store.instantiate_tree_with_ids(params("r"), &tree, vec![s("x"), s("x")], s("now"));
    assert!(matches!(repeated, Err(WorkError::DuplicateId { kind: RecordKind::Task, id }) if id == "x"));
    assert!(store.tasks.is_empty());
    let made = store.instantiate_tree_with_ids(params("r"), &tree, vec![s("x"), s("y")], s("now")).expect("fresh ids");
    assert_eq!(made.task_ids, vec![s("x"), s("y")]);
    assert_eq!(made.root_task_id, "x");
    assert_eq!(store.get_task("y").expect("child").parent_task_id.as_deref(), Some("x"));
    let taken = store.instantiate_tree_with_ids(params("r"), &tree, vec![s("z"), s("y")], s("now"));
    assert!(matches!(taken, Err(WorkError::DuplicateId { kind: RecordKind::Task, id }) if id == "y"));
    assert_eq!(store.tasks.len(), 2);
}

#[test]
fn goal_plan_refuses_a_taken_template_id_and_writes_nothing() {
    let mut store = WorkStore::default();
    let goal = store
        .create_goal_at(
            NewGoal { slug: None, title: s("Ship"), description: None, status: GoalStatus::Active, project_id: None, parent_goal_id: None },
            s("g1"),
            s("now"),
        )
        .expect("goal");
    let _ = store.create_task_template_at(template("Existing", None), s("taken"), s("now")).expect("template");
    let request = GoalPlanRequest {
        goal_id: goal.id.clone(),
        preset: GoalPlanPreset::Delivery,
        list_key: None,
        owner: None,
        project_id: None,
        instantiate: true,
    };
    let ids = vec![s("p0"), s("p1"), s("taken"), s("p3"), s("p4")];
    let err = store.plan_goal_at(request.clone(), ids, s("now")).expect_err("taken id");
    assert!(matches!(err, WorkError::DuplicateId { kind: RecordKind::TaskTemplate, id } if id == "taken"));
    assert_eq!(store.templates.len(), 1);
    let repeated = vec![s("p0"), s("p1"), s("p1"), s("p3"), s("p4")];
    assert!(matches!(store.plan_goal_at(request.clone(), repeated, s("now")), Err(WorkError::DuplicateId { .. })));
    let fresh = vec![s("p0"), s("p1"), s("p2"), s("p3"), s("p4")];
    let plan = store.plan_goal_at(request, fresh, s("now")).expect("plan");
    assert_eq!(plan.root_template.id, "p0");
    assert_eq!(plan.instantiated.expect("tasks").count, 5);
}

#[test]
fn tracker_import_checks_ids_before_writing() {
    let mut store = WorkStore::default();
    let first = store.import_tracker_task_at(record("org/repo#1", None), s("t1"), s("l1"), s("now")).expect("import");
    assert!(first.created_task);
    assert_eq!(first.task.id, "t1");
    assert_eq!(first.link.id, "l1");
    let again = store.import_tracker_task_at(record("org/repo#1", None), s("t2"), s("l2"), s("later")).expect("re-import");
    assert!(!again.created_task);
    assert_eq!(again.task.id, "t1");
    assert_eq!(again.link.id, "l1");
    assert_eq!(store.tasks.len(), 1);
    assert_eq!(store.links.len(), 1);
    let missing = store.import_tracker_task_at(record("org/repo#2", Some("nope")), s("t3"), s("l3"), s("now"));
    assert!(matches!(missing, Err(WorkError::NotFound { kind: RecordKind::Task, id }) if id == "nope"));
    let task_taken = store.import_tracker_task_at(record("org/repo#3", None), s("t1"), s("l3"), s("now"));
    assert!(matches!(task_taken, Err(WorkError::DuplicateId { kind: RecordKind::Task, id }) if id == "t1"));
    let link_taken = store.import_tracker_task_at(record("org/repo#3", None), s("t3"), s("l1"), s("now"));
    assert!(matches!(link_taken, Err(WorkError::DuplicateId { kind: RecordKind::Link, id }) if id == "l1"));
    assert_eq!(store.tasks.len(), 1);
    assert_eq!(store.links.len(), 1);
}

#[test]
fn materialization_failures_keep_earlier_work() {
    let mut store = WorkStore::default();
    let _ = store.create_task_template_at(template("Review", None), s("tpl"), s("now")).expect("template");
    let _ = store
        .create_recurring_task_at(
            NewRecurringTask {
                name: s("Weekly"),
                template_id: s("tpl"),
                schedule_json: s("{}"),
                enabled: true,
                list_key: None,
                goal_id: None,
                owner: None,
                project_id: None,
            },
            s("rec"),
            s("now"),
            Ok(Some(60_000)),
        )
        .expect("recurring");
    let due = store.due_recurring_tasks(Some("rec"), Some(10), true, 120_000);
    assert_eq!(due.len(), 1);
    let ok = store.materialize_recurring_at(&due, &vec![Ok(Some(180_000))], &vec![s("m1")], 120_000, s("now")).expect("first");
    assert_eq!(ok.materializations[0].id, "m1");
    let tasks_before = store.tasks.len();
    let taken = store.materialize_recurring_at(&due, &vec![Ok(Some(180_000))], &vec![s("m1")], 120_000, s("now"));
    assert!(matches!(taken, Err(WorkError::DuplicateId { kind: RecordKind::Materialization, id }) if id == "m1"));
    assert_eq!(store.tasks.len(), tasks_before);
    let bad = store.materialize_recurring_at(&due, &vec![Err(s("bad schedule"))], &vec![s("m2")], 120_000, s("now"));
    assert!(matches!(bad, Err(WorkError::Schedule { message }) if message == "bad schedule"));
    assert_eq!(store.materializations.len(), 2);
    assert_eq!(store.materializations[1].id, "m2");
}

#[test]
fn override_request_under_a_taken_id_is_refused() {
    let mut store = WorkStore::default();
    let _ = store
        .create_task_at(
            moltis_work::records::NewTask {
                list_key: None,
                title: s("Spend"),
                description: None,
                status: moltis_work::types::TaskStatus::Pending,
                priority: TaskPriority::Medium,
                goal_id: None,
                parent_task_id: None,
                owner: None,
                project_id: None,
                session_key: None,
                blocked_by: Vec::new(),
            },
            s("t1"),
            s("now"),
        )
        .expect("task");
    let _ = store
        .create_approval_at(
            NewTaskApproval { task_id: None, kind: s("other"), reason: None, status: ApprovalStatus::Pending },
            s("taken"),
            s("now"),
        )
        .expect("approval");
    let over = vec![moltis_work::records::BudgetStatus {
        budget: moltis_work::records::WorkBudget {
            id: s("b1"),
            scope: BudgetScope::Task,
            scope_id: s("t1"),
            soft_limit_tokens: None,
            hard_limit_tokens: Some(1),
            soft_limit_usd_bits: None,
            hard_limit_usd_bits: None,
            note: None,
            created_at: s("x"),
            updated_at: s("x"),
        },
        total_tokens: 5,
        estimated_cost_usd_bits: 0,
        soft_exceeded: true,
        hard_exceeded: true,
    }];
    let err = store.enforce_task_budget_at("t1", over.clone(), s("taken"), s("now")).expect_err("taken id");
    assert!(matches!(err, WorkError::DuplicateId { kind: RecordKind::Approval, id } if id == "taken"));
    assert_eq!(store.approvals.len(), 1);
    let check = store.enforce_task_budget_at("t1", over, s("fresh"), s("now")).expect("request");
    assert_eq!(check.pending_approval_id.as_deref(), Some("fresh"));
}

#[test]
fn a_scope_keeps_one_budget() {
    let mut store = WorkStore::default();
    let budget = NewWorkBudget {
        scope: BudgetScope::Project,
        scope_id: s("proj"),
        soft_limit_tokens: Some(10),
        hard_limit_tokens: Some(20),
        soft_limit_usd_bits: None,
        hard_limit_usd_bits: None,
        note: None,
    };
    let first = store.save_budget_at(budget.clone(), s("b1"), s("now")).expect("first");
    let second = store.save_budget_at(NewWorkBudget { hard_limit_tokens: Some(30), ..budget }, s("b2"), s("later")).expect("second");
    assert_eq!(second.id, first.id);
    assert_eq!(store.budgets.len(), 1);
    assert_eq!(store.budgets[0].hard_limit_tokens, Some(30));
    let listed = store.list_budgets(Some(BudgetScope::Project), Some("proj"));
    assert_eq!(listed.len(), 1);
    assert_eq!(listed[0].id, "b1");
}

#[test]
fn browser_sessions_and_actions_keep_distinct_ids() {
    let mut store = BrowserSessionStore::default();
    store.start_session_at("s1", false, s("2026-01-01T00:00:00Z"));
    store.start_session_at("s1", true, s("2026-01-02T00:00:00Z"));
    store.start_session_at("s2", false, s("2026-01-03T00:00:00Z"));
    assert_eq!(store.sessions.len(), 2);
    store.log_action_at("s1", "navigate", Some("https://a.example"), true, None, 5, s("2026-01-04T00:00:00Z"));
    store.log_action_at("s1", "click", None, true, None, 1, s("2026-01-05T00:00:00Z"));
    let listed = store.list_all(10);
    assert_eq!(listed.len(), 2);
    assert_ne!(listed[0].session_id, listed[1].session_id);
    let actions = store.get_actions("s1", 10);
    let ids: Vec<i64> = actions.iter().map(|a| a.id).collect();
    assert_eq!(ids, vec![2, 1]);
}

#[test]
fn reimported_records_change_only_update_time() {
    let mut store = WorkStore::default();
    let import = |store: &mut WorkStore, now: &str| {
        store.import_task_record_at(
            s("t1"),
            Some(s("list")),
            s("Imported task"),
            Some(s("body")),
            moltis_work::types::TaskStatus::Blocked,
            TaskPriority::High,
            None,
            None,
            Some(s("owner")),
            Some(s("proj")),
            Vec::new(),
            s(now),
        )
    };
    let once = import(&mut store, "2026-01-01T00:00:00Z");
    let twice = import(&mut store, "2026-01-02T00:00:00Z");
    assert_eq!(store.tasks.len(), 1);
    assert_eq!(twice.created_at, once.created_at);
    assert_eq!(twice.updated_at, "2026-01-02T00:00:00Z");
    assert_eq!(twice.title, once.title);
    assert_eq!(twice.status, once.status);
    let goal_once = store.import_goal_record_at(s("g1"), None, s("Goal"), None, GoalStatus::Active, None, None, s("2026-01-01T00:00:00Z"));
    let goal_twice = store.import_goal_record_at(s("g1"), None, s("Goal"), None, GoalStatus::Active, None, None, s("2026-01-03T00:00:00Z"));
    assert_eq!(store.goals.len(), 1);
    assert_eq!(goal_twice.created_at, goal_once.created_at);
    assert_eq!(goal_twice.updated_at, "2026-01-03T00:00:00Z");
}

#[test]
fn subtree_is_walked_depth_first_oldest_child_first() {
    let mut store = WorkStore::default();
    let mut c2 = row("c2", Some("r"));
    c2.created_at = s("2026-01-03T00:00:00Z");
    let mut c1 = row("c1", Some("r"));
    c1.created_at = s("2026-01-02T00:00:00Z");
    let mut g = row("g", Some("c1"));
    g.created_at = s("2026-01-04T00:00:00Z");
    store.templates.push(c2);
    store.templates.push(row("r", None));
    store.templates.push(g);
    store.templates.push(c1);
    let tree = store.collect_template_subtree("r").expect("tree");
    let ids: Vec<String> = tree.iter().map(|t| t.id.clone()).collect();
    assert_eq!(ids, vec![s("r"), s("c1"), s("g"), s("c2")]);
}

#[test]
fn importing_a_package_twice_changes_only_update_times() {
    let goals = vec![GoalRecord {
        id: s("g1"),
        slug: Some(s("ship")),
        title: s("Ship"),
        description: Some(s("body")),
        status: GoalStatus::Active,
        project_id: Some(s("proj")),
        parent_goal_id: None,
    }];
    let tasks = vec![
        TaskRecord {
            id: s("t1"),
            list_key: Some(s("default")),
            title: s("First"),
            description: None,
            status: moltis_work::types::TaskStatus::Pending,
            priority: TaskPriority::High,
            goal_id: Some(s("g1")),
            parent_task_id: None,
            owner: None,
            project_id: Some(s("proj")),
            blocked_by: Vec::new(),
        },
        TaskRecord {
            id: s("t2"),
            list_key: Some(s("default")),
            title: s("Second"),
            description: None,
            status: moltis_work::types::TaskStatus::Blocked,
            priority: TaskPriority::Low,
            goal_id: Some(s("g1")),
            parent_task_id: Some(s("t1")),
            owner: Some(s("me")),
            project_id: Some(s("proj")),
            blocked_by: vec![s("t1")],
        },
    ];
    let budgets = vec![NewWorkBudget {
        scope: BudgetScope::Project,
        scope_id: s("proj"),
        soft_limit_tokens: Some(10),
        hard_limit_tokens: Some(20),
        soft_limit_usd_bits: None,
        hard_limit_usd_bits: None,
        note: None,
    }];
    let mut store = WorkStore::default();
    let first = store.import_package_at(&goals, &tasks, &budgets, &vec![s("b1")], s("2026-01-01T00:00:00Z")).expect("first");
    let after_first = store.clone();
    let second = store.import_package_at(&goals, &tasks, &budgets, &vec![s("b2")], s("2026-01-02T00:00:00Z")).expect("second");
    assert_eq!((first.goals_imported, first.tasks_imported, first.budgets_imported), (1, 2, 1));
    assert_eq!((second.goals_imported, second.tasks_imported, second.budgets_imported), (1, 2, 1));
    assert_eq!(store.goals.len(), 1);
    assert_eq!(store.tasks.len(), 2);
    assert_eq!(store.budgets.len(), 1);
    assert_eq!(store.budgets[0].id, "b1");
    assert_eq!(store.budgets[0].created_at, after_first.budgets[0].created_at);
    assert_eq!(store.tasks[1].created_at, after_first.tasks[1].created_at);
    assert_eq!(store.tasks[1].updated_at, "2026-01-02T00:00:00Z");
    assert_eq!(store.goals[0].created_at, "2026-01-01T00:00:00Z");
    assert_eq!(store.get_task("t2").expect("task").blocked_by, vec![s("t1")]);
}
