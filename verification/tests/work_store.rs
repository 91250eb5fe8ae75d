use moltis_work::budget::UsdTally;
use moltis_work::records::{
    ExternalTaskLinkFilter, GoalPlanRequest, InstantiateTaskTemplate, NewGoal, NewRecurringTask, NewTask,
    NewTaskApproval, NewTaskCostAttribution, NewTaskRun, NewTaskTemplate, NewWorkBudget, TaskFilter,
    TrackerImportRequest,
};
use moltis_work::store::WorkStore;
use moltis_work::types::{ApprovalStatus, BudgetScope, GoalPlanPreset, GoalStatus, RunStatus, TaskPriority, TaskStatus};

fn s(v: &str) -> String {
    v.to_string()
}

fn new_task(title: &str) -> NewTask {
    NewTask {
        list_key: None,
        title: s(title),
        description: None,
        status: TaskStatus::Pending,
        priority: TaskPriority::Medium,
        goal_id: None,
        parent_task_id: None,
        owner: None,
        project_id: None,
        session_key: None,
        blocked_by: Vec::new(),
    }
}

#[test]
fn create_and_claim_task() {
    let mut store = WorkStore::default();
    let task = store
        .create_task(NewTask {
            list_key: Some(s("default")),
            title: s("Ship it"),
            description: None,
            status: TaskStatus::Pending,
            priority: TaskPriority::High,
            goal_id: None,
            parent_task_id: None,
            owner: None,
            project_id: None,
            session_key: None,
            blocked_by: Vec::new(),
        })
        .expect("create");
    let claimed = store
        .claim_task(&task.id, Some(s("worker")), Some(s("main")))
        .expect("claim")
        .expect("missing claimed task");
    assert_eq!(claimed.status, TaskStatus::InProgress);
    assert_eq!(claimed.session_key.as_deref(), Some("main"));
}

#[test]
fn blocked_task_cannot_be_claimed() {
    let mut store = WorkStore::default();
    let dependency = store.create_task(new_task("dep")).expect("dep");
    let mut blocked = new_task("blocked");
    blocked.blocked_by = vec![dependency.id.clone()];
    let blocked = store.create_task(blocked).expect("blocked");
    let err = match store.claim_task(&blocked.id, None, Some(s("main"))) {
        Ok(_) => panic!("claim should fail"),
        Err(err) => err,
    };
    assert!(err.message().contains("blocked by incomplete tasks"));
}

#[test]
fn budget_enforcement_requires_override_when_hard_limit_exceeded() {
    let mut store = WorkStore::default();
    let mut task = new_task("Watch the burn");
    task.list_key = Some(s("default"));
    task.priority = TaskPriority::High;
    task.project_id = Some(s("proj-1"));
    let task = store.create_task(task).expect("task");
    let budget = store
        .save_budget(NewWorkBudget {
            scope: BudgetScope::Task,
            scope_id: task.id.clone(),
            soft_limit_tokens: Some(50),
            hard_limit_tokens: Some(100),
            soft_limit_usd_bits: None,
            hard_limit_usd_bits: None,
            note: Some(s("keep it tight")),
        })
        .expect("budget");
    assert_eq!(budget.scope, BudgetScope::Task);

    let run = store
        .create_run(NewTaskRun {
            task_id: task.id.clone(),
            runtime_run_id: Some(s("runtime-1")),
            session_key: Some(s("main")),
            agent_id: Some(s("main")),
            provider: Some(s("openai")),
            model: Some(s("gpt-5.4")),
            status: RunStatus::Running,
            summary: Some(s("hello")),
        })
        .expect("run");
    let _ = store
        .record_cost(NewTaskCostAttribution {
            task_id: task.id.clone(),
            task_run_id: Some(run.id.clone()),
            session_key: Some(s("main")),
            runtime_run_id: Some(s("runtime-1")),
            provider: Some(s("openai")),
            model: Some(s("gpt-5.4")),
            input_tokens: 80,
            output_tokens: 30,
            request_input_tokens: Some(80),
            request_output_tokens: Some(30),
            estimated_cost_usd_bits: None,
        })
        .expect("cost");

    let check = store.enforce_task_budget(&task.id, &Vec::new()).expect("check");
    assert!(!check.allowed);
    assert!(check.requires_approval);
    assert!(check.pending_approval_id.is_some());
    assert!(check.scopes.iter().any(|scope| scope.hard_exceeded));
}

#[test]
fn dashboard_includes_running_work_and_recent_costs() {
    let mut store = WorkStore::default();
    let task = store
        .create_task(NewTask {
            list_key: Some(s("default")),
            title: s("Ship dashboard"),
            description: None,
            status: TaskStatus::InProgress,
            priority: TaskPriority::High,
            goal_id: None,
            parent_task_id: None,
            owner: Some(s("worker")),
            project_id: Some(s("proj-2")),
            session_key: Some(s("main")),
            blocked_by: Vec::new(),
        })
        .expect("task");
    let run = store
        .create_run(NewTaskRun {
            task_id: task.id.clone(),
            runtime_run_id: Some(s("runtime-2")),
            session_key: Some(s("main")),
            agent_id: Some(s("main")),
            provider: Some(s("anthropic")),
            model: Some(s("opus-large")),
            status: RunStatus::Running,
            summary: Some(s("doing the thing")),
        })
        .expect("run");
    let _ = store
        .record_cost(NewTaskCostAttribution {
            task_id: task.id.clone(),
            task_run_id: Some(run.id.clone()),
            session_key: Some(s("main")),
            runtime_run_id: Some(s("runtime-2")),
            provider: Some(s("anthropic")),
            model: Some(s("opus-large")),
            input_tokens: 12,
            output_tokens: 6,
            request_input_tokens: Some(12),
            request_output_tokens: Some(6),
            estimated_cost_usd_bits: None,
        })
        .expect("cost");

    let dashboard = store.dashboard(Some("proj-2"), &Vec::new()).expect("dashboard");
    assert_eq!(dashboard.counts.in_progress, 1);
    assert_eq!(dashboard.active_runs.len(), 1);
    assert_eq!(dashboard.recent_costs.len(), 1);
    assert_eq!(dashboard.active_runs[0].runtime_run_id.as_deref(), Some("runtime-2"));
}

#[test]
fn instantiate_template_tree_creates_tasks_and_dependencies() {
    let mut store = WorkStore::default();
    let root = store
        .create_task_template(NewTaskTemplate {
            slug: Some(s("release-checklist")),
            title: s("Release checklist"),
            description: Some(s("Root planning task")),
            priority: TaskPriority::High,
            list_key: Some(s("ops")),
            goal_id: None,
            parent_template_id: None,
            owner: Some(s("ops")),
            project_id: Some(s("proj-template")),
            blocked_by: Vec::new(),
        })
        .expect("root");
    let child_a = store
        .create_task_template(NewTaskTemplate {
            slug: None,
            title: s("Cut release branch"),
            description: None,
            priority: TaskPriority::High,
            list_key: None,
            goal_id: None,
            parent_template_id: Some(root.id.clone()),
            owner: None,
            project_id: None,
            blocked_by: Vec::new(),
        })
        .expect("child a");
    let child_b = store
        .create_task_template(NewTaskTemplate {
            slug: None,
            title: s("Publish release notes"),
            description: None,
            priority: TaskPriority::Medium,
            list_key: None,
            goal_id: None,
            parent_template_id: Some(root.id.clone()),
            owner: None,
            project_id: None,
            blocked_by: vec![child_a.id.clone()],
        })
        .expect("child b");

    assert!(store.check_templates_unique());
    let result = store
        .instantiate_task_template(InstantiateTaskTemplate {
            template_id: root.id.clone(),
            list_key: Some(s("shipping")),
            goal_id: None,
            parent_task_id: None,
            owner: Some(s("release-bot")),
            project_id: Some(s("proj-instantiated")),
        })
        .expect("instantiate");

    assert_eq!(result.template_id, root.id);
    assert_eq!(result.count, 3);
    assert_eq!(result.task_ids.len(), 3);

    let tasks = store.list_tasks(&TaskFilter { project_id: Some(s("proj-instantiated")), ..TaskFilter::default() });
    assert_eq!(tasks.len(), 3);

    let instantiated_root = store.get_task(&result.root_task_id).expect("missing root task");
    assert_eq!(instantiated_root.title, "Release checklist");
    assert_eq!(instantiated_root.owner.as_deref(), Some("release-bot"));
    assert_eq!(instantiated_root.list_key.as_deref(), Some("shipping"));

    let release_notes =
        tasks.iter().find(|task| task.title == "Publish release notes").expect("missing release notes task");
    let release_branch = tasks.iter().find(|task| task.title == "Cut release branch").expect("missing branch task");
    assert_eq!(release_notes.blocked_by, vec![release_branch.id.clone()]);

    let branch_task = store.get_task(&release_branch.id).expect("missing branch task by id");
    assert_eq!(branch_task.parent_task_id.as_deref(), Some(instantiated_root.id.as_str()));

    let _ = child_b;
}

#[test]
fn recurring_tasks_materialize_due_templates() {
    let mut store = WorkStore::default();
    let template = store
        .create_task_template(NewTaskTemplate {
            slug: Some(s("daily-triage")),
            title: s("Daily triage"),
            description: Some(s("Review inbox and open work")),
            priority: TaskPriority::Medium,
            list_key: Some(s("daily")),
            goal_id: None,
            parent_template_id: None,
            owner: Some(s("operator")),
            project_id: Some(s("proj-recurring")),
            blocked_by: Vec::new(),
        })
        .expect("template");
    // The schedule runs every 60000 ms from 0; its next run after creation is
    // worked out by the caller.
    let recurring = store
        .create_recurring_task(
            NewRecurringTask {
                name: s("Daily triage automation"),
                template_id: template.id.clone(),
                schedule_json: s("{\"kind\":\"every\",\"every_ms\":60000,\"anchor_ms\":0}"),
                enabled: true,
                list_key: Some(s("daily")),
                goal_id: None,
                owner: Some(s("operator")),
                project_id: Some(s("proj-recurring")),
            },
            Ok(Some(60_000)),
        )
        .expect("recurring");

    let due = store.due_recurring_tasks(Some(&recurring.id), Some(10), true, 120_000);
    let next_runs: Vec<Result<Option<u64>, String>> = due.iter().map(|_| Ok(Some(180_000))).collect();
    assert!(store.check_templates_unique());
    let result = store
        .materialize_recurring_at(&due, &next_runs, &vec![s("mat-1")], 120_000, s("2026-04-02T10:00:00Z"))
        .expect("materialize");
    assert_eq!(result.count, 1);
    assert_eq!(result.materializations.len(), 1);

    let created_task =
        store.get_task(&result.materializations[0].root_task_id).expect("missing recurring materialized task");
    assert_eq!(created_task.title, "Daily triage");
    assert_eq!(created_task.project_id.as_deref(), Some("proj-recurring"));

    let refreshed = store.get_recurring_task(&recurring.id).expect("missing refreshed recurring task");
    assert_eq!(refreshed.last_materialized_at_ms, Some(120_000));
    assert!(refreshed.next_run_at_ms.is_some());

    let materializations = store.list_recurring_materializations(Some(&recurring.id), 10);
    assert_eq!(materializations.len(), 1);
    assert_eq!(materializations[0].root_task_id, created_task.id);
}

#[test]
fn goal_plan_creates_template_tree_and_optional_instantiation() {
    let mut store = WorkStore::default();
    let goal = store
        .create_goal(NewGoal {
            slug: Some(s("ship-notifications")),
            title: s("Ship notifications"),
            description: Some(s("Deliver the notifications feature.")),
            status: GoalStatus::Active,
            project_id: Some(s("proj-goal")),
            parent_goal_id: None,
        })
        .expect("goal");

    assert!(store.check_templates_unique());
    let result = store
        .plan_goal(GoalPlanRequest {
            goal_id: goal.id.clone(),
            preset: GoalPlanPreset::Delivery,
            list_key: Some(s("delivery")),
            owner: Some(s("planner")),
            project_id: None,
            instantiate: true,
        })
        .expect("plan");

    assert_eq!(result.goal_id, goal.id);
    assert_eq!(result.preset, GoalPlanPreset::Delivery);
    assert_eq!(result.templates.len(), 5);
    assert_eq!(result.root_template.goal_id.as_deref(), Some(goal.id.as_str()));
    assert!(result.instantiated.is_some());

    let tasks = store.list_tasks(&TaskFilter { goal_id: Some(goal.id), ..TaskFilter::default() });
    assert_eq!(tasks.len(), 5);
    assert!(tasks.iter().any(|task| task.title == "Verify Ship notifications"));
}

#[test]
fn portfolio_surfaces_cross_project_dependencies() {
    let mut store = WorkStore::default();
    let upstream = store
        .create_task(NewTask {
            list_key: Some(s("portfolio")),
            title: s("Upstream blocker"),
            description: None,
            status: TaskStatus::InProgress,
            priority: TaskPriority::High,
            goal_id: None,
            parent_task_id: None,
            owner: Some(s("team-a")),
            project_id: Some(s("proj-a")),
            session_key: None,
            blocked_by: Vec::new(),
        })
        .expect("upstream");
    let downstream = store
        .create_task(NewTask {
            list_key: Some(s("portfolio")),
            title: s("Downstream work"),
            description: None,
            status: TaskStatus::Blocked,
            priority: TaskPriority::High,
            goal_id: None,
            parent_task_id: None,
            owner: Some(s("team-b")),
            project_id: Some(s("proj-b")),
            session_key: None,
            blocked_by: vec![upstream.id.clone()],
        })
        .expect("downstream");
    let _approval = store
        .create_approval(NewTaskApproval {
            task_id: Some(downstream.id.clone()),
            kind: s("plan"),
            reason: Some(s("Need sign-off")),
            status: ApprovalStatus::Pending,
        })
        .expect("approval");
    let run = store
        .create_run(NewTaskRun {
            task_id: upstream.id.clone(),
            runtime_run_id: Some(s("run-1")),
            session_key: Some(s("main")),
            agent_id: Some(s("agent-a")),
            provider: None,
            model: None,
            status: RunStatus::Running,
            summary: None,
        })
        .expect("run");
    let _ = run;

    let portfolio = store.portfolio(&Vec::new()).expect("portfolio");
    assert_eq!(portfolio.projects.len(), 2);
    assert_eq!(portfolio.cross_project_dependencies.len(), 1);
    assert_eq!(portfolio.cross_project_dependencies[0].task_title, "Downstream work");
    assert_eq!(portfolio.cross_project_dependencies[0].depends_on_task_title, "Upstream blocker");

    let proj_b = portfolio
        .projects
        .iter()
        .find(|project| project.project_id.as_deref() == Some("proj-b"))
        .expect("missing proj-b summary");
    assert_eq!(proj_b.task_counts.blocked, 1);
    assert_eq!(proj_b.pending_approvals, 1);
}

#[test]
fn tracker_import_creates_and_updates_linked_task() {
    let mut store = WorkStore::default();
    let imported = store
        .import_tracker_task(TrackerImportRequest {
            provider: s("github"),
            remote_id: s("moltis-org/moltis#42"),
            remote_title: s("Fix work dashboard"),
            remote_body: Some(s("Imported issue body")),
            remote_status: s("open"),
            remote_url: Some(s("https://github.com/moltis-org/moltis/issues/42")),
            remote_updated_at: Some(s("2026-04-02T10:00:00Z")),
            task_id: None,
            list_key: Some(s("imports")),
            goal_id: None,
            owner: Some(s("sync-bot")),
            project_id: Some(s("proj-imports")),
        })
        .expect("import");
    assert!(imported.created_task);
    assert_eq!(imported.task.title, "Fix work dashboard");
    assert_eq!(imported.task.status, TaskStatus::Pending);

    let links =
        store.list_external_links(&ExternalTaskLinkFilter { provider: Some(s("github")), ..ExternalTaskLinkFilter::default() });
    assert_eq!(links.len(), 1);
    assert_eq!(links[0].task_id, imported.task.id);

    let refreshed = store
        .import_tracker_task(TrackerImportRequest {
            provider: s("github"),
            remote_id: s("moltis-org/moltis#42"),
            remote_title: s("Fix work dashboard now"),
            remote_body: Some(s("Updated body")),
            remote_status: s("in_progress"),
            remote_url: Some(s("https://github.com/moltis-org/moltis/issues/42")),
            remote_updated_at: Some(s("2026-04-02T11:00:00Z")),
            task_id: None,
            list_key: Some(s("imports")),
            goal_id: None,
            owner: Some(s("sync-bot")),
            project_id: Some(s("proj-imports")),
        })
        .expect("refresh");
    assert!(!refreshed.created_task);
    assert_eq!(refreshed.task.id, imported.task.id);
    assert_eq!(refreshed.task.title, "Fix work dashboard now");
    assert_eq!(refreshed.task.status, TaskStatus::InProgress);
}

#[test]
fn usd_tallies_mark_dollar_limits() {
    let mut store = WorkStore::default();
    let task = store.create_task(new_task("Spend")).expect("task");
    let _ = store
        .save_budget(NewWorkBudget {
            scope: BudgetScope::Task,
            scope_id: task.id.clone(),
            soft_limit_tokens: None,
            hard_limit_tokens: None,
            soft_limit_usd_bits: Some(1.0f64.to_bits()),
            hard_limit_usd_bits: Some(2.0f64.to_bits()),
            note: None,
        })
        .expect("budget");
    let tally = UsdTally { total_bits: 2.5f64.to_bits(), soft_exceeded: true, hard_exceeded: true };
    let statuses = store.budget_statuses_for_task(&task.id, &vec![tally]).expect("statuses");
    assert_eq!(statuses.len(), 1);
    assert!(statuses[0].hard_exceeded);
    assert_eq!(statuses[0].total_tokens, 0);
    assert_eq!(f64::from_bits(statuses[0].estimated_cost_usd_bits), 2.5);
}
