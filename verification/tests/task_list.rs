use moltis_work::error::WorkError;
use moltis_work::store::WorkStore;
use moltis_work::task_list::{
    claim_owner, create_task_request, create_template_request, list_task_filter, parse_goal_plan_preset,
    parse_task_priority, parse_task_status, update_task_patch, update_template_patch, TaskListParams,
};
use moltis_work::types::{GoalPlanPreset, TaskPriority, TaskStatus};
use moltis_work::task_list::{
    comment_request, goal_plan_request, instantiate_request, materialize_request, recurring_create_request, recurring_filter,
    recurring_patch, template_filter, tracker_import_request, tracker_link_filter, TaskListAction,
};

fn s(v: &str) -> String {
    v.to_string()
}

#[test]
fn create_and_list_tasks() {
    let mut store = WorkStore::default();
    let request = create_task_request(TaskListParams {
        subject: Some(s("first")),
        description: Some(s("desc")),
        ..TaskListParams::default()
    })
    .expect("request");
    assert_eq!(request.list_key.as_deref(), Some("default"));
    assert_eq!(request.status, TaskStatus::Pending);
    assert_eq!(request.priority, TaskPriority::Medium);
    let _ = store.create_task(request).expect("create");
    let filter = list_task_filter(TaskListParams::default()).expect("filter");
    let tasks = store.list_tasks(&filter);
    assert_eq!(tasks.len(), 1);
    assert_eq!(tasks[0].title, "first");
    assert_eq!(tasks[0].status.as_str(), "pending");
}

#[test]
fn claim_moves_task_to_in_progress_and_binds_session() {
    let mut store = WorkStore::default();
    let task = store
        .create_task(create_task_request(TaskListParams { subject: Some(s("work")), ..TaskListParams::default() }).expect("req"))
        .expect("create");
    let session = Some(s("main"));
    let owner = claim_owner(Some(s("worker-a")), &session);
    let claimed = store.claim_task(&task.id, Some(owner), session).expect("claim").expect("task");
    assert_eq!(claimed.status.as_str(), "in_progress");
    assert_eq!(claimed.session_key.as_deref(), Some("main"));
    assert_eq!(claimed.owner.as_deref(), Some("worker-a"));
}

#[test]
fn claim_rejects_when_blocked_dependencies_incomplete() {
    let mut store = WorkStore::default();
    let dep = store
        .create_task(create_task_request(TaskListParams { subject: Some(s("dep")), ..TaskListParams::default() }).expect("req"))
        .expect("dep");
    let main = store
        .create_task(create_task_request(TaskListParams { subject: Some(s("main")), ..TaskListParams::default() }).expect("req"))
        .expect("main");
    let patch = update_task_patch(TaskListParams { blocked_by: Some(vec![dep.id.clone()]), ..TaskListParams::default() })
        .expect("patch");
    let _ = store.update_task(&main.id, patch).expect("update");
    let session = Some(s("main"));
    let owner = claim_owner(None, &session);
    let err = store.claim_task(&main.id, Some(owner), session).expect_err("expected blocked claim failure");
    assert!(err.message().contains("blocked by incomplete tasks"));
}

#[test]
fn requests_parse_names_and_apply_defaults() {
    assert_eq!(parse_task_status(&None).expect("none"), None);
    assert_eq!(parse_task_status(&Some(s("blocked"))).expect("blocked"), Some(TaskStatus::Blocked));
    let err = parse_task_status(&Some(s("done"))).expect_err("unknown");
    assert_eq!(err.message(), "unknown task status: done");
    assert_eq!(parse_task_priority(&Some(s("critical"))).expect("critical"), Some(TaskPriority::Critical));
    assert!(parse_task_priority(&Some(s("urgent"))).is_err());
    assert_eq!(parse_goal_plan_preset(None).expect("default"), GoalPlanPreset::Delivery);
    assert_eq!(parse_goal_plan_preset(Some("maintenance")).expect("maintenance"), GoalPlanPreset::Maintenance);
    assert!(parse_goal_plan_preset(Some("other")).is_err());

    let missing = create_task_request(TaskListParams::default()).expect_err("no subject");
    assert!(matches!(&missing, WorkError::MissingParameter { name } if name == "subject"));
    assert_eq!(missing.message(), "missing required parameter: subject");

    assert_eq!(claim_owner(None, &None), "agent");
    assert_eq!(claim_owner(None, &Some(s("sess"))), "sess");

    let patch = update_task_patch(TaskListParams { list_id: None, subject: Some(s("t")), ..TaskListParams::default() })
        .expect("patch");
    assert_eq!(patch.list_key, None);
    assert_eq!(patch.title.as_deref(), Some("t"));

    let template = create_template_request(TaskListParams {
        subject: Some(s("Ship release")),
        priority: Some(s("high")),
        slug: Some(s("ship-release")),
        ..TaskListParams::default()
    })
    .expect("template");
    assert_eq!(template.priority, TaskPriority::High);
    assert_eq!(template.list_key, None);
    let tpatch = update_template_patch(TaskListParams { priority: Some(s("critical")), ..TaskListParams::default() })
        .expect("template patch");
    assert_eq!(tpatch.priority, Some(TaskPriority::Critical));
}

#[test]
fn actions_are_read_by_name() {
    assert_eq!(TaskListAction::parse("goal_plan").expect("action"), TaskListAction::GoalPlan);
    assert_eq!(TaskListAction::parse("recurring_materialize").expect("action"), TaskListAction::RecurringMaterialize);
    let err = TaskListAction::parse("nope").expect_err("unknown");
    assert_eq!(err.message(), "unknown task_list action: nope");
}

#[test]
fn goal_plan_and_instantiate_requests_take_id_first() {
    let missing = goal_plan_request(TaskListParams::default()).expect_err("missing");
    assert_eq!(missing.message(), "missing required parameter: goal_id");
    let plan = goal_plan_request(TaskListParams {
        id: Some(s("g-id")),
        goal_id: Some(s("g-other")),
        preset: Some(s("maintenance")),
        list_id: Some(s("stability")),
        instantiate: Some(true),
        ..TaskListParams::default()
    })
    .expect("plan");
    assert_eq!(plan.goal_id, "g-id");
    assert_eq!(plan.preset, GoalPlanPreset::Maintenance);
    assert_eq!(plan.list_key.as_deref(), Some("stability"));
    assert!(plan.instantiate);
    let default_plan = goal_plan_request(TaskListParams { goal_id: Some(s("g")), ..TaskListParams::default() }).expect("plan");
    assert_eq!(default_plan.preset, GoalPlanPreset::Delivery);
    assert!(!default_plan.instantiate);
    assert!(goal_plan_request(TaskListParams { goal_id: Some(s("g")), preset: Some(s("bogus")), ..TaskListParams::default() }).is_err());
    let inst = instantiate_request(TaskListParams { template_id: Some(s("t")), owner: Some(s("o")), ..TaskListParams::default() })
        .expect("instantiate");
    assert_eq!(inst.template_id, "t");
    assert_eq!(inst.owner.as_deref(), Some("o"));
    assert_eq!(instantiate_request(TaskListParams::default()).expect_err("missing").message(), "missing required parameter: template_id");
}

#[test]
fn tracker_requests_check_required_fields_in_order() {
    let base = TaskListParams {
        provider: Some(s("github")),
        remote_id: Some(s("org/repo#77")),
        remote_title: Some(s("Sync imported issue")),
        remote_status: Some(s("in_progress")),
        remote_url: Some(s("https://example.com/77")),
        list_id: Some(s("imports")),
        ..TaskListParams::default()
    };
    let request = tracker_import_request(base.clone()).expect("request");
    assert_eq!(request.remote_title, "Sync imported issue");
    assert_eq!(request.list_key.as_deref(), Some("imports"));
    assert!(request.task_id.is_none());
    let no_provider = tracker_import_request(TaskListParams { provider: None, ..base.clone() }).expect_err("provider");
    assert_eq!(no_provider.message(), "missing required parameter: provider");
    let no_title = tracker_import_request(TaskListParams { remote_title: None, remote_status: None, ..base.clone() }).expect_err("title");
    assert_eq!(no_title.message(), "missing required parameter: remote_title");
    let filter = tracker_link_filter(TaskListParams { task_id: Some(s("t1")), provider: Some(s("github")), limit: Some(3), ..TaskListParams::default() });
    assert_eq!(filter.task_id.as_deref(), Some("t1"));
    assert_eq!(filter.limit, Some(3));
}

#[test]
fn recurring_requests_take_defaults() {
    let create = recurring_create_request(TaskListParams {
        name: Some(s("Weekly")),
        template_id: Some(s("tpl")),
        schedule_json: Some(s("{\"kind\":\"every\"}")),
        ..TaskListParams::default()
    })
    .expect("create");
    assert!(create.enabled);
    assert_eq!(create.template_id, "tpl");
    let no_schedule = recurring_create_request(TaskListParams { name: Some(s("Weekly")), template_id: Some(s("tpl")), ..TaskListParams::default() })
        .expect_err("schedule");
    assert_eq!(no_schedule.message(), "missing required parameter: schedule");
    let no_name = recurring_create_request(TaskListParams::default()).expect_err("name");
    assert_eq!(no_name.message(), "missing required parameter: name");
    let materialize = materialize_request(TaskListParams { recurring_id: Some(s("rec")), now_ms: Some(120_000), ..TaskListParams::default() });
    assert_eq!(materialize.recurring_id.as_deref(), Some("rec"));
    assert!(!materialize.force);
    assert_eq!(materialize.now_ms, Some(120_000));
    let patch = recurring_patch(TaskListParams { enabled: Some(false), ..TaskListParams::default() });
    assert_eq!(patch.enabled, Some(false));
    let filter = recurring_filter(TaskListParams { goal_id: Some(s("g")), ..TaskListParams::default() });
    assert_eq!(filter.goal_id.as_deref(), Some("g"));
    let templates = template_filter(TaskListParams { parent_template_id: Some(s("p")), ..TaskListParams::default() });
    assert_eq!(templates.parent_template_id.as_deref(), Some("p"));
    let comment = comment_request(TaskListParams { id: Some(s("t1")), body: Some(s("hi")), ..TaskListParams::default() }).expect("comment");
    assert_eq!(comment.task_id, "t1");
    assert_eq!(comment_request(TaskListParams { id: Some(s("t1")), ..TaskListParams::default() }).expect_err("body").message(), "missing required parameter: body");
}
