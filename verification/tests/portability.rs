use moltis_work::error::WorkError;
use moltis_work::portability::{
    goal_file_name, markdown_with_frontmatter, package_description, package_file_name, package_slug, split_frontmatter,
    task_file_name,
};
use moltis_work::records::{NewGoal, NewTask, NewWorkBudget, TaskFilter};
use moltis_work::store::WorkStore;
use moltis_work::types::{BudgetScope, GoalStatus, TaskPriority, TaskStatus};

fn s(v: &str) -> String {
    v.to_string()
}

#[test]
fn exports_and_imports_markdown_package() {
    let mut store = WorkStore::default();
    let goal = store
        .create_goal(NewGoal {
            slug: Some(s("ship-work")),
            title: s("Ship work"),
            description: Some(s("Move durable work into markdown.")),
            status: GoalStatus::Active,
            project_id: Some(s("proj-portable")),
            parent_goal_id: None,
        })
        .expect("goal");
    let task = store
        .create_task(NewTask {
            list_key: Some(s("default")),
            title: s("Export package"),
            description: Some(s("Write markdown files.")),
            status: TaskStatus::Pending,
            priority: TaskPriority::High,
            goal_id: Some(goal.id.clone()),
            parent_task_id: None,
            owner: Some(s("worker")),
            project_id: Some(s("proj-portable")),
            session_key: None,
            blocked_by: Vec::new(),
        })
        .expect("task");
    let _ = store
        .save_budget(NewWorkBudget {
            scope: BudgetScope::Project,
            scope_id: s("proj-portable"),
            soft_limit_tokens: Some(100),
            hard_limit_tokens: Some(200),
            soft_limit_usd_bits: None,
            hard_limit_usd_bits: None,
            note: Some(s("portable")),
        })
        .expect("budget");

    let export = store.package_contents(Some("proj-portable"));
    assert_eq!(export.goals.len(), 1);
    assert_eq!(export.tasks.len(), 1);
    assert_eq!(export.budgets.len(), 1);

    // Frame and split the task file as an export and an import would.
    let exported_task = &export.tasks[0];
    let frontmatter = format!("id: {}\ntitle: {}\n", exported_task.id, exported_task.title);
    let file = markdown_with_frontmatter(&frontmatter, exported_task.description.as_deref());
    let (read_frontmatter, body) = split_frontmatter(&file).expect("split");
    assert_eq!(read_frontmatter, frontmatter.trim());
    assert_eq!(body, "Write markdown files.");

    let mut imported_store = WorkStore::default();
    let g = &export.goals[0];
    let _ = imported_store.import_goal_record_at(
        g.id.clone(),
        g.slug.clone(),
        g.title.clone(),
        g.description.clone(),
        g.status,
        g.project_id.clone(),
        g.parent_goal_id.clone(),
        s("2026-04-02T10:00:00Z"),
    );
    let t = exported_task;
    let _ = imported_store.import_task_record_at(
        t.id.clone(),
        t.list_key.clone(),
        t.title.clone(),
        package_description(body),
        t.status,
        t.priority,
        t.goal_id.clone(),
        t.parent_task_id.clone(),
        t.owner.clone(),
        t.project_id.clone(),
        t.blocked_by.clone(),
        s("2026-04-02T10:00:00Z"),
    );
    for b in &export.budgets {
        let _ = imported_store
            .save_budget(NewWorkBudget {
                scope: b.scope,
                scope_id: b.scope_id.clone(),
                soft_limit_tokens: b.soft_limit_tokens,
                hard_limit_tokens: b.hard_limit_tokens,
                soft_limit_usd_bits: b.soft_limit_usd_bits,
                hard_limit_usd_bits: b.hard_limit_usd_bits,
                note: b.note.clone(),
            })
            .expect("budget import");
    }

    let imported_tasks =
        imported_store.list_tasks(&TaskFilter { project_id: Some(s("proj-portable")), ..TaskFilter::default() });
    assert_eq!(imported_tasks.len(), 1);
    assert_eq!(imported_tasks[0].id, task.id);
    assert_eq!(imported_tasks[0].goal_id.as_deref(), Some(goal.id.as_str()));
    assert_eq!(imported_tasks[0].description.as_deref(), Some("Write markdown files."));

    let budgets = imported_store.list_budgets(Some(BudgetScope::Project), Some("proj-portable"));
    assert_eq!(budgets.len(), 1);
    assert_eq!(budgets[0].soft_limit_tokens, Some(100));
}

#[test]
fn split_frontmatter_refuses_files_without_delimiters() {
    assert!(matches!(split_frontmatter("title: x\n"), Err(WorkError::MissingFrontmatter)));
    assert!(matches!(split_frontmatter("---\ntitle: x\n"), Err(WorkError::MissingFrontmatterEnd)));
    let (fm, body) = split_frontmatter("  \n---\n a: 1 \n---\n\n body text \n").expect("split");
    assert_eq!(fm, "a: 1");
    assert_eq!(body, "body text");
    let (fm, body) = split_frontmatter("---\n\n---\n").expect("empty frontmatter");
    assert_eq!(fm, "");
    assert_eq!(body, "");
}

#[test]
fn markdown_frames_frontmatter_and_trimmed_body() {
    assert_eq!(markdown_with_frontmatter("a: 1\n", None), "---\na: 1\n---\n");
    assert_eq!(markdown_with_frontmatter("a: 1\n", Some("   ")), "---\na: 1\n---\n");
    assert_eq!(markdown_with_frontmatter("a: 1\n", Some(" Body \n")), "---\na: 1\n---\n\nBody\n");
}

#[test]
fn frontmatter_round_trips_through_a_file() {
    let fm = "id: t-1\ntitle: Export package\n";
    let file = markdown_with_frontmatter(fm, Some("Write markdown files."));
    let (read_fm, body) = split_frontmatter(&file).expect("split");
    assert_eq!(read_fm, fm.trim());
    assert_eq!(body, "Write markdown files.");
}

#[test]
fn package_slugs_and_file_names() {
    assert_eq!(package_slug("Ship Work!"), "ship-work");
    assert_eq!(package_slug("--Hello--World--"), "hello--world");
    assert_eq!(package_slug("!!!"), "item");
    assert_eq!(package_slug("Ünïcode 42"), "n-code-42");
    assert_eq!(package_file_name("Export package", "0123456789abcdef"), "export-package-01234567.md");
    assert_eq!(package_file_name("x", "abc"), "x-abc.md");
    assert_eq!(package_file_name("x", "éééé-id"), "x-éééé.md");
}

#[test]
fn goal_and_task_file_names_use_slug_or_title() {
    let mut store = WorkStore::default();
    let goal = store
        .create_goal_at(
            NewGoal {
                slug: Some(s("ship-work")),
                title: s("Ship work"),
                description: None,
                status: GoalStatus::Active,
                project_id: None,
                parent_goal_id: None,
            },
            s("goal-1234567890"),
            s("2026-04-02T10:00:00Z"),
        )
        .expect("goal");
    assert_eq!(goal_file_name(&goal), "ship-work-goal-123.md");
    let task = store
        .create_task_at(
            NewTask {
                list_key: None,
                title: s("Write Docs"),
                description: None,
                status: TaskStatus::Pending,
                priority: TaskPriority::Low,
                goal_id: None,
                parent_task_id: None,
                owner: None,
                project_id: None,
                session_key: None,
                blocked_by: Vec::new(),
            },
            s("t1"),
            s("2026-04-02T10:00:00Z"),
        )
        .expect("task");
    assert_eq!(task_file_name(&task), "write-docs-t1.md");
    assert_eq!(package_description(String::new()), None);
    assert_eq!(package_description(s("x")), Some(s("x")));
}

#[test]
fn reimport_keeps_claim_and_creation_time() {
    let mut store = WorkStore::default();
    let task = store
        .create_task_at(
            NewTask {
                list_key: None,
                title: s("Claimed"),
                description: None,
                status: TaskStatus::Pending,
                priority: TaskPriority::Low,
                goal_id: None,
                parent_task_id: None,
                owner: None,
                project_id: None,
                session_key: Some(s("main")),
                blocked_by: Vec::new(),
            },
            s("t1"),
            s("2026-04-01T00:00:00Z"),
        )
        .expect("task");
    let again = store.import_task_record_at(
        task.id.clone(),
        None,
        s("Claimed again"),
        None,
        TaskStatus::InProgress,
        TaskPriority::High,
        None,
        None,
        None,
        None,
        vec![s("t0")],
        s("2026-04-02T00:00:00Z"),
    );
    assert_eq!(again.title, "Claimed again");
    assert_eq!(again.session_key.as_deref(), Some("main"));
    assert_eq!(again.claimed_at.as_deref(), Some("2026-04-01T00:00:00Z"));
    assert_eq!(again.created_at, "2026-04-01T00:00:00Z");
    assert_eq!(again.updated_at, "2026-04-02T00:00:00Z");
    assert_eq!(again.blocked_by, vec![s("t0")]);
    assert_eq!(store.tasks.len(), 1);
}
