//! Records of the work graph and the requests that create or change them.

use vstd::prelude::*;

use crate::types::{
    ApprovalStatus, BudgetScope, GoalPlanPreset, GoalStatus, RunStatus, TaskPriority, TaskStatus,
};

verus! {

/// A goal that groups tasks.
#[derive(Debug, Clone)]
pub struct Goal {
    pub id: String,
    pub slug: Option<String>,
    pub title: String,
    pub description: Option<String>,
    pub status: GoalStatus,
    pub project_id: Option<String>,
    pub parent_goal_id: Option<String>,
    pub created_at: String,
    pub updated_at: String,
}

/// A task, with the ids of the tasks that block it in id order.
#[derive(Debug, Clone)]
pub struct Task {
    pub id: String,
    pub list_key: Option<String>,
    pub title: String,
    pub description: Option<String>,
    pub status: TaskStatus,
    pub priority: TaskPriority,
    pub goal_id: Option<String>,
    pub parent_task_id: Option<String>,
    pub owner: Option<String>,
    pub project_id: Option<String>,
    pub session_key: Option<String>,
    pub claimed_at: Option<String>,
    pub created_at: String,
    pub updated_at: String,
    pub blocked_by: Vec<String>,
}

/// A comment on a task.
#[derive(Debug, Clone)]
pub struct TaskComment {
    pub id: String,
    pub task_id: String,
    pub author: Option<String>,
    pub body: String,
    pub created_at: String,
}

/// One agent run working on a task.
#[derive(Debug, Clone)]
pub struct TaskRun {
    pub id: String,
    pub task_id: String,
    pub runtime_run_id: Option<String>,
    pub session_key: Option<String>,
    pub agent_id: Option<String>,
    pub provider: Option<String>,
    pub model: Option<String>,
    pub status: RunStatus,
    pub summary: Option<String>,
    pub input_tokens: Option<u32>,
    pub output_tokens: Option<u32>,
    pub request_input_tokens: Option<u32>,
    pub request_output_tokens: Option<u32>,
    pub duration_ms: Option<u64>,
    pub created_at: String,
    pub updated_at: String,
}

/// A request for operator approval.
#[derive(Debug, Clone)]
pub struct TaskApproval {
    pub id: String,
    pub task_id: Option<String>,
    pub kind: String,
    pub status: ApprovalStatus,
    pub reason: Option<String>,
    pub created_at: String,
    pub updated_at: String,
    pub resolved_at: Option<String>,
}

/// Token use attributed to a task.  The estimated cost in dollars is carried as the bit pattern of its IEEE-754 double.
#[derive(Debug, Clone)]
pub struct TaskCostAttribution {
    pub id: String,
    pub task_id: String,
    pub task_run_id: Option<String>,
    pub goal_id: Option<String>,
    pub project_id: Option<String>,
    pub session_key: Option<String>,
    pub runtime_run_id: Option<String>,
    pub provider: Option<String>,
    pub model: Option<String>,
    pub input_tokens: u64,
    pub output_tokens: u64,
    pub request_input_tokens: Option<u64>,
    pub request_output_tokens: Option<u64>,
    pub total_tokens: u64,
    pub estimated_cost_usd_bits: Option<u64>,
    pub created_at: String,
}

/// Token and dollar limits on a task, goal or project.  Dollar limits are carried as the bit patterns of their IEEE-754 doubles.
#[derive(Debug, Clone)]
pub struct WorkBudget {
    pub id: String,
    pub scope: BudgetScope,
    pub scope_id: String,
    pub soft_limit_tokens: Option<u64>,
    pub hard_limit_tokens: Option<u64>,
    pub soft_limit_usd_bits: Option<u64>,
    pub hard_limit_usd_bits: Option<u64>,
    pub note: Option<String>,
    pub created_at: String,
    pub updated_at: String,
}

/// A budget with the use that counts against it.
#[derive(Debug, Clone)]
pub struct BudgetStatus {
    pub budget: WorkBudget,
    pub total_tokens: u64,
    pub estimated_cost_usd_bits: u64,
    pub soft_exceeded: bool,
    pub hard_exceeded: bool,
}

/// The outcome of checking a task against its budgets.
#[derive(Debug, Clone)]
pub struct BudgetCheck {
    pub allowed: bool,
    pub task_id: String,
    pub requires_approval: bool,
    pub pending_approval_id: Option<String>,
    pub scopes: Vec<BudgetStatus>,
}

/// Number of tasks in each status.
#[derive(Debug, Clone, Default)]
pub struct WorkTaskCounts {
    pub pending: usize,
    pub in_progress: usize,
    pub blocked: usize,
    pub completed: usize,
    pub cancelled: usize,
}

/// Tasks by status with approvals, runs, costs and budgets.
#[derive(Debug, Clone)]
pub struct WorkDashboard {
    pub counts: WorkTaskCounts,
    pub pending_tasks: Vec<Task>,
    pub in_progress_tasks: Vec<Task>,
    pub blocked_tasks: Vec<Task>,
    pub completed_tasks: Vec<Task>,
    pub cancelled_tasks: Vec<Task>,
    pub pending_approvals: Vec<TaskApproval>,
    pub active_runs: Vec<TaskRun>,
    pub recent_costs: Vec<TaskCostAttribution>,
    pub budget_statuses: Vec<BudgetStatus>,
}

/// A reusable task blueprint, with the ids of the templates that block it in id order.
#[derive(Debug, Clone)]
pub struct TaskTemplate {
    pub id: String,
    pub slug: Option<String>,
    pub title: String,
    pub description: Option<String>,
    pub priority: TaskPriority,
    pub list_key: Option<String>,
    pub goal_id: Option<String>,
    pub parent_template_id: Option<String>,
    pub owner: Option<String>,
    pub project_id: Option<String>,
    pub created_at: String,
    pub updated_at: String,
    pub blocked_by: Vec<String>,
}

/// Tasks created from a template tree.
#[derive(Debug, Clone)]
pub struct TemplateInstantiationResult {
    pub template_id: String,
    pub root_task_id: String,
    pub task_ids: Vec<String>,
    pub count: usize,
}

/// Templates planned for a goal.
#[derive(Debug, Clone)]
pub struct GoalPlanResult {
    pub goal_id: String,
    pub preset: GoalPlanPreset,
    pub root_template: TaskTemplate,
    pub templates: Vec<TaskTemplate>,
    pub instantiated: Option<TemplateInstantiationResult>,
}

/// Work of one project.
#[derive(Debug, Clone, Default)]
pub struct ProjectWorkSummary {
    pub project_id: Option<String>,
    pub goal_count: usize,
    pub task_counts: WorkTaskCounts,
    pub pending_approvals: usize,
    pub active_runs: usize,
    pub budget_alerts: usize,
}

/// A task blocked by a task of another project.
#[derive(Debug, Clone)]
pub struct CrossProjectDependency {
    pub task_id: String,
    pub task_title: String,
    pub task_project_id: Option<String>,
    pub depends_on_task_id: String,
    pub depends_on_task_title: String,
    pub depends_on_project_id: Option<String>,
}

/// Work of every project.
#[derive(Debug, Clone, Default)]
pub struct WorkPortfolio {
    pub projects: Vec<ProjectWorkSummary>,
    pub cross_project_dependencies: Vec<CrossProjectDependency>,
}

/// A task linked to a record of an outside tracker.
#[derive(Debug, Clone)]
pub struct ExternalTaskLink {
    pub id: String,
    pub task_id: String,
    pub provider: String,
    pub remote_id: String,
    pub remote_title: String,
    pub remote_status: String,
    pub remote_url: Option<String>,
    pub remote_updated_at: Option<String>,
    pub synced_at: String,
    pub created_at: String,
    pub updated_at: String,
}

/// The task and link written by a tracker import.
#[derive(Debug, Clone)]
pub struct TrackerImportResult {
    pub task: Task,
    pub link: ExternalTaskLink,
    pub created_task: bool,
}

/// What a package export wrote.
#[derive(Debug, Clone)]
pub struct WorkPackageExportResult {
    pub root_path: String,
    pub goal_count: usize,
    pub task_count: usize,
    pub budget_count: usize,
}

/// What a package import read.
#[derive(Debug, Clone)]
pub struct WorkPackageImportResult {
    pub root_path: String,
    pub goals_imported: usize,
    pub tasks_imported: usize,
    pub budgets_imported: usize,
}

/// A template instantiated on a schedule.  The schedule is kept as its stored JSON text.
#[derive(Debug, Clone)]
pub struct RecurringTask {
    pub id: String,
    pub name: String,
    pub template_id: String,
    pub schedule_json: String,
    pub enabled: bool,
    pub list_key: Option<String>,
    pub goal_id: Option<String>,
    pub owner: Option<String>,
    pub project_id: Option<String>,
    pub next_run_at_ms: Option<u64>,
    pub last_materialized_at_ms: Option<u64>,
    pub created_at: String,
    pub updated_at: String,
}

/// One instantiation of a recurring task.
#[derive(Debug, Clone)]
pub struct RecurringTaskMaterialization {
    pub id: String,
    pub recurring_task_id: String,
    pub template_id: String,
    pub root_task_id: String,
    pub scheduled_for_ms: u64,
    pub created_at: String,
}

/// Instantiations made by one materialization pass.
#[derive(Debug, Clone)]
pub struct RecurringTaskMaterializeResult {
    pub materializations: Vec<RecurringTaskMaterialization>,
    pub count: usize,
}

/// Which tasks a listing returns; an absent field matches every task.
#[derive(Debug, Clone, Default)]
pub struct TaskFilter {
    pub list_key: Option<String>,
    pub goal_id: Option<String>,
    pub project_id: Option<String>,
    pub session_key: Option<String>,
    pub owner: Option<String>,
    pub status: Option<TaskStatus>,
}

/// Which templates a listing returns.
#[derive(Debug, Clone, Default)]
pub struct TaskTemplateFilter {
    pub goal_id: Option<String>,
    pub project_id: Option<String>,
    pub parent_template_id: Option<String>,
}

/// Which tracker links a listing returns.
#[derive(Debug, Clone, Default)]
pub struct ExternalTaskLinkFilter {
    pub task_id: Option<String>,
    pub provider: Option<String>,
    pub limit: Option<u32>,
}

/// Fields of a goal to create.
#[derive(Debug, Clone)]
pub struct NewGoal {
    pub slug: Option<String>,
    pub title: String,
    pub description: Option<String>,
    pub status: GoalStatus,
    pub project_id: Option<String>,
    pub parent_goal_id: Option<String>,
}

/// A request to plan a goal from a preset.
#[derive(Debug, Clone)]
pub struct GoalPlanRequest {
    pub goal_id: String,
    pub preset: GoalPlanPreset,
    pub list_key: Option<String>,
    pub owner: Option<String>,
    pub project_id: Option<String>,
    pub instantiate: bool,
}

/// A record of an outside tracker to import.
#[derive(Debug, Clone)]
pub struct TrackerImportRequest {
    pub provider: String,
    pub remote_id: String,
    pub remote_title: String,
    pub remote_body: Option<String>,
    pub remote_status: String,
    pub remote_url: Option<String>,
    pub remote_updated_at: Option<String>,
    pub task_id: Option<String>,
    pub list_key: Option<String>,
    pub goal_id: Option<String>,
    pub owner: Option<String>,
    pub project_id: Option<String>,
}

/// Changes to a goal; absent fields keep their value.
#[derive(Debug, Clone)]
pub struct GoalPatch {
    pub slug: Option<String>,
    pub title: Option<String>,
    pub description: Option<String>,
    pub status: Option<GoalStatus>,
    pub project_id: Option<String>,
    pub parent_goal_id: Option<String>,
}

/// Fields of a task to create.
#[derive(Debug, Clone)]
pub struct NewTask {
    pub list_key: Option<String>,
    pub title: String,
    pub description: Option<String>,
    pub status: TaskStatus,
    pub priority: TaskPriority,
    pub goal_id: Option<String>,
    pub parent_task_id: Option<String>,
    pub owner: Option<String>,
    pub project_id: Option<String>,
    pub session_key: Option<String>,
    pub blocked_by: Vec<String>,
}

/// Changes to a task; absent fields keep their value.
#[derive(Debug, Clone, Default)]
pub struct TaskPatch {
    pub list_key: Option<String>,
    pub title: Option<String>,
    pub description: Option<String>,
    pub status: Option<TaskStatus>,
    pub priority: Option<TaskPriority>,
    pub goal_id: Option<String>,
    pub parent_task_id: Option<String>,
    pub owner: Option<String>,
    pub project_id: Option<String>,
    pub session_key: Option<String>,
    pub blocked_by: Option<Vec<String>>,
}

/// Fields of a template to create.
#[derive(Debug, Clone)]
pub struct NewTaskTemplate {
    pub slug: Option<String>,
    pub title: String,
    pub description: Option<String>,
    pub priority: TaskPriority,
    pub list_key: Option<String>,
    pub goal_id: Option<String>,
    pub parent_template_id: Option<String>,
    pub owner: Option<String>,
    pub project_id: Option<String>,
    pub blocked_by: Vec<String>,
}

/// Changes to a template; absent fields keep their value.
#[derive(Debug, Clone, Default)]
pub struct TaskTemplatePatch {
    pub slug: Option<String>,
    pub title: Option<String>,
    pub description: Option<String>,
    pub priority: Option<TaskPriority>,
    pub list_key: Option<String>,
    pub goal_id: Option<String>,
    pub parent_template_id: Option<String>,
    pub owner: Option<String>,
    pub project_id: Option<String>,
    pub blocked_by: Option<Vec<String>>,
}

/// A request to create tasks from a template tree; present fields override the templates'.
#[derive(Debug, Clone)]
pub struct InstantiateTaskTemplate {
    pub template_id: String,
    pub list_key: Option<String>,
    pub goal_id: Option<String>,
    pub parent_task_id: Option<String>,
    pub owner: Option<String>,
    pub project_id: Option<String>,
}

/// A comment to add.
#[derive(Debug, Clone)]
pub struct NewTaskComment {
    pub task_id: String,
    pub author: Option<String>,
    pub body: String,
}

/// A run to record.
#[derive(Debug, Clone)]
pub struct NewTaskRun {
    pub task_id: String,
    pub runtime_run_id: Option<String>,
    pub session_key: Option<String>,
    pub agent_id: Option<String>,
    pub provider: Option<String>,
    pub model: Option<String>,
    pub status: RunStatus,
    pub summary: Option<String>,
}

/// Changes to a run; absent fields keep their value.
#[derive(Debug, Clone, Default)]
pub struct TaskRunPatch {
    pub status: Option<RunStatus>,
    pub summary: Option<String>,
    pub input_tokens: Option<u32>,
    pub output_tokens: Option<u32>,
    pub request_input_tokens: Option<u32>,
    pub request_output_tokens: Option<u32>,
    pub duration_ms: Option<u64>,
}

/// An approval request to create.
#[derive(Debug, Clone)]
pub struct NewTaskApproval {
    pub task_id: Option<String>,
    pub kind: String,
    pub reason: Option<String>,
    pub status: ApprovalStatus,
}

/// A decision on an approval request.
#[derive(Debug, Clone)]
pub struct TaskApprovalPatch {
    pub status: ApprovalStatus,
    pub reason: Option<String>,
}

/// Which cost entries a listing returns.
#[derive(Debug, Clone, Default)]
pub struct TaskCostFilter {
    pub task_id: Option<String>,
    pub goal_id: Option<String>,
    pub project_id: Option<String>,
    pub session_key: Option<String>,
    pub limit: Option<u32>,
}

/// Token use to record against a task.
#[derive(Debug, Clone)]
pub struct NewTaskCostAttribution {
    pub task_id: String,
    pub task_run_id: Option<String>,
    pub session_key: Option<String>,
    pub runtime_run_id: Option<String>,
    pub provider: Option<String>,
    pub model: Option<String>,
    pub input_tokens: u64,
    pub output_tokens: u64,
    pub request_input_tokens: Option<u64>,
    pub request_output_tokens: Option<u64>,
    pub estimated_cost_usd_bits: Option<u64>,
}

/// Limits to save for a scope.
#[derive(Debug, Clone)]
pub struct NewWorkBudget {
    pub scope: BudgetScope,
    pub scope_id: String,
    pub soft_limit_tokens: Option<u64>,
    pub hard_limit_tokens: Option<u64>,
    pub soft_limit_usd_bits: Option<u64>,
    pub hard_limit_usd_bits: Option<u64>,
    pub note: Option<String>,
}

/// A recurring task to create; the schedule is its JSON text.
#[derive(Debug, Clone)]
pub struct NewRecurringTask {
    pub name: String,
    pub template_id: String,
    pub schedule_json: String,
    pub enabled: bool,
    pub list_key: Option<String>,
    pub goal_id: Option<String>,
    pub owner: Option<String>,
    pub project_id: Option<String>,
}

/// Changes to a recurring task; absent fields keep their value.
#[derive(Debug, Clone, Default)]
pub struct RecurringTaskPatch {
    pub name: Option<String>,
    pub template_id: Option<String>,
    pub schedule_json: Option<String>,
    pub enabled: Option<bool>,
    pub list_key: Option<String>,
    pub goal_id: Option<String>,
    pub owner: Option<String>,
    pub project_id: Option<String>,
}

/// Which recurring tasks a listing returns.
#[derive(Debug, Clone, Default)]
pub struct RecurringTaskFilter {
    pub template_id: Option<String>,
    pub goal_id: Option<String>,
    pub project_id: Option<String>,
    pub enabled: Option<bool>,
}

} // verus!
