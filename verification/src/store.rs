//! The work graph's tables and the operations on them.
//!
//! Each table is a vector of rows in insertion order.  Ids are looked up by
//! their first occurrence; the operations that add rows refuse an id that a
//! table already holds, so every id occurs once.

use vstd::prelude::*;

use crate::error::WorkError;
use crate::records::{
    ExternalTaskLink, Goal, RecurringTask, RecurringTaskMaterialization, Task, TaskApproval,
    TaskComment, TaskCostAttribution, TaskRun, TaskTemplate, WorkBudget,
};
use crate::error::RecordKind;
use crate::order::{
    by_text, is_ordering, is_sorted_order, key_view, keys_view, recency_key, recency_key_of, sort_order,
    sort_strings, KeyPart, KeyView,
};
use crate::records::{NewTask, TaskFilter, TaskPatch};
use crate::text::{
    opt_filter_match, opt_filter_matches,
    clone_opt, clone_strings, first_index, lemma_first_index, lemma_first_index_facts, or_else_keep, texts,
};
use crate::types::{GoalStatus, TaskPriority, TaskStatus};

verus! {

/// A stored task without its dependencies.
#[derive(Debug, Clone)]
pub struct TaskRow {
    pub id: String,
    pub list_key: Option<String>,
    pub title: String,
    pub description: Option<String>,
    pub status: TaskStatus,
    pub priority: TaskPriority,
    pub goal_id: Option<String>,
    pub parent_task_id: Option<String>,
    pub owner: Option<String>,
    pub project_id: Option<String>,
    pub session_key: Option<String>,
    pub claimed_at: Option<String>,
    pub created_at: String,
    pub updated_at: String,
}

/// A stored template without its dependencies.
#[derive(Debug, Clone)]
pub struct TemplateRow {
    pub id: String,
    pub slug: Option<String>,
    pub title: String,
    pub description: Option<String>,
    pub priority: TaskPriority,
    pub list_key: Option<String>,
    pub goal_id: Option<String>,
    pub parent_template_id: Option<String>,
    pub owner: Option<String>,
    pub project_id: Option<String>,
    pub created_at: String,
    pub updated_at: String,
}

/// `from_id` is blocked by `to_id`.
#[derive(Debug, Clone)]
pub struct Dependency {
    pub from_id: String,
    pub to_id: String,
}

/// The tables of the work graph.
#[derive(Debug, Clone, Default)]
pub struct WorkStore {
    pub goals: Vec<Goal>,
    pub tasks: Vec<TaskRow>,
    pub task_dependencies: Vec<Dependency>,
    pub templates: Vec<TemplateRow>,
    pub template_dependencies: Vec<Dependency>,
    pub comments: Vec<TaskComment>,
    pub links: Vec<ExternalTaskLink>,
    pub runs: Vec<TaskRun>,
    pub approvals: Vec<TaskApproval>,
    pub costs: Vec<TaskCostAttribution>,
    pub budgets: Vec<WorkBudget>,
    pub recurring: Vec<RecurringTask>,
    pub materializations: Vec<RecurringTaskMaterialization>,
}

impl TaskRow {
    /// An exact copy.
    pub fn copy(&self) -> (r: Self)
        ensures
            r == *self,
    {
        TaskRow {
            id: self.id.clone(),
            list_key: clone_opt(&self.list_key),
            title: self.title.clone(),
            description: clone_opt(&self.description),
            status: self.status,
            priority: self.priority,
            goal_id: clone_opt(&self.goal_id),
            parent_task_id: clone_opt(&self.parent_task_id),
            owner: clone_opt(&self.owner),
            project_id: clone_opt(&self.project_id),
            session_key: clone_opt(&self.session_key),
            claimed_at: clone_opt(&self.claimed_at),
            created_at: self.created_at.clone(),
            updated_at: self.updated_at.clone(),
        }
    }
}

impl TemplateRow {
    /// An exact copy.
    pub fn copy(&self) -> (r: Self)
        ensures
            r == *self,
    {
        TemplateRow {
            id: self.id.clone(),
            slug: clone_opt(&self.slug),
            title: self.title.clone(),
            description: clone_opt(&self.description),
            priority: self.priority,
            list_key: clone_opt(&self.list_key),
            goal_id: clone_opt(&self.goal_id),
            parent_template_id: clone_opt(&self.parent_template_id),
            owner: clone_opt(&self.owner),
            project_id: clone_opt(&self.project_id),
            created_at: self.created_at.clone(),
            updated_at: self.updated_at.clone(),
        }
    }
}

impl Dependency {
    /// An exact copy.
    pub fn copy(&self) -> (r: Self)
        ensures
            r == *self,
    {
        Dependency {
            from_id: self.from_id.clone(),
            to_id: self.to_id.clone(),
        }
    }
}

impl Goal {
    /// An exact copy.
    pub fn copy(&self) -> (r: Self)
        ensures
            r == *self,
    {
        Goal {
            id: self.id.clone(),
            slug: clone_opt(&self.slug),
            title: self.title.clone(),
            description: clone_opt(&self.description),
            status: self.status,
            project_id: clone_opt(&self.project_id),
            parent_goal_id: clone_opt(&self.parent_goal_id),
            created_at: self.created_at.clone(),
            updated_at: self.updated_at.clone(),
        }
    }
}

impl TaskComment {
    /// An exact copy.
    pub fn copy(&self) -> (r: Self)
        ensures
            r == *self,
    {
        TaskComment {
            id: self.id.clone(),
            task_id: self.task_id.clone(),
            author: clone_opt(&self.author),
            body: self.body.clone(),
            created_at: self.created_at.clone(),
        }
    }
}

impl TaskRun {
    /// An exact copy.
    pub fn copy(&self) -> (r: Self)
        ensures
            r == *self,
    {
        TaskRun {
            id: self.id.clone(),
            task_id: self.task_id.clone(),
            runtime_run_id: clone_opt(&self.runtime_run_id),
            session_key: clone_opt(&self.session_key),
            agent_id: clone_opt(&self.agent_id),
            provider: clone_opt(&self.provider),
            model: clone_opt(&self.model),
            status: self.status,
            summary: clone_opt(&self.summary),
            input_tokens: self.input_tokens,
            output_tokens: self.output_tokens,
            request_input_tokens: self.request_input_tokens,
            request_output_tokens: self.request_output_tokens,
            duration_ms: self.duration_ms,
            created_at: self.created_at.clone(),
            updated_at: self.updated_at.clone(),
        }
    }
}

impl TaskApproval {
    /// An exact copy.
    pub fn copy(&self) -> (r: Self)
        ensures
            r == *self,
    {
        TaskApproval {
            id: self.id.clone(),
            task_id: clone_opt(&self.task_id),
            kind: self.kind.clone(),
            status: self.status,
            reason: clone_opt(&self.reason),
            created_at: self.created_at.clone(),
            updated_at: self.updated_at.clone(),
            resolved_at: clone_opt(&self.resolved_at),
        }
    }
}

impl TaskCostAttribution {
    /// An exact copy.
    pub fn copy(&self) -> (r: Self)
        ensures
            r == *self,
    {
        TaskCostAttribution {
            id: self.id.clone(),
            task_id: self.task_id.clone(),
            task_run_id: clone_opt(&self.task_run_id),
            goal_id: clone_opt(&self.goal_id),
            project_id: clone_opt(&self.project_id),
            session_key: clone_opt(&self.session_key),
            runtime_run_id: clone_opt(&self.runtime_run_id),
            provider: clone_opt(&self.provider),
            model: clone_opt(&self.model),
            input_tokens: self.input_tokens,
            output_tokens: self.output_tokens,
            request_input_tokens: self.request_input_tokens,
            request_output_tokens: self.request_output_tokens,
            total_tokens: self.total_tokens,
            estimated_cost_usd_bits: self.estimated_cost_usd_bits,
            created_at: self.created_at.clone(),
        }
    }
}

impl WorkBudget {
    /// An exact copy.
    pub fn copy(&self) -> (r: Self)
        ensures
            r == *self,
    {
        WorkBudget {
            id: self.id.clone(),
            scope: self.scope,
            scope_id: self.scope_id.clone(),
            soft_limit_tokens: self.soft_limit_tokens,
            hard_limit_tokens: self.hard_limit_tokens,
            soft_limit_usd_bits: self.soft_limit_usd_bits,
            hard_limit_usd_bits: self.hard_limit_usd_bits,
            note: clone_opt(&self.note),
            created_at: self.created_at.clone(),
            updated_at: self.updated_at.clone(),
        }
    }
}

impl ExternalTaskLink {
    /// An exact copy.
    pub fn copy(&self) -> (r: Self)
        ensures
            r == *self,
    {
        ExternalTaskLink {
            id: self.id.clone(),
            task_id: self.task_id.clone(),
            provider: self.provider.clone(),
            remote_id: self.remote_id.clone(),
            remote_title: self.remote_title.clone(),
            remote_status: self.remote_status.clone(),
            remote_url: clone_opt(&self.remote_url),
            remote_updated_at: clone_opt(&self.remote_updated_at),
            synced_at: self.synced_at.clone(),
            created_at: self.created_at.clone(),
            updated_at: self.updated_at.clone(),
        }
    }
}

impl RecurringTask {
    /// An exact copy.
    pub fn copy(&self) -> (r: Self)
        ensures
            r == *self,
    {
        RecurringTask {
            id: self.id.clone(),
            name: self.name.clone(),
            template_id: self.template_id.clone(),
            schedule_json: self.schedule_json.clone(),
            enabled: self.enabled,
            list_key: clone_opt(&self.list_key),
            goal_id: clone_opt(&self.goal_id),
            owner: clone_opt(&self.owner),
            project_id: clone_opt(&self.project_id),
            next_run_at_ms: self.next_run_at_ms,
            last_materialized_at_ms: self.last_materialized_at_ms,
            created_at: self.created_at.clone(),
            updated_at: self.updated_at.clone(),
        }
    }
}

impl RecurringTaskMaterialization {
    /// An exact copy.
    pub fn copy(&self) -> (r: Self)
        ensures
            r == *self,
    {
        RecurringTaskMaterialization {
            id: self.id.clone(),
            recurring_task_id: self.recurring_task_id.clone(),
            template_id: self.template_id.clone(),
            root_task_id: self.root_task_id.clone(),
            scheduled_for_ms: self.scheduled_for_ms,
            created_at: self.created_at.clone(),
        }
    }
}

impl Task {
    /// A copy with the same fields and dependencies.
    pub fn copy(&self) -> (r: Self)
        ensures
            r.row() == self.row(),
            r.blocked_by@ == self.blocked_by@,
    {
        Task {
            id: self.id.clone(),
            list_key: clone_opt(&self.list_key),
            title: self.title.clone(),
            description: clone_opt(&self.description),
            status: self.status,
            priority: self.priority,
            goal_id: clone_opt(&self.goal_id),
            parent_task_id: clone_opt(&self.parent_task_id),
            owner: clone_opt(&self.owner),
            project_id: clone_opt(&self.project_id),
            session_key: clone_opt(&self.session_key),
            claimed_at: clone_opt(&self.claimed_at),
            created_at: self.created_at.clone(),
            updated_at: self.updated_at.clone(),
            blocked_by: clone_strings(&self.blocked_by),
        }
    }

    /// The stored row of the task.
    pub open spec fn row(self) -> TaskRow {
        TaskRow {
            id: self.id,
            list_key: self.list_key,
            title: self.title,
            description: self.description,
            status: self.status,
            priority: self.priority,
            goal_id: self.goal_id,
            parent_task_id: self.parent_task_id,
            owner: self.owner,
            project_id: self.project_id,
            session_key: self.session_key,
            claimed_at: self.claimed_at,
            created_at: self.created_at,
            updated_at: self.updated_at,
        }
    }
}

impl TaskTemplate {
    /// The stored row of this template.
    pub open spec fn row(self) -> TemplateRow {
        TemplateRow {
            id: self.id,
            slug: self.slug,
            title: self.title,
            description: self.description,
            priority: self.priority,
            list_key: self.list_key,
            goal_id: self.goal_id,
            parent_template_id: self.parent_template_id,
            owner: self.owner,
            project_id: self.project_id,
            created_at: self.created_at,
            updated_at: self.updated_at,
        }
    }
}

pub(crate) fn task_from_row(row: TaskRow, blocked_by: Vec<String>) -> (t: Task)
    ensures
        t.row() == row,
        t.blocked_by == blocked_by,
{
    Task {
        id: row.id,
        list_key: row.list_key,
        title: row.title,
        description: row.description,
        status: row.status,
        priority: row.priority,
        goal_id: row.goal_id,
        parent_task_id: row.parent_task_id,
        owner: row.owner,
        project_id: row.project_id,
        session_key: row.session_key,
        claimed_at: row.claimed_at,
        created_at: row.created_at,
        updated_at: row.updated_at,
        blocked_by,
    }
}

/// The ids of task rows.
pub open spec fn task_ids(rows: Seq<TaskRow>) -> Seq<Seq<char>> {
    rows.map_values(|r: TaskRow| r.id@)
}

/// Dependency rows of one task.
pub open spec fn dep_from(id: Seq<char>) -> spec_fn(Dependency) -> bool {
    |d: Dependency| d.from_id@ == id
}

/// Dependency rows of every other task.
pub open spec fn dep_not_from(id: Seq<char>) -> spec_fn(Dependency) -> bool {
    |d: Dependency| d.from_id@ != id
}

/// The ids that `id` depends on, in table order.
pub open spec fn dep_targets(deps: Seq<Dependency>, id: Seq<char>) -> Seq<Seq<char>> {
    deps.filter(dep_from(id)).map_values(|d: Dependency| d.to_id@)
}

/// Dependency rows from `from` to each of `to`.
pub open spec fn dep_rows(from: String, to: Seq<String>) -> Seq<Dependency> {
    to.map_values(|t: String| Dependency { from_id: from, to_id: t })
}

/// The dependency table after the dependencies of `from` are replaced by `to`.
pub open spec fn deps_replaced(deps: Seq<Dependency>, from: String, to: Seq<String>) -> Seq<Dependency> {
    deps.filter(dep_not_from(from@)) + dep_rows(from, to)
}

/// `t` is the stored `row` with the dependencies `deps` listed in id order.
pub open spec fn task_assembled(t: Task, row: TaskRow, deps: Seq<Seq<char>>) -> bool {
    t.row() == row && is_ordering(texts(t.blocked_by@), deps, by_text(deps), false)
}

pub proof fn lemma_filter_step<A>(s: Seq<A>, p: spec_fn(A) -> bool, i: int)
    requires
        0 <= i < s.len(),
    ensures
        s.take(i + 1).filter(p) == (if p(s[i]) {
            s.take(i).filter(p).push(s[i])
        } else {
            s.take(i).filter(p)
        }),
{
    reveal(Seq::filter);
    assert(s.take(i + 1).drop_last() =~= s.take(i));
}

/// Every item a filter keeps comes from the filtered sequence.
pub proof fn lemma_filter_subset<A>(s: Seq<A>, p: spec_fn(A) -> bool)
    ensures
        forall|i: int| 0 <= i < s.filter(p).len() ==> s.contains(#[trigger] s.filter(p)[i]),
    decreases s.len(),
{
    reveal(Seq::filter);
    if s.len() > 0 {
        lemma_filter_subset(s.drop_last(), p);
        let sub = s.drop_last().filter(p);
        assert forall|i: int| 0 <= i < s.filter(p).len() implies s.contains(#[trigger] s.filter(p)[i]) by {
            if i < sub.len() {
                assert(s.filter(p)[i] == sub[i]);
                assert(s.drop_last().contains(sub[i]));
                let w = choose|w: int| 0 <= w < s.drop_last().len() && s.drop_last()[w] == sub[i];
                assert(s[w] == sub[i]);
            } else {
                assert(s.filter(p)[i] == s.last());
                assert(s[s.len() - 1] == s.last());
            }
        }
    }
}

pub proof fn lemma_filter_all<A>(s: Seq<A>, p: spec_fn(A) -> bool)
    requires
        forall|i: int| 0 <= i < s.len() ==> p(#[trigger] s[i]),
    ensures
        s.filter(p) == s,
    decreases s.len(),
{
    reveal(Seq::filter);
    if s.len() > 0 {
        lemma_filter_all(s.drop_last(), p);
        assert(s.drop_last().push(s.last()) =~= s);
    }
}

pub proof fn lemma_filter_none<A>(s: Seq<A>, p: spec_fn(A) -> bool)
    requires
        forall|i: int| 0 <= i < s.len() ==> !p(#[trigger] s[i]),
    ensures
        s.filter(p) == Seq::<A>::empty(),
    decreases s.len(),
{
    reveal(Seq::filter);
    if s.len() > 0 {
        lemma_filter_none(s.drop_last(), p);
    }
}

/// After replacing the dependencies of `from`, `from` depends on exactly
/// `to`, and every other task keeps its dependencies.
pub proof fn lemma_deps_replaced(deps: Seq<Dependency>, from: String, to: Seq<String>, id: Seq<char>)
    ensures
        dep_targets(deps_replaced(deps, from, to), id) == (if id == from@ {
            texts(to)
        } else {
            dep_targets(deps, id)
        }),
{
    let kept = deps.filter(dep_not_from(from@));
    let added = dep_rows(from, to);
    Seq::filter_distributes_over_add(kept, added, dep_from(id));
    broadcast use vstd::seq_lib::group_filter_ensures;
    if id == from@ {
        assert forall|i: int| 0 <= i < kept.len() implies !dep_from(id)(#[trigger] kept[i]) by {
            assert(dep_not_from(from@)(kept[i]));
        }
        lemma_filter_none(kept, dep_from(id));
        lemma_filter_all(added, dep_from(id));
        assert(Seq::<Dependency>::empty() + added =~= added);
        assert(added.map_values(|d: Dependency| d.to_id@) =~= texts(to));
    } else {
        assert forall|i: int| 0 <= i < added.len() implies !dep_from(id)(#[trigger] added[i]) by {}
        lemma_filter_none(added, dep_from(id));
        lemma_filter_filter_other(deps, from@, id);
        assert(kept.filter(dep_from(id)) + Seq::<Dependency>::empty() =~= kept.filter(dep_from(id)));
    }
}

proof fn lemma_filter_filter_other(deps: Seq<Dependency>, from: Seq<char>, id: Seq<char>)
    requires
        from != id,
    ensures
        deps.filter(dep_not_from(from)).filter(dep_from(id)) == deps.filter(dep_from(id)),
    decreases deps.len(),
{
    reveal(Seq::filter);
    if deps.len() > 0 {
        let rest = deps.drop_last();
        let x = deps.last();
        lemma_filter_filter_other(rest, from, id);
        if dep_not_from(from)(x) {
            assert(deps.filter(dep_not_from(from)) == rest.filter(dep_not_from(from)).push(x));
            assert(rest.filter(dep_not_from(from)).push(x).drop_last() =~= rest.filter(dep_not_from(from)));
        }
    }
}

impl WorkStore {
    /// Position of the task with this id.
    pub open spec fn task_at(self, id: Seq<char>) -> Option<int> {
        first_index(task_ids(self.tasks@), id)
    }

    /// The ids the task depends on, in table order.
    pub open spec fn task_deps(self, id: Seq<char>) -> Seq<Seq<char>> {
        dep_targets(self.task_dependencies@, id)
    }

    pub fn task_position(&self, id: &str) -> (r: Option<usize>)
        ensures
            r matches Some(i) ==> self.task_at(id@) == Some(i as int) && i < self.tasks.len(),
            r is None ==> self.task_at(id@) is None,
    {
        let ghost ids = task_ids(self.tasks@);
        let mut i: usize = 0;
        while i < self.tasks.len()
            invariant
                i <= self.tasks.len(),
                ids == task_ids(self.tasks@),
                forall|j: int| 0 <= j < i ==> ids[j] != id@,
            decreases self.tasks.len() - i,
        {
            if crate::text::str_equal(self.tasks[i].id.as_str(), id) {
                proof {
                    lemma_first_index(ids, id@, i as int);
                }
                return Some(i);
            }
            i += 1;
        }
        proof {
            lemma_first_index(ids, id@, i as int);
        }
        None
    }

    /// The ids the task depends on, in id order.
    pub fn dependencies_of(&self, task_id: &str) -> (r: Vec<String>)
        ensures
            is_ordering(texts(r@), self.task_deps(task_id@), by_text(self.task_deps(task_id@)), false),
    {
        targets_of(&self.task_dependencies, task_id)
    }

    /// The task with this id, with its dependencies in id order.
    pub fn get_task(&self, id: &str) -> (r: Option<Task>)
        ensures
            match self.task_at(id@) {
                Some(i) => r matches Some(t) && task_assembled(t, self.tasks@[i], self.task_deps(id@)),
                None => r is None,
            },
    {
        match self.task_position(id) {
            Some(i) => {
                let row = self.tasks[i].copy();
                let deps = self.dependencies_of(id);
                Some(task_from_row(row, deps))
            },
            None => None,
        }
    }

    /// Replaces the dependencies of a task.
    pub fn replace_dependencies(&mut self, task_id: &String, blocked_by: &Vec<String>)
        ensures
            final(self).task_dependencies@ == deps_replaced(old(self).task_dependencies@, *task_id, blocked_by@),
            final(self).tasks == old(self).tasks,
            only_tasks_changed(*old(self), *final(self)),
    {
        self.task_dependencies = replaced_deps(&self.task_dependencies, task_id, blocked_by);
    }
}


/// The first value when present, else the second.
pub open spec fn or_keep<A>(first: Option<A>, second: Option<A>) -> Option<A> {
    if first is Some {
        first
    } else {
        second
    }
}

/// Every table but the tasks and their dependencies is the same.
pub open spec fn only_tasks_changed(a: WorkStore, b: WorkStore) -> bool {
    &&& a.goals == b.goals
    &&& a.templates == b.templates
    &&& a.template_dependencies == b.template_dependencies
    &&& a.comments == b.comments
    &&& a.links == b.links
    &&& a.runs == b.runs
    &&& a.approvals == b.approvals
    &&& a.costs == b.costs
    &&& a.budgets == b.budgets
    &&& a.recurring == b.recurring
    &&& a.materializations == b.materializations
}

/// The row a new task is stored as.  A task created with a session is
/// claimed at creation.
pub open spec fn new_task_row(task: NewTask, id: String, now: String) -> TaskRow {
    TaskRow {
        id: id,
        list_key: task.list_key,
        title: task.title,
        description: task.description,
        status: task.status,
        priority: task.priority,
        goal_id: task.goal_id,
        parent_task_id: task.parent_task_id,
        owner: task.owner,
        project_id: task.project_id,
        session_key: task.session_key,
        claimed_at: if task.session_key is Some {
            Some(now)
        } else {
            None
        },
        created_at: now,
        updated_at: now,
    }
}

/// When a task was claimed after it moves to `status` with `session`: a task
/// in progress with a session keeps its claim time or is claimed now; a
/// completed or cancelled task holds no claim; any other keeps its claim time.
pub open spec fn claimed_at_after(
    existing: TaskRow,
    status: TaskStatus,
    session: Option<String>,
    now: String,
) -> Option<String> {
    if status == TaskStatus::InProgress && session is Some {
        or_keep(existing.claimed_at, Some(now))
    } else if status == TaskStatus::Completed || status == TaskStatus::Cancelled {
        None
    } else {
        existing.claimed_at
    }
}

/// The row of a task after a patch: every present field replaces the stored
/// one, the id and creation time stay, and the update time is `now`.
pub open spec fn patched_task_row(existing: TaskRow, patch: TaskPatch, now: String) -> TaskRow {
    let status = match patch.status {
        Some(s) => s,
        None => existing.status,
    };
    let session = or_keep(patch.session_key, existing.session_key);
    TaskRow {
        id: existing.id,
        list_key: or_keep(patch.list_key, existing.list_key),
        title: match patch.title {
            Some(t) => t,
            None => existing.title,
        },
        description: or_keep(patch.description, existing.description),
        status: status,
        priority: match patch.priority {
            Some(p) => p,
            None => existing.priority,
        },
        goal_id: or_keep(patch.goal_id, existing.goal_id),
        parent_task_id: or_keep(patch.parent_task_id, existing.parent_task_id),
        owner: or_keep(patch.owner, existing.owner),
        project_id: or_keep(patch.project_id, existing.project_id),
        session_key: session,
        claimed_at: claimed_at_after(existing, status, session, now),
        created_at: existing.created_at,
        updated_at: now,
    }
}

/// The patch a claim applies.
pub open spec fn claim_patch(owner: Option<String>, session_key: Option<String>) -> TaskPatch {
    TaskPatch {
        list_key: None,
        title: None,
        description: None,
        status: Some(TaskStatus::InProgress),
        priority: None,
        goal_id: None,
        parent_task_id: None,
        owner: owner,
        project_id: None,
        session_key: session_key,
        blocked_by: None,
    }
}

/// A status in which a task still has work to do.
pub open spec fn is_incomplete(status: TaskStatus) -> bool {
    status != TaskStatus::Completed && status != TaskStatus::Cancelled
}

/// The task with id `id` exists and is incomplete.
pub open spec fn target_incomplete(tasks: Seq<TaskRow>, id: Seq<char>) -> bool {
    match first_index(task_ids(tasks), id) {
        Some(j) => is_incomplete(tasks[j].status),
        None => false,
    }
}

/// Dependency rows of `id` on existing incomplete tasks.
pub open spec fn dep_incomplete(tasks: Seq<TaskRow>, id: Seq<char>) -> spec_fn(Dependency) -> bool {
    |d: Dependency| d.from_id@ == id && target_incomplete(tasks, d.to_id@)
}

impl WorkStore {
    /// The ids of the incomplete tasks that `id` depends on, in table order.
    pub open spec fn incomplete_deps(self, id: Seq<char>) -> Seq<Seq<char>> {
        self.task_dependencies@.filter(dep_incomplete(self.tasks@, id)).map_values(
            |d: Dependency| d.to_id@,
        )
    }

    /// Creates a task with the given id and creation time.
    pub fn create_task_at(&mut self, task: NewTask, id: String, now: String) -> (r: Result<Task, WorkError>)
        ensures
            match r {
                Ok(t) => {
                    &&& old(self).task_at(id@) is None
                    &&& final(self).tasks@ == old(self).tasks@.push(new_task_row(task, id, now))
                    &&& final(self).task_dependencies@ == deps_replaced(
                        old(self).task_dependencies@,
                        id,
                        task.blocked_by@,
                    )
                    &&& only_tasks_changed(*old(self), *final(self))
                    &&& task_assembled(t, new_task_row(task, id, now), texts(task.blocked_by@))
                },
                Err(e) => {
                    &&& old(self).task_at(id@) is Some
                    &&& e.is_duplicate(RecordKind::Task, id@)
                    &&& *final(self) == *old(self)
                },
            },
    {
        if self.task_position(id.as_str()).is_some() {
            return Err(WorkError::DuplicateId { kind: RecordKind::Task, id });
        }
        let claimed_at = match &task.session_key {
            Some(_) => Some(now.clone()),
            None => None,
        };
        let row = TaskRow {
            id: id.clone(),
            list_key: task.list_key,
            title: task.title,
            description: task.description,
            status: task.status,
            priority: task.priority,
            goal_id: task.goal_id,
            parent_task_id: task.parent_task_id,
            owner: task.owner,
            project_id: task.project_id,
            session_key: task.session_key,
            claimed_at,
            created_at: now.clone(),
            updated_at: now,
        };
        self.tasks.push(row.copy());
        self.replace_dependencies(&id, &task.blocked_by);
        proof {
            lemma_deps_replaced(old(self).task_dependencies@, id, task.blocked_by@, id@);
        }
        let deps = sort_strings(&task.blocked_by);
        Ok(task_from_row(row, deps))
    }

    /// Applies a patch to the task with this id, if there is one.
    pub fn update_task_at(&mut self, id: &str, patch: TaskPatch, now: String) -> (r: Option<Task>)
        ensures
            match old(self).task_at(id@) {
                None => r is None && *final(self) == *old(self),
                Some(i) => {
                    let row = patched_task_row(old(self).tasks@[i], patch, now);
                    &&& final(self).tasks@ == old(self).tasks@.update(i, row)
                    &&& final(self).task_dependencies@ == match patch.blocked_by {
                        Some(b) => deps_replaced(old(self).task_dependencies@, old(self).tasks@[i].id, b@),
                        None => old(self).task_dependencies@,
                    }
                    &&& only_tasks_changed(*old(self), *final(self))
                    &&& r matches Some(t) && task_assembled(t, row, final(self).task_deps(id@))
                },
            },
    {
        let i = match self.task_position(id) {
            Some(i) => i,
            None => return None,
        };
        proof {
            lemma_first_index_facts(task_ids(self.tasks@), id@);
        }
        let existing = self.tasks[i].copy();
        let status = match patch.status {
            Some(s) => s,
            None => existing.status,
        };
        let session_key = or_else_keep(patch.session_key, existing.session_key);
        let claimed_at = if status == TaskStatus::InProgress && session_key.is_some() {
            match existing.claimed_at {
                Some(c) => Some(c),
                None => Some(now.clone()),
            }
        } else if status == TaskStatus::Completed || status == TaskStatus::Cancelled {
            None
        } else {
            existing.claimed_at
        };
        let row = TaskRow {
            id: existing.id,
            list_key: or_else_keep(patch.list_key, existing.list_key),
            title: match patch.title {
                Some(t) => t,
                None => existing.title,
            },
            description: or_else_keep(patch.description, existing.description),
            status,
            priority: match patch.priority {
                Some(p) => p,
                None => existing.priority,
            },
            goal_id: or_else_keep(patch.goal_id, existing.goal_id),
            parent_task_id: or_else_keep(patch.parent_task_id, existing.parent_task_id),
            owner: or_else_keep(patch.owner, existing.owner),
            project_id: or_else_keep(patch.project_id, existing.project_id),
            session_key,
            claimed_at,
            created_at: existing.created_at,
            updated_at: now,
        };
        let stored_id = row.id.clone();
        self.tasks.set(i, row.copy());
        assert(task_ids(self.tasks@) =~= task_ids(old(self).tasks@));
        match patch.blocked_by {
            Some(b) => {
                self.replace_dependencies(&stored_id, &b);
            },
            None => {},
        }
        let deps = self.dependencies_of(id);
        Some(task_from_row(row, deps))
    }

    /// The ids of the incomplete tasks that the task depends on, in id order.
    pub fn list_incomplete_dependencies(&self, task_id: &str) -> (r: Vec<String>)
        ensures
            is_ordering(
                texts(r@),
                self.incomplete_deps(task_id@),
                by_text(self.incomplete_deps(task_id@)),
                false,
            ),
    {
        let ghost deps = self.task_dependencies@;
        let ghost pred = dep_incomplete(self.tasks@, task_id@);
        let mut found: Vec<String> = Vec::new();
        let mut i: usize = 0;
        while i < self.task_dependencies.len()
            invariant
                i <= self.task_dependencies.len(),
                deps == self.task_dependencies@,
                pred == dep_incomplete(self.tasks@, task_id@),
                texts(found@) == deps.take(i as int).filter(pred).map_values(|d: Dependency| d.to_id@),
            decreases self.task_dependencies.len() - i,
        {
            proof {
                lemma_filter_step(deps, pred, i as int);
            }
            let ghost chosen = deps.take(i as int).filter(pred);
            let dep = &self.task_dependencies[i];
            if crate::text::str_equal(dep.from_id.as_str(), task_id) {
                match self.task_position(dep.to_id.as_str()) {
                    Some(j) => {
                        let st = self.tasks[j].status;
                        if st != TaskStatus::Completed && st != TaskStatus::Cancelled {
                            found.push(dep.to_id.clone());
                            assert(chosen.push(deps[i as int]).map_values(|d: Dependency| d.to_id@)
                                =~= chosen.map_values(|d: Dependency| d.to_id@).push(deps[i as int].to_id@));
                        }
                    },
                    None => {},
                }
            }
            i += 1;
            assert(texts(found@) =~= deps.take(i as int).filter(pred).map_values(|d: Dependency| d.to_id@));
        }
        assert(deps.take(i as int) =~= deps);
        sort_strings(&found)
    }
}


impl WorkStore {
    /// Claims a pending or blocked task whose dependencies are all completed
    /// or cancelled: it moves to in progress with the given owner and session.
    pub fn claim_task_at(
        &mut self,
        id: &str,
        owner: Option<String>,
        session_key: Option<String>,
        now: String,
    ) -> (r: Result<Option<Task>, WorkError>)
        ensures
            match old(self).task_at(id@) {
                None => r matches Ok(None) && *final(self) == *old(self),
                Some(i) => {
                    let row = old(self).tasks@[i];
                    if row.status != TaskStatus::Pending && row.status != TaskStatus::Blocked {
                        &&& r matches Err(WorkError::ClaimFromStatus { id: eid, status })
                        &&& eid@ == id@ && status == row.status
                        &&& *final(self) == *old(self)
                    } else if old(self).incomplete_deps(id@).len() > 0 {
                        &&& r matches Err(WorkError::ClaimBlocked { id: eid, blocked_by })
                        &&& eid@ == id@
                        &&& is_ordering(
                            texts(blocked_by@),
                            old(self).incomplete_deps(id@),
                            by_text(old(self).incomplete_deps(id@)),
                            false,
                        )
                        &&& *final(self) == *old(self)
                    } else {
                        let claimed = patched_task_row(row, claim_patch(owner, session_key), now);
                        &&& final(self).tasks@ == old(self).tasks@.update(i, claimed)
                        &&& final(self).task_dependencies@ == old(self).task_dependencies@
                        &&& only_tasks_changed(*old(self), *final(self))
                        &&& r matches Ok(Some(t)) && task_assembled(t, claimed, final(self).task_deps(id@))
                    }
                },
            },
    {
        let i = match self.task_position(id) {
            Some(i) => i,
            None => return Ok(None),
        };
        let status = self.tasks[i].status;
        if status != TaskStatus::Pending && status != TaskStatus::Blocked {
            return Err(WorkError::ClaimFromStatus { id: crate::text::owned(id), status });
        }
        let blocked = self.list_incomplete_dependencies(id);
        if blocked.len() > 0 {
            return Err(WorkError::ClaimBlocked { id: crate::text::owned(id), blocked_by: blocked });
        }
        proof {
            crate::order::lemma_ordering_len(
                texts(blocked@),
                old(self).incomplete_deps(id@),
                by_text(old(self).incomplete_deps(id@)),
                false,
            );
        }
        let patch = TaskPatch {
            list_key: None,
            title: None,
            description: None,
            status: Some(TaskStatus::InProgress),
            priority: None,
            goal_id: None,
            parent_task_id: None,
            owner,
            project_id: None,
            session_key,
            blocked_by: None,
        };
        Ok(self.update_task_at(id, patch, now))
    }
}


/// The tasks a filter selects: every present field must match.
pub open spec fn task_filter(f: TaskFilter) -> spec_fn(TaskRow) -> bool {
    |r: TaskRow|
        opt_filter_matches(f.list_key, r.list_key) && opt_filter_matches(f.goal_id, r.goal_id)
            && opt_filter_matches(f.project_id, r.project_id) && opt_filter_matches(
            f.session_key,
            r.session_key,
        ) && opt_filter_matches(f.owner, r.owner) && match f.status {
            None => true,
            Some(st) => r.status == st,
        }
}

/// Recency keys of task rows.
pub open spec fn task_recency_keys(rows: Seq<TaskRow>) -> Seq<Seq<KeyView>> {
    rows.map_values(|r: TaskRow| recency_key(r.updated_at@, r.created_at@))
}

/// The rows of a sequence of tasks.
pub open spec fn task_rows(ts: Seq<Task>) -> Seq<TaskRow> {
    ts.map_values(|t: Task| t.row())
}

fn task_filter_match(f: &TaskFilter, r: &TaskRow) -> (b: bool)
    ensures
        b == task_filter(*f)(*r),
{
    opt_filter_match(&f.list_key, &r.list_key) && opt_filter_match(&f.goal_id, &r.goal_id)
        && opt_filter_match(&f.project_id, &r.project_id) && opt_filter_match(
        &f.session_key,
        &r.session_key,
    ) && opt_filter_match(&f.owner, &r.owner) && match f.status {
        None => true,
        Some(st) => r.status == st,
    }
}

impl WorkStore {
    /// The tasks a filter selects, most recently updated first, each with its
    /// dependencies in id order.
    pub fn list_tasks(&self, filter: &TaskFilter) -> (r: Vec<Task>)
        ensures
            is_ordering(
                task_rows(r@),
                self.tasks@.filter(task_filter(*filter)),
                task_recency_keys(self.tasks@.filter(task_filter(*filter))),
                true,
            ),
            forall|k: int|
                0 <= k < r.len() ==> task_assembled(
                    #[trigger] r@[k],
                    r@[k].row(),
                    self.task_deps(r@[k].id@),
                ),
    {
        let ghost all = self.tasks@;
        let ghost pred = task_filter(*filter);
        let mut rows: Vec<TaskRow> = Vec::new();
        let mut i: usize = 0;
        while i < self.tasks.len()
            invariant
                i <= self.tasks.len(),
                all == self.tasks@,
                pred == task_filter(*filter),
                rows@ == all.take(i as int).filter(pred),
            decreases self.tasks.len() - i,
        {
            proof {
                lemma_filter_step(all, pred, i as int);
            }
            if task_filter_match(filter, &self.tasks[i]) {
                rows.push(self.tasks[i].copy());
            }
            i += 1;
        }
        assert(all.take(i as int) =~= all);
        let mut keys: Vec<Vec<KeyPart>> = Vec::new();
        let mut j: usize = 0;
        while j < rows.len()
            invariant
                j <= rows.len(),
                keys.len() == j,
                forall|x: int| 0 <= x < j ==> key_view(#[trigger] keys@[x]) == recency_key(rows@[x].updated_at@, rows@[x].created_at@),
            decreases rows.len() - j,
        {
            keys.push(recency_key_of(&rows[j].updated_at, &rows[j].created_at));
            j += 1;
        }
        assert(keys_view(keys@) =~= task_recency_keys(rows@));
        let order = sort_order(&keys, true);
        let mut out: Vec<Task> = Vec::new();
        let mut k: usize = 0;
        while k < order.len()
            invariant
                k <= order.len(),
                order.len() == rows.len(),
                out.len() == k,
                forall|x: int| 0 <= x < order.len() ==> order@[x] < rows.len(),
                forall|x: int| 0 <= x < k ==> (#[trigger] out@[x]).row() == rows@[order@[x] as int],
                forall|x: int|
                    0 <= x < k ==> task_assembled(
                        #[trigger] out@[x],
                        out@[x].row(),
                        self.task_deps(out@[x].id@),
                    ),
            decreases order.len() - k,
        {
            let row = rows[order[k]].copy();
            let deps = self.dependencies_of(row.id.as_str());
            out.push(task_from_row(row, deps));
            k += 1;
        }
        assert(is_sorted_order(task_recency_keys(rows@), order@, true));
        assert(task_rows(out@).len() == order@.len());
        out
    }
}

/// The ids that a record depends on, in id order.
pub fn targets_of(deps_table: &Vec<Dependency>, task_id: &str) -> (r: Vec<String>)
    ensures
        is_ordering(texts(r@), dep_targets(deps_table@, task_id@), by_text(dep_targets(deps_table@, task_id@)), false),
{
    let ghost deps = deps_table@;
    let mut found: Vec<String> = Vec::new();
    let mut i: usize = 0;
    while i < deps_table.len()
        invariant
            i <= deps_table.len(),
            deps == deps_table@,
            texts(found@) == deps.take(i as int).filter(dep_from(task_id@)).map_values(
                |d: Dependency| d.to_id@,
            ),
        decreases deps_table.len() - i,
    {
        proof {
            lemma_filter_step(deps, dep_from(task_id@), i as int);
        }
        let ghost chosen = deps.take(i as int).filter(dep_from(task_id@));
        if crate::text::str_equal(deps_table[i].from_id.as_str(), task_id) {
            found.push(deps_table[i].to_id.clone());
            assert(chosen.push(deps[i as int]).map_values(|d: Dependency| d.to_id@) =~= chosen.map_values(
                |d: Dependency| d.to_id@,
            ).push(deps[i as int].to_id@));
        }
        i += 1;
        assert(texts(found@) =~= deps.take(i as int).filter(dep_from(task_id@)).map_values(
            |d: Dependency| d.to_id@,
        ));
    }
    assert(deps.take(i as int) =~= deps);
    sort_strings(&found)
}


/// The dependency table with the dependencies of `task_id` replaced.
pub fn replaced_deps(deps_table: &Vec<Dependency>, task_id: &String, blocked_by: &Vec<String>) -> (r: Vec<Dependency>)
ensures
    r@ == deps_replaced(deps_table@, *task_id, blocked_by@),
{
    let ghost deps = deps_table@;
    let mut kept: Vec<Dependency> = Vec::new();
    let mut i: usize = 0;
    while i < deps_table.len()
        invariant
            i <= deps_table.len(),
            deps == deps_table@,
            kept@ == deps.take(i as int).filter(dep_not_from(task_id@)),
        decreases deps_table.len() - i,
    {
        proof {
            lemma_filter_step(deps, dep_not_from(task_id@), i as int);
        }
        if !crate::text::str_equal(deps_table[i].from_id.as_str(), task_id.as_str()) {
            kept.push(deps_table[i].copy());
        }
        i += 1;
    }
    assert(deps.take(i as int) =~= deps);
    let ghost kept_len = kept.len();
    let mut j: usize = 0;
    while j < blocked_by.len()
        invariant
            j <= blocked_by.len(),
            kept.len() == kept_len + j,
            kept@ == deps.filter(dep_not_from(task_id@)) + dep_rows(*task_id, blocked_by@.take(j as int)),
        decreases blocked_by.len() - j,
    {
        kept.push(Dependency { from_id: task_id.clone(), to_id: blocked_by[j].clone() });
        j += 1;
        assert(kept@ =~= deps.filter(dep_not_from(task_id@)) + dep_rows(*task_id, blocked_by@.take(j as int)));
    }
    assert(blocked_by@.take(j as int) =~= blocked_by@);
    kept
}

} // verus!
