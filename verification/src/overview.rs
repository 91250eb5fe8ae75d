//! Summaries across the work graph: the dashboard of one project (or of all
//! work) and the portfolio of every project.

use vstd::prelude::*;

use crate::budget::{opt_view, budget_filter, budget_key, cost_filter, cost_keys, statuses_of, tokens_overflow, UsdTally};
use crate::error::WorkError;
use crate::order::{
    is_ordering, is_sorted_order, key_view, keys_view, sort_order, KeyPart, lemma_text_lt_asym, lemma_text_lt_total, lemma_text_lt_trans, recency_key, text_less, text_lt, KeyView,
};
use crate::records::{
    BudgetStatus, CrossProjectDependency, Goal, ProjectWorkSummary, Task, TaskApproval, TaskCostAttribution, TaskCostFilter, TaskFilter, TaskRun, WorkBudget,
    WorkDashboard, WorkPortfolio, WorkTaskCounts,
};
use crate::store::{lemma_filter_all, lemma_filter_step, task_assembled, task_filter, task_recency_keys, task_rows, TaskRow, WorkStore};
use crate::text::{chars_of, clone_opt, opt_str_view};
use crate::types::{ApprovalStatus, BudgetScope, RunStatus, TaskStatus};

verus! {

/// Tasks of a project, or every task.
pub open spec fn in_project(p: Option<Seq<char>>) -> spec_fn(TaskRow) -> bool {
    |t: TaskRow| match p {
        None => true,
        Some(x) => t.project_id matches Some(q) && q@ == x,
    }
}

/// Tasks in a status.
pub open spec fn status_is(s: TaskStatus) -> spec_fn(Task) -> bool {
    |t: Task| t.status == s
}

/// Some row has this id.
pub open spec fn has_task_id(rows: Seq<TaskRow>, id: Seq<char>) -> bool {
    exists|j: int| 0 <= j < rows.len() && (#[trigger] rows[j]).id@ == id
}

/// A run that has not finished.
pub open spec fn is_active(s: RunStatus) -> bool {
    s == RunStatus::Pending || s == RunStatus::Running
}

/// Pending approvals that belong to no task or to one of `rows`.
pub open spec fn dashboard_approval(rows: Seq<TaskRow>) -> spec_fn(TaskApproval) -> bool {
    |a: TaskApproval| a.status == ApprovalStatus::Pending && match a.task_id {
        None => true,
        Some(t) => has_task_id(rows, t@),
    }
}

/// Unfinished runs of one of `rows`.
pub open spec fn dashboard_run(rows: Seq<TaskRow>) -> spec_fn(TaskRun) -> bool {
    |r: TaskRun| has_task_id(rows, r.task_id@) && is_active(r.status)
}

/// Recency keys of approvals.
pub open spec fn approval_keys(a: Seq<TaskApproval>) -> Seq<Seq<KeyView>> {
    a.map_values(|x: TaskApproval| recency_key(x.updated_at@, x.created_at@))
}

/// Recency keys of runs.
pub open spec fn run_keys(r: Seq<TaskRun>) -> Seq<Seq<KeyView>> {
    r.map_values(|x: TaskRun| recency_key(x.updated_at@, x.created_at@))
}

/// Listing keys of budgets.
pub open spec fn budget_keys(b: Seq<WorkBudget>) -> Seq<Seq<KeyView>> {
    b.map_values(|x: WorkBudget| budget_key(x))
}

/// Cost entries of a project, or every entry.
pub open spec fn cost_in_project(p: Option<Seq<char>>) -> spec_fn(TaskCostAttribution) -> bool {
    |c: TaskCostAttribution| match p {
        None => true,
        Some(x) => c.project_id matches Some(q) && q@ == x,
    }
}

/// What a task shows: its row and its dependencies.
pub open spec fn task_view(t: Task) -> (TaskRow, Seq<String>) {
    (t.row(), t.blocked_by@)
}

/// What tasks show, in order.
pub open spec fn tasks_view(ts: Seq<Task>) -> Seq<(TaskRow, Seq<String>)> {
    ts.map_values(|t: Task| task_view(t))
}

/// The dashboard's tasks, split by status and counted, are those of the
/// listing `all`, each part in the listing's order.
pub open spec fn partitions_of(d: WorkDashboard, all: Seq<Task>) -> bool {
    &&& tasks_view(d.pending_tasks@) == tasks_view(all.filter(status_is(TaskStatus::Pending)))
    &&& tasks_view(d.in_progress_tasks@) == tasks_view(all.filter(status_is(TaskStatus::InProgress)))
    &&& tasks_view(d.blocked_tasks@) == tasks_view(all.filter(status_is(TaskStatus::Blocked)))
    &&& tasks_view(d.completed_tasks@) == tasks_view(all.filter(status_is(TaskStatus::Completed)))
    &&& tasks_view(d.cancelled_tasks@) == tasks_view(all.filter(status_is(TaskStatus::Cancelled)))
    &&& d.counts.pending == d.pending_tasks.len()
    &&& d.counts.in_progress == d.in_progress_tasks.len()
    &&& d.counts.blocked == d.blocked_tasks.len()
    &&& d.counts.completed == d.completed_tasks.len()
    &&& d.counts.cancelled == d.cancelled_tasks.len()
}

fn tasks_in_status(all: &Vec<Task>, s: TaskStatus) -> (r: Vec<Task>)
    ensures
        tasks_view(r@) == tasks_view(all@.filter(status_is(s))),
{
    let mut out: Vec<Task> = Vec::new();
    let mut i: usize = 0;
    while i < all.len()
        invariant
            i <= all.len(),
            tasks_view(out@) == tasks_view(all@.take(i as int).filter(status_is(s))),
        decreases all.len() - i,
    {
        proof {
            lemma_filter_step(all@, status_is(s), i as int);
        }
        let ghost before = out@;
        if all[i].status == s {
            out.push(all[i].copy());
            assert(tasks_view(out@) =~= tasks_view(before).push(task_view(all@[i as int])));
            assert(tasks_view(all@.take(i as int).filter(status_is(s)).push(all@[i as int])) =~= tasks_view(
                all@.take(i as int).filter(status_is(s)),
            ).push(task_view(all@[i as int])));
        }
        i += 1;
    }
    assert(all@.take(i as int) =~= all@);
    out
}

impl WorkStore {
    /// Whether a task of the project (or any task) has this id.
    pub fn project_has_task(&self, p: Option<&str>, id: &str) -> (r: bool)
        ensures
            r == has_task_id(self.tasks@.filter(in_project(opt_str_view(p))), id@),
    {
        let ghost pred = in_project(opt_str_view(p));
        let mut i: usize = 0;
        while i < self.tasks.len()
            invariant
                i <= self.tasks.len(),
                pred == in_project(opt_str_view(p)),
                !has_task_id(self.tasks@.take(i as int).filter(pred), id@),
            decreases self.tasks.len() - i,
        {
            proof {
                lemma_filter_step(self.tasks@, pred, i as int);
            }
            let t = &self.tasks[i];
            let inside = match p {
                None => true,
                Some(x) => match &t.project_id {
                    Some(q) => crate::text::str_equal(q.as_str(), x),
                    None => false,
                },
            };
            let ghost before = self.tasks@.take(i as int).filter(pred);
            if inside && crate::text::str_equal(t.id.as_str(), id) {
                proof {
                    lemma_filter_prefix(self.tasks@, pred, i as int + 1);
                    let full = self.tasks@.filter(pred);
                    let w = before.len() as int;
                    assert(self.tasks@.take(i as int + 1).filter(pred) == before.push(self.tasks@[i as int]));
                    assert(full[w] == self.tasks@[i as int]);
                    assert(has_task_id(full, id@));
                }
                return true;
            }
            i += 1;
            proof {
                if has_task_id(self.tasks@.take(i as int).filter(pred), id@) {
                    let j = choose|j: int| 0 <= j < self.tasks@.take(i as int).filter(pred).len()
                        && (#[trigger] self.tasks@.take(i as int).filter(pred)[j]).id@ == id@;
                    if inside {
                        assert(self.tasks@.take(i as int).filter(pred) == before.push(self.tasks@[i - 1]));
                        if j < before.len() {
                            assert(before[j] == self.tasks@.take(i as int).filter(pred)[j]);
                        }
                    } else {
                        assert(self.tasks@.take(i as int).filter(pred) == before);
                    }
                }
            }
        }
        assert(self.tasks@.take(i as int) =~= self.tasks@);
        false
    }
}

/// A filter of a longer prefix extends the filter of a shorter one.
pub proof fn lemma_filter_prefix<A>(s: Seq<A>, p: spec_fn(A) -> bool, n: int)
    requires
        0 <= n <= s.len(),
    ensures
        s.take(n).filter(p).len() <= s.filter(p).len(),
        forall|j: int| 0 <= j < s.take(n).filter(p).len() ==> #[trigger] s.filter(p)[j] == s.take(n).filter(p)[j],
    decreases s.len() - n,
{
    assert(s.take(s.len() as int) =~= s);
    if n < s.len() {
        lemma_filter_prefix(s, p, n + 1);
        lemma_filter_step(s, p, n);
    }
}


impl WorkStore {
    fn dashboard_approvals(&self, p: Option<&str>, apps: &Vec<TaskApproval>) -> (r: Vec<TaskApproval>)
        ensures
            r@ == apps@.filter(dashboard_approval(self.tasks@.filter(in_project(opt_str_view(p))))),
    {
        let ghost pred = dashboard_approval(self.tasks@.filter(in_project(opt_str_view(p))));
        let mut out: Vec<TaskApproval> = Vec::new();
        let mut i: usize = 0;
        while i < apps.len()
            invariant
                i <= apps.len(),
                pred == dashboard_approval(self.tasks@.filter(in_project(opt_str_view(p)))),
                out@ == apps@.take(i as int).filter(pred),
            decreases apps.len() - i,
        {
            proof {
                lemma_filter_step(apps@, pred, i as int);
            }
            let a = &apps[i];
            let keep = a.status == ApprovalStatus::Pending && match &a.task_id {
                None => true,
                Some(t) => self.project_has_task(p, t.as_str()),
            };
            if keep {
                out.push(a.copy());
            }
            i += 1;
        }
        assert(apps@.take(i as int) =~= apps@);
        out
    }

    fn dashboard_runs(&self, p: Option<&str>, runs: &Vec<TaskRun>) -> (r: Vec<TaskRun>)
        ensures
            r@ == runs@.filter(dashboard_run(self.tasks@.filter(in_project(opt_str_view(p))))),
    {
        let ghost pred = dashboard_run(self.tasks@.filter(in_project(opt_str_view(p))));
        let mut out: Vec<TaskRun> = Vec::new();
        let mut i: usize = 0;
        while i < runs.len()
            invariant
                i <= runs.len(),
                pred == dashboard_run(self.tasks@.filter(in_project(opt_str_view(p)))),
                out@ == runs@.take(i as int).filter(pred),
            decreases runs.len() - i,
        {
            proof {
                lemma_filter_step(runs@, pred, i as int);
            }
            let x = &runs[i];
            let active = x.status == RunStatus::Pending || x.status == RunStatus::Running;
            if self.project_has_task(p, x.task_id.as_str()) && active {
                out.push(x.copy());
            }
            i += 1;
        }
        assert(runs@.take(i as int) =~= runs@);
        out
    }

    /// The tasks of a project (or all tasks) by status, pending approvals of
    /// no task or of those tasks, their unfinished runs, the twelve newest
    /// cost entries of the project, and the statuses of the budgets whose
    /// scope id is the project (or of every budget), given the caller's
    /// dollar tallies in the order the budgets are listed.
    pub fn dashboard(&self, project_id: Option<&str>, usd: &Vec<UsdTally>) -> (r: Result<WorkDashboard, WorkError>)
        ensures
            match r {
                Err(e) => e is TokenTotalOverflow && tokens_overflow(
                    self.costs@,
                    self.budgets@.filter(budget_filter(None, opt_str_view(project_id))),
                ),
                Ok(d) => {
                    let rows = self.tasks@.filter(in_project(opt_str_view(project_id)));
                    let budgets = self.budgets@.filter(budget_filter(None, opt_str_view(project_id)));
                    let costs = self.costs@.filter(cost_in_project(opt_str_view(project_id)));
                    &&& !tokens_overflow(self.costs@, budgets)
                    &&& exists|all: Seq<Task>|
                        #[trigger] is_ordering(task_rows(all), rows, task_recency_keys(rows), true) && (forall|k: int|
                            0 <= k < all.len() ==> task_assembled(
                                #[trigger] all[k],
                                all[k].row(),
                                self.task_deps(all[k].id@),
                            )) && partitions_of(d, all)
                    &&& exists|apps: Seq<TaskApproval>|
                        #[trigger] is_ordering(apps, self.approvals@, approval_keys(self.approvals@), true)
                            && d.pending_approvals@ == apps.filter(dashboard_approval(rows))
                    &&& exists|runs: Seq<TaskRun>|
                        #[trigger] is_ordering(runs, self.runs@, run_keys(self.runs@), true)
                            && d.active_runs@ == runs.filter(dashboard_run(rows))
                    &&& exists|full: Seq<TaskCostAttribution>|
                        #[trigger] is_ordering(full, costs, cost_keys(costs), true)
                            && d.recent_costs@ == full.take(crate::tracker::min_len(12, full.len() as int))
                    &&& exists|bl: Seq<WorkBudget>|
                        #[trigger] is_ordering(bl, budgets, budget_keys(budgets), false)
                            && d.budget_statuses@ == statuses_of(self.costs@, bl, usd@)
                },
            },
    {
        let ghost pv = opt_str_view(project_id);
        let owned_project = match project_id {
            Some(x) => Some(crate::text::owned(x)),
            None => None,
        };
        let filter = TaskFilter {
            list_key: None,
            goal_id: None,
            project_id: match &owned_project {
                Some(x) => Some(x.clone()),
                None => None,
            },
            session_key: None,
            owner: None,
            status: None,
        };
        assert(task_filter(filter) =~= in_project(pv));
        let tasks = self.list_tasks(&filter);
        let approvals = self.list_approvals(None);
        proof {
            lemma_filter_all(self.approvals@, crate::activity::approval_of(None));
        }
        let runs = self.list_runs(None);
        proof {
            lemma_filter_all(self.runs@, crate::activity::run_of(None));
        }
        let cost_filter_value = TaskCostFilter {
            task_id: None,
            goal_id: None,
            project_id: owned_project,
            session_key: None,
            limit: Some(12),
        };
        assert(cost_filter(cost_filter_value) =~= cost_in_project(pv));
        let recent_costs = self.list_costs(&cost_filter_value);
        let budget_rows = self.list_budgets(None, project_id);
        let ghost budgets = self.budgets@.filter(budget_filter(None, pv));
        proof {
            crate::order::lemma_ordering_members(budget_rows@, budgets, budget_keys(budgets), false);
            lemma_overflow_same(self.costs@, budget_rows@, budgets);
        }
        let budget_statuses = match self.budget_statuses(&budget_rows, usd) {
            Ok(v) => v,
            Err(e) => return Err(e),
        };
        let pending_tasks = tasks_in_status(&tasks, TaskStatus::Pending);
        let in_progress_tasks = tasks_in_status(&tasks, TaskStatus::InProgress);
        let blocked_tasks = tasks_in_status(&tasks, TaskStatus::Blocked);
        let completed_tasks = tasks_in_status(&tasks, TaskStatus::Completed);
        let cancelled_tasks = tasks_in_status(&tasks, TaskStatus::Cancelled);
        let counts = WorkTaskCounts {
            pending: pending_tasks.len(),
            in_progress: in_progress_tasks.len(),
            blocked: blocked_tasks.len(),
            completed: completed_tasks.len(),
            cancelled: cancelled_tasks.len(),
        };
        let pending_approvals = self.dashboard_approvals(project_id, &approvals);
        let active_runs = self.dashboard_runs(project_id, &runs);
        let d = WorkDashboard {
            counts,
            pending_tasks,
            in_progress_tasks,
            blocked_tasks,
            completed_tasks,
            cancelled_tasks,
            pending_approvals,
            active_runs,
            recent_costs,
            budget_statuses,
        };
        assert(partitions_of(d, tasks@));
        assert(is_ordering(approvals@, self.approvals@, approval_keys(self.approvals@), true));
        assert(is_ordering(runs@, self.runs@, run_keys(self.runs@), true));
        assert(is_ordering(budget_rows@, budgets, budget_keys(budgets), false));
        Ok(d)
    }
}

/// Budgets listed in another order count the same tokens.
proof fn lemma_overflow_same(costs: Seq<TaskCostAttribution>, a: Seq<WorkBudget>, b: Seq<WorkBudget>)
    requires
        forall|i: int| 0 <= i < a.len() ==> b.contains(#[trigger] a[i]),
        forall|j: int| 0 <= j < b.len() ==> a.contains(#[trigger] b[j]),
    ensures
        tokens_overflow(costs, a) == tokens_overflow(costs, b),
{
    if tokens_overflow(costs, a) {
        let i = choose|i: int| 0 <= i < a.len() && token_sum_over(costs, #[trigger] a[i]);
        assert(b.contains(a[i]));
        let j = choose|j: int| 0 <= j < b.len() && b[j] == a[i];
        assert(token_sum_over(costs, b[j]));
    }
    if tokens_overflow(costs, b) {
        let j = choose|j: int| 0 <= j < b.len() && token_sum_over(costs, #[trigger] b[j]);
        assert(a.contains(b[j]));
        let i = choose|i: int| 0 <= i < a.len() && a[i] == b[j];
        assert(token_sum_over(costs, a[i]));
    }
}

spec fn token_sum_over(costs: Seq<TaskCostAttribution>, b: WorkBudget) -> bool {
    crate::budget::token_sum(costs.filter(crate::budget::counts_against(b))) > i64::MAX
}


/// Projects in the portfolio's order: no project first, then by id.
pub open spec fn opt_text_lt(a: Option<Seq<char>>, b: Option<Seq<char>>) -> bool {
    match (a, b) {
        (None, Some(_)) => true,
        (Some(x), Some(y)) => text_lt(x, y),
        _ => false,
    }
}

/// Project keys in strictly increasing order.
pub open spec fn keys_sorted(ks: Seq<Option<String>>) -> bool {
    forall|i: int, j: int| 0 <= i < j < ks.len() ==> opt_text_lt(opt_view(#[trigger] ks[i]), opt_view(#[trigger] ks[j]))
}

/// Some key has this view.
pub open spec fn has_key(ks: Seq<Option<String>>, k: Option<Seq<char>>) -> bool {
    exists|i: int| 0 <= i < ks.len() && opt_view(#[trigger] ks[i]) == k
}

proof fn lemma_opt_text_lt(a: Option<Seq<char>>, b: Option<Seq<char>>, c: Option<Seq<char>>)
    ensures
        !(opt_text_lt(a, b) && opt_text_lt(b, a)),
        !opt_text_lt(a, a),
        a != b ==> opt_text_lt(a, b) || opt_text_lt(b, a),
        opt_text_lt(a, b) && opt_text_lt(b, c) ==> opt_text_lt(a, c),
{
    if let (Some(x), Some(y)) = (a, b) {
        lemma_text_lt_asym(x, y);
        lemma_text_lt_total(x, y);
    }
    if let Some(x) = a {
        lemma_text_lt_asym(x, x);
    }
    if let (Some(x), Some(y), Some(z)) = (a, b, c) {
        if text_lt(x, y) && text_lt(y, z) {
            lemma_text_lt_trans(x, y, z);
        }
    }
}

fn opt_less(a: &Option<String>, b: &Option<String>) -> (r: bool)
    ensures
        r == opt_text_lt(opt_view(*a), opt_view(*b)),
{
    match (a, b) {
        (None, Some(_)) => true,
        (Some(x), Some(y)) => text_less(&chars_of(x.as_str()), &chars_of(y.as_str())),
        _ => false,
    }
}

fn opt_same(a: &Option<String>, b: &Option<String>) -> (r: bool)
    ensures
        r == (opt_view(*a) == opt_view(*b)),
{
    match (a, b) {
        (None, None) => true,
        (Some(x), Some(y)) => crate::text::str_equal(x.as_str(), y.as_str()),
        _ => false,
    }
}

/// Adds a key to a strictly increasing list of keys unless a key with its
/// value is there.
fn insert_key(keys: &mut Vec<Option<String>>, k: Option<String>)
    requires
        keys_sorted(old(keys)@),
    ensures
        keys_sorted(final(keys)@),
        forall|x: Option<Seq<char>>| has_key(final(keys)@, x) <==> (has_key(old(keys)@, x) || x == opt_view(k)),
        forall|i: int| 0 <= i < final(keys)@.len() ==> old(keys)@.contains(#[trigger] final(keys)@[i]) || final(keys)@[i] == k,
{
    let mut pos: usize = 0;
    while pos < keys.len() && opt_less(&keys[pos], &k)
        invariant
            pos <= keys.len(),
            forall|x: int| 0 <= x < pos ==> opt_text_lt(opt_view(#[trigger] keys@[x]), opt_view(k)),
        decreases keys.len() - pos,
    {
        pos += 1;
    }
    if pos < keys.len() && opt_same(&keys[pos], &k) {
        assert forall|x: Option<Seq<char>>| has_key(keys@, x) <==> (has_key(keys@, x) || x == opt_view(k)) by {
            if x == opt_view(k) {
                assert(opt_view(keys@[pos as int]) == x);
            }
        }
        return;
    }
    let ghost old_keys = keys@;
    keys.insert(pos, k);
    proof {
        if pos < old_keys.len() {
            lemma_opt_text_lt(opt_view(old_keys[pos as int]), opt_view(k), opt_view(k));
        }
        assert forall|i: int, j: int| 0 <= i < j < keys@.len() implies opt_text_lt(
            opt_view(#[trigger] keys@[i]),
            opt_view(#[trigger] keys@[j]),
        ) by {
            if j < pos {
            } else if j == pos {
                assert(keys@[i] == old_keys[i]);
            } else if i == pos {
                assert(keys@[j] == old_keys[j - 1]);
                if j - 1 > pos {
                    assert(opt_text_lt(opt_view(old_keys[pos as int]), opt_view(old_keys[j - 1])));
                    lemma_opt_text_lt(opt_view(k), opt_view(old_keys[pos as int]), opt_view(old_keys[j - 1]));
                }
            } else if i < pos {
                assert(keys@[i] == old_keys[i]);
                assert(keys@[j] == old_keys[j - 1]);
            } else {
                assert(keys@[i] == old_keys[i - 1]);
                assert(keys@[j] == old_keys[j - 1]);
            }
        }
        assert forall|x: Option<Seq<char>>| has_key(keys@, x) <==> (has_key(old_keys, x) || x == opt_view(k)) by {
            if has_key(keys@, x) {
                let i = choose|i: int| 0 <= i < keys@.len() && opt_view(#[trigger] keys@[i]) == x;
                if i < pos {
                    assert(keys@[i] == old_keys[i]);
                } else if i > pos {
                    assert(keys@[i] == old_keys[i - 1]);
                }
            }
            if has_key(old_keys, x) {
                let i = choose|i: int| 0 <= i < old_keys.len() && opt_view(#[trigger] old_keys[i]) == x;
                if i < pos {
                    assert(keys@[i] == old_keys[i]);
                } else {
                    assert(keys@[i + 1] == old_keys[i]);
                }
            }
            if x == opt_view(k) {
                assert(keys@[pos as int] == k);
            }
        }
        assert forall|i: int| 0 <= i < keys@.len() implies old_keys.contains(#[trigger] keys@[i]) || keys@[i] == k by {
            if i < pos {
                assert(keys@[i] == old_keys[i]);
            } else if i > pos {
                assert(keys@[i] == old_keys[i - 1]);
            }
        }
    }
}


/// Goals of a project.
pub open spec fn goal_in(k: Option<Seq<char>>) -> spec_fn(Goal) -> bool {
    |g: Goal| opt_view(g.project_id) == k
}

/// Tasks of a project in a status.
pub open spec fn task_in(k: Option<Seq<char>>, st: TaskStatus) -> spec_fn(TaskRow) -> bool {
    |t: TaskRow| opt_view(t.project_id) == k && t.status == st
}

/// A budget status that reaches a soft or hard limit.
pub open spec fn is_alert(s: BudgetStatus) -> bool {
    s.soft_exceeded || s.hard_exceeded
}

/// Pending approvals that count under a project.
pub open spec fn approval_in(store: WorkStore, k: Option<Seq<char>>) -> spec_fn(TaskApproval) -> bool {
    |a: TaskApproval| a.status == ApprovalStatus::Pending && store.approval_project(a) == k
}

/// Unfinished runs of known tasks that count under a project.
pub open spec fn run_in(store: WorkStore, k: Option<Seq<char>>) -> spec_fn(TaskRun) -> bool {
    |r: TaskRun| is_active(r.status) && store.run_project(r) == Some(k)
}

/// Budget alerts that count under a project.
pub open spec fn alert_in(store: WorkStore, k: Option<Seq<char>>) -> spec_fn(BudgetStatus) -> bool {
    |s: BudgetStatus| is_alert(s) && store.budget_project(s.budget) == k
}

impl WorkStore {
    /// The project of an approval's task; none without a known task.
    pub open spec fn approval_project(self, a: TaskApproval) -> Option<Seq<char>> {
        match a.task_id {
            Some(t) => match self.task_at(t@) {
                Some(i) => opt_view(self.tasks@[i].project_id),
                None => None,
            },
            None => None,
        }
    }

    /// The project of a run's task, when the task is known.
    pub open spec fn run_project(self, r: TaskRun) -> Option<Option<Seq<char>>> {
        match self.task_at(r.task_id@) {
            Some(i) => Some(opt_view(self.tasks@[i].project_id)),
            None => None,
        }
    }

    /// The project a budget alert counts under: a project budget's own, a
    /// task budget's task's, and none for a goal budget.
    pub open spec fn budget_project(self, b: WorkBudget) -> Option<Seq<char>> {
        match b.scope {
            BudgetScope::Project => Some(b.scope_id@),
            BudgetScope::Task => match self.task_at(b.scope_id@) {
                Some(i) => opt_view(self.tasks@[i].project_id),
                None => None,
            },
            BudgetScope::Goal => None,
        }
    }

    /// A project has a goal, a task, a pending approval, an unfinished run
    /// or a budget alert.
    pub open spec fn has_activity(self, k: Option<Seq<char>>, statuses: Seq<BudgetStatus>) -> bool {
        ||| exists|i: int| 0 <= i < self.goals@.len() && goal_in(k)(#[trigger] self.goals@[i])
        ||| exists|i: int| 0 <= i < self.tasks@.len() && opt_view((#[trigger] self.tasks@[i]).project_id) == k
        ||| exists|i: int| 0 <= i < self.approvals@.len() && approval_in(self, k)(#[trigger] self.approvals@[i])
        ||| exists|i: int| 0 <= i < self.runs@.len() && run_in(self, k)(#[trigger] self.runs@[i])
        ||| exists|i: int| 0 <= i < statuses.len() && alert_in(self, k)(#[trigger] statuses[i])
    }

    /// The summary counts the goals, tasks by status, pending approvals,
    /// unfinished runs and budget alerts of its project.
    pub open spec fn summary_matches(self, s: ProjectWorkSummary, statuses: Seq<BudgetStatus>) -> bool {
        let k = opt_view(s.project_id);
        &&& s.goal_count == self.goals@.filter(goal_in(k)).len()
        &&& s.task_counts.pending == self.tasks@.filter(task_in(k, TaskStatus::Pending)).len()
        &&& s.task_counts.in_progress == self.tasks@.filter(task_in(k, TaskStatus::InProgress)).len()
        &&& s.task_counts.blocked == self.tasks@.filter(task_in(k, TaskStatus::Blocked)).len()
        &&& s.task_counts.completed == self.tasks@.filter(task_in(k, TaskStatus::Completed)).len()
        &&& s.task_counts.cancelled == self.tasks@.filter(task_in(k, TaskStatus::Cancelled)).len()
        &&& s.pending_approvals == self.approvals@.filter(approval_in(self, k)).len()
        &&& s.active_runs == self.runs@.filter(run_in(self, k)).len()
        &&& s.budget_alerts == statuses.filter(alert_in(self, k)).len()
    }

    /// One summary per project with any work, in project order.
    pub open spec fn projects_listed(self, ps: Seq<ProjectWorkSummary>, statuses: Seq<BudgetStatus>) -> bool {
        &&& forall|i: int, j: int|
            0 <= i < j < ps.len() ==> opt_text_lt(opt_view((#[trigger] ps[i]).project_id), opt_view((#[trigger] ps[j]).project_id))
        &&& forall|i: int|
            0 <= i < ps.len() ==> self.summary_matches(#[trigger] ps[i], statuses) && self.has_activity(
                opt_view(ps[i].project_id),
                statuses,
            )
        &&& forall|k: Option<Seq<char>>|
            #[trigger] self.has_activity(k, statuses) ==> exists|i: int| 0 <= i < ps.len() && opt_view((#[trigger] ps[i]).project_id) == k
    }

    fn approval_project_of(&self, a: &TaskApproval) -> (r: Option<String>)
        ensures
            opt_view(r) == self.approval_project(*a),
    {
        match &a.task_id {
            Some(t) => match self.task_position(t.as_str()) {
                Some(i) => clone_opt(&self.tasks[i].project_id),
                None => None,
            },
            None => None,
        }
    }

    fn run_project_of(&self, r: &TaskRun) -> (p: Option<Option<String>>)
        ensures
            match p {
                Some(x) => self.run_project(*r) == Some(opt_view(x)),
                None => self.run_project(*r) is None,
            },
    {
        match self.task_position(r.task_id.as_str()) {
            Some(i) => Some(clone_opt(&self.tasks[i].project_id)),
            None => None,
        }
    }

    fn budget_project_of(&self, b: &WorkBudget) -> (r: Option<String>)
        ensures
            opt_view(r) == self.budget_project(*b),
    {
        match b.scope {
            BudgetScope::Project => Some(b.scope_id.clone()),
            BudgetScope::Task => match self.task_position(b.scope_id.as_str()) {
                Some(i) => clone_opt(&self.tasks[i].project_id),
                None => None,
            },
            BudgetScope::Goal => None,
        }
    }
}


impl WorkStore {
    fn count_goals(&self, k: &Option<String>) -> (r: usize)
        ensures
            r == self.goals@.filter(goal_in(opt_view(*k))).len(),
    {
        let ghost pred = goal_in(opt_view(*k));
        let mut n: usize = 0;
        let mut i: usize = 0;
        while i < self.goals.len()
            invariant
                i <= self.goals.len(),
                pred == goal_in(opt_view(*k)),
                n == self.goals@.take(i as int).filter(pred).len(),
                n <= i,
            decreases self.goals.len() - i,
        {
            proof {
                lemma_filter_step(self.goals@, pred, i as int);
            }
            if opt_same(&self.goals[i].project_id, k) {
                n += 1;
            }
            i += 1;
        }
        assert(self.goals@.take(i as int) =~= self.goals@);
        n
    }

    fn count_tasks(&self, k: &Option<String>) -> (r: WorkTaskCounts)
        ensures
            r.pending == self.tasks@.filter(task_in(opt_view(*k), TaskStatus::Pending)).len(),
            r.in_progress == self.tasks@.filter(task_in(opt_view(*k), TaskStatus::InProgress)).len(),
            r.blocked == self.tasks@.filter(task_in(opt_view(*k), TaskStatus::Blocked)).len(),
            r.completed == self.tasks@.filter(task_in(opt_view(*k), TaskStatus::Completed)).len(),
            r.cancelled == self.tasks@.filter(task_in(opt_view(*k), TaskStatus::Cancelled)).len(),
    {
        let ghost kv = opt_view(*k);
        let ghost all = self.tasks@;
        let mut c = WorkTaskCounts { pending: 0, in_progress: 0, blocked: 0, completed: 0, cancelled: 0 };
        let mut i: usize = 0;
        while i < self.tasks.len()
            invariant
                i <= self.tasks.len(),
                kv == opt_view(*k),
                all == self.tasks@,
                c.pending == all.take(i as int).filter(task_in(kv, TaskStatus::Pending)).len(),
                c.in_progress == all.take(i as int).filter(task_in(kv, TaskStatus::InProgress)).len(),
                c.blocked == all.take(i as int).filter(task_in(kv, TaskStatus::Blocked)).len(),
                c.completed == all.take(i as int).filter(task_in(kv, TaskStatus::Completed)).len(),
                c.cancelled == all.take(i as int).filter(task_in(kv, TaskStatus::Cancelled)).len(),
                c.pending <= i && c.in_progress <= i && c.blocked <= i && c.completed <= i && c.cancelled <= i,
            decreases self.tasks.len() - i,
        {
            proof {
                lemma_filter_step(all, task_in(kv, TaskStatus::Pending), i as int);
                lemma_filter_step(all, task_in(kv, TaskStatus::InProgress), i as int);
                lemma_filter_step(all, task_in(kv, TaskStatus::Blocked), i as int);
                lemma_filter_step(all, task_in(kv, TaskStatus::Completed), i as int);
                lemma_filter_step(all, task_in(kv, TaskStatus::Cancelled), i as int);
            }
            if opt_same(&self.tasks[i].project_id, k) {
                match self.tasks[i].status {
                    TaskStatus::Pending => c.pending += 1,
                    TaskStatus::InProgress => c.in_progress += 1,
                    TaskStatus::Blocked => c.blocked += 1,
                    TaskStatus::Completed => c.completed += 1,
                    TaskStatus::Cancelled => c.cancelled += 1,
                }
            }
            i += 1;
        }
        assert(all.take(i as int) =~= all);
        c
    }

    fn count_approvals(&self, k: &Option<String>) -> (r: usize)
        ensures
            r == self.approvals@.filter(approval_in(*self, opt_view(*k))).len(),
    {
        let ghost pred = approval_in(*self, opt_view(*k));
        let mut n: usize = 0;
        let mut i: usize = 0;
        while i < self.approvals.len()
            invariant
                i <= self.approvals.len(),
                pred == approval_in(*self, opt_view(*k)),
                n == self.approvals@.take(i as int).filter(pred).len(),
                n <= i,
            decreases self.approvals.len() - i,
        {
            proof {
                lemma_filter_step(self.approvals@, pred, i as int);
            }
            let a = &self.approvals[i];
            if a.status == ApprovalStatus::Pending && opt_same(&self.approval_project_of(a), k) {
                n += 1;
            }
            i += 1;
        }
        assert(self.approvals@.take(i as int) =~= self.approvals@);
        n
    }

    fn count_runs(&self, k: &Option<String>) -> (r: usize)
        ensures
            r == self.runs@.filter(run_in(*self, opt_view(*k))).len(),
    {
        let ghost pred = run_in(*self, opt_view(*k));
        let mut n: usize = 0;
        let mut i: usize = 0;
        while i < self.runs.len()
            invariant
                i <= self.runs.len(),
                pred == run_in(*self, opt_view(*k)),
                n == self.runs@.take(i as int).filter(pred).len(),
                n <= i,
            decreases self.runs.len() - i,
        {
            proof {
                lemma_filter_step(self.runs@, pred, i as int);
            }
            let x = &self.runs[i];
            let active = x.status == RunStatus::Pending || x.status == RunStatus::Running;
            let counted = active && match self.run_project_of(x) {
                Some(p) => opt_same(&p, k),
                None => false,
            };
            if counted {
                n += 1;
            }
            i += 1;
        }
        assert(self.runs@.take(i as int) =~= self.runs@);
        n
    }

    fn count_alerts(&self, statuses: &Vec<BudgetStatus>, k: &Option<String>) -> (r: usize)
        ensures
            r == statuses@.filter(alert_in(*self, opt_view(*k))).len(),
    {
        let ghost pred = alert_in(*self, opt_view(*k));
        let mut n: usize = 0;
        let mut i: usize = 0;
        while i < statuses.len()
            invariant
                i <= statuses.len(),
                pred == alert_in(*self, opt_view(*k)),
                n == statuses@.take(i as int).filter(pred).len(),
                n <= i,
            decreases statuses.len() - i,
        {
            proof {
                lemma_filter_step(statuses@, pred, i as int);
            }
            let x = &statuses[i];
            if (x.soft_exceeded || x.hard_exceeded) && opt_same(&self.budget_project_of(&x.budget), k) {
                n += 1;
            }
            i += 1;
        }
        assert(statuses@.take(i as int) =~= statuses@);
        n
    }
}


impl WorkStore {
    /// Every key of the list has work.
    pub open spec fn keys_active(self, ks: Seq<Option<String>>, statuses: Seq<BudgetStatus>) -> bool {
        forall|i: int| 0 <= i < ks.len() ==> self.has_activity(opt_view(#[trigger] ks[i]), statuses)
    }

    /// The first `ng` goals, `nt` tasks, `na` approvals, `nr` runs and `ns`
    /// statuses have the key they count under in the list.
    pub open spec fn covers(
        self,
        ks: Seq<Option<String>>,
        statuses: Seq<BudgetStatus>,
        ng: int,
        nt: int,
        na: int,
        nr: int,
        ns: int,
    ) -> bool {
        &&& forall|j: int| 0 <= j < ng ==> has_key(ks, opt_view((#[trigger] self.goals@[j]).project_id))
        &&& forall|j: int| 0 <= j < nt ==> has_key(ks, opt_view((#[trigger] self.tasks@[j]).project_id))
        &&& forall|j: int|
            0 <= j < na && (#[trigger] self.approvals@[j]).status == ApprovalStatus::Pending ==> has_key(
                ks,
                self.approval_project(self.approvals@[j]),
            )
        &&& forall|j: int|
            0 <= j < nr && is_active((#[trigger] self.runs@[j]).status) && self.run_project(self.runs@[j]) is Some
                ==> has_key(ks, self.run_project(self.runs@[j])->0)
        &&& forall|j: int| 0 <= j < ns && is_alert(#[trigger] statuses[j]) ==> has_key(ks, self.budget_project(statuses[j].budget))
    }

    /// The keys of every project with work, in project order.
    fn project_keys(&self, statuses: &Vec<BudgetStatus>) -> (ks: Vec<Option<String>>)
        ensures
            keys_sorted(ks@),
            self.keys_active(ks@, statuses@),
            forall|k: Option<Seq<char>>| #[trigger] self.has_activity(k, statuses@) ==> has_key(ks@, k),
    {
        let ghost st = statuses@;
        let mut keys: Vec<Option<String>> = Vec::new();
        let mut i: usize = 0;
        while i < self.goals.len()
            invariant
                i <= self.goals.len(),
                st == statuses@,
                keys_sorted(keys@),
                self.keys_active(keys@, st),
                self.covers(keys@, st, i as int, 0, 0, 0, 0),
            decreases self.goals.len() - i,
        {
            let k = clone_opt(&self.goals[i].project_id);
            proof {
                assert(goal_in(opt_view(k))(self.goals@[i as int]));
            }
            insert_key(&mut keys, k);
            i += 1;
        }
        let mut i: usize = 0;
        while i < self.tasks.len()
            invariant
                i <= self.tasks.len(),
                st == statuses@,
                keys_sorted(keys@),
                self.keys_active(keys@, st),
                self.covers(keys@, st, self.goals@.len() as int, i as int, 0, 0, 0),
            decreases self.tasks.len() - i,
        {
            let k = clone_opt(&self.tasks[i].project_id);
            proof {
                assert(opt_view(self.tasks@[i as int].project_id) == opt_view(k));
            }
            insert_key(&mut keys, k);
            i += 1;
        }
        let mut i: usize = 0;
        while i < self.approvals.len()
            invariant
                i <= self.approvals.len(),
                st == statuses@,
                keys_sorted(keys@),
                self.keys_active(keys@, st),
                self.covers(keys@, st, self.goals@.len() as int, self.tasks@.len() as int, i as int, 0, 0),
            decreases self.approvals.len() - i,
        {
            let a = &self.approvals[i];
            if a.status == ApprovalStatus::Pending {
                let k = self.approval_project_of(a);
                proof {
                    assert(approval_in(*self, opt_view(k))(self.approvals@[i as int]));
                }
                insert_key(&mut keys, k);
            }
            i += 1;
        }
        let mut i: usize = 0;
        while i < self.runs.len()
            invariant
                i <= self.runs.len(),
                st == statuses@,
                keys_sorted(keys@),
                self.keys_active(keys@, st),
                self.covers(
                    keys@,
                    st,
                    self.goals@.len() as int,
                    self.tasks@.len() as int,
                    self.approvals@.len() as int,
                    i as int,
                    0,
                ),
            decreases self.runs.len() - i,
        {
            let x = &self.runs[i];
            if x.status == RunStatus::Pending || x.status == RunStatus::Running {
                match self.run_project_of(x) {
                    Some(k) => {
                        proof {
                            assert(run_in(*self, opt_view(k))(self.runs@[i as int]));
                        }
                        insert_key(&mut keys, k);
                    },
                    None => {},
                }
            }
            i += 1;
        }
        let mut i: usize = 0;
        while i < statuses.len()
            invariant
                i <= statuses.len(),
                st == statuses@,
                keys_sorted(keys@),
                self.keys_active(keys@, st),
                self.covers(
                    keys@,
                    st,
                    self.goals@.len() as int,
                    self.tasks@.len() as int,
                    self.approvals@.len() as int,
                    self.runs@.len() as int,
                    i as int,
                ),
            decreases statuses.len() - i,
        {
            let x = &statuses[i];
            if x.soft_exceeded || x.hard_exceeded {
                let k = self.budget_project_of(&x.budget);
                proof {
                    assert(alert_in(*self, opt_view(k))(st[i as int]));
                }
                insert_key(&mut keys, k);
            }
            i += 1;
        }
        proof {
            assert forall|k: Option<Seq<char>>| #[trigger] self.has_activity(k, st) implies has_key(keys@, k) by {
                if exists|i: int| 0 <= i < self.goals@.len() && goal_in(k)(#[trigger] self.goals@[i]) {
                    let i = choose|i: int| 0 <= i < self.goals@.len() && goal_in(k)(#[trigger] self.goals@[i]);
                    assert(has_key(keys@, opt_view(self.goals@[i].project_id)));
                } else if exists|i: int| 0 <= i < self.tasks@.len() && opt_view((#[trigger] self.tasks@[i]).project_id) == k {
                    let i = choose|i: int| 0 <= i < self.tasks@.len() && opt_view((#[trigger] self.tasks@[i]).project_id) == k;
                    assert(has_key(keys@, opt_view(self.tasks@[i].project_id)));
                } else if exists|i: int| 0 <= i < self.approvals@.len() && approval_in(*self, k)(#[trigger] self.approvals@[i]) {
                    let i = choose|i: int| 0 <= i < self.approvals@.len() && approval_in(*self, k)(#[trigger] self.approvals@[i]);
                    assert(has_key(keys@, self.approval_project(self.approvals@[i])));
                } else if exists|i: int| 0 <= i < self.runs@.len() && run_in(*self, k)(#[trigger] self.runs@[i]) {
                    let i = choose|i: int| 0 <= i < self.runs@.len() && run_in(*self, k)(#[trigger] self.runs@[i]);
                    assert(has_key(keys@, self.run_project(self.runs@[i])->0));
                } else {
                    let i = choose|i: int| 0 <= i < st.len() && alert_in(*self, k)(#[trigger] st[i]);
                    assert(has_key(keys@, self.budget_project(st[i].budget)));
                }
            }
        }
        keys
    }
}


/// Cross-project dependencies are ordered by task title, then by the title
/// of the task depended on.
pub open spec fn cross_keys(c: Seq<CrossProjectDependency>) -> Seq<Seq<KeyView>> {
    c.map_values(|x: CrossProjectDependency| seq![KeyView::Text(x.task_title@), KeyView::Text(x.depends_on_task_title@)])
}

impl WorkStore {
    /// A dependency of `t` on a known task of another project (or of a
    /// project where `t` has none, or of none where `t` has one).
    pub open spec fn crosses(self, t: Task) -> spec_fn(String) -> bool {
        |d: String| self.task_at(d@) matches Some(i) && opt_view(self.tasks@[i].project_id) != opt_view(t.project_id)
    }

    /// The entry for a dependency of `t` on the task with id `d`.
    pub open spec fn cross_entry(self, t: Task) -> spec_fn(String) -> CrossProjectDependency {
        |d: String| {
            let dep = self.tasks@[self.task_at(d@)->0];
            CrossProjectDependency {
                task_id: t.id,
                task_title: t.title,
                task_project_id: t.project_id,
                depends_on_task_id: dep.id,
                depends_on_task_title: dep.title,
                depends_on_project_id: dep.project_id,
            }
        }
    }

    /// The cross-project dependencies of one task, in the order of its
    /// dependencies.
    pub open spec fn task_crossings(self, t: Task) -> Seq<CrossProjectDependency> {
        t.blocked_by@.filter(self.crosses(t)).map_values(self.cross_entry(t))
    }

    /// The cross-project dependencies of tasks, task by task.
    pub open spec fn crossings(self, all: Seq<Task>) -> Seq<CrossProjectDependency>
        decreases all.len(),
    {
        if all.len() == 0 {
            Seq::empty()
        } else {
            self.crossings(all.drop_last()) + self.task_crossings(all.last())
        }
    }

    /// The dependencies between tasks of different projects, by task title
    /// and then by the title of the task depended on.
    pub fn cross_project_dependencies(&self, tasks: &Vec<Task>) -> (r: Vec<CrossProjectDependency>)
        ensures
            is_ordering(r@, self.crossings(tasks@), cross_keys(self.crossings(tasks@)), false),
    {
        let mut found: Vec<CrossProjectDependency> = Vec::new();
        let mut i: usize = 0;
        while i < tasks.len()
            invariant
                i <= tasks.len(),
                found@ == self.crossings(tasks@.take(i as int)),
            decreases tasks.len() - i,
        {
            let t = &tasks[i];
            let ghost before = found@;
            let ghost pred = self.crosses(*t);
            let ghost f = self.cross_entry(*t);
            let mut j: usize = 0;
            while j < t.blocked_by.len()
                invariant
                    j <= t.blocked_by.len(),
                    t == tasks@[i as int],
                    pred == self.crosses(*t),
                    f == self.cross_entry(*t),
                    found@ == before + t.blocked_by@.take(j as int).filter(pred).map_values(f),
                decreases t.blocked_by.len() - j,
            {
                proof {
                    lemma_filter_step(t.blocked_by@, pred, j as int);
                }
                let ghost chosen = t.blocked_by@.take(j as int).filter(pred);
                let d = &t.blocked_by[j];
                match self.task_position(d.as_str()) {
                    Some(p) => {
                        let dep = &self.tasks[p];
                        if !opt_same(&dep.project_id, &t.project_id) {
                            found.push(CrossProjectDependency {
                                task_id: t.id.clone(),
                                task_title: t.title.clone(),
                                task_project_id: clone_opt(&t.project_id),
                                depends_on_task_id: dep.id.clone(),
                                depends_on_task_title: dep.title.clone(),
                                depends_on_project_id: clone_opt(&dep.project_id),
                            });
                            assert(chosen.push(t.blocked_by@[j as int]).map_values(f) =~= chosen.map_values(f).push(
                                f(t.blocked_by@[j as int]),
                            ));
                        }
                    },
                    None => {},
                }
                j += 1;
                assert(found@ =~= before + t.blocked_by@.take(j as int).filter(pred).map_values(f));
            }
            assert(t.blocked_by@.take(j as int) =~= t.blocked_by@);
            assert(tasks@.take(i as int + 1).drop_last() =~= tasks@.take(i as int));
            i += 1;
        }
        assert(tasks@.take(i as int) =~= tasks@);
        let mut keys: Vec<Vec<KeyPart>> = Vec::new();
        let mut k: usize = 0;
        while k < found.len()
            invariant
                k <= found.len(),
                keys.len() == k,
                forall|y: int|
                    0 <= y < k ==> key_view(#[trigger] keys@[y]) == seq![
                        KeyView::Text(found@[y].task_title@),
                        KeyView::Text(found@[y].depends_on_task_title@),
                    ],
            decreases found.len() - k,
        {
            let mut key: Vec<KeyPart> = Vec::new();
            key.push(KeyPart::Text(chars_of(found[k].task_title.as_str())));
            key.push(KeyPart::Text(chars_of(found[k].depends_on_task_title.as_str())));
            assert(key_view(key) =~= seq![
                KeyView::Text(found@[k as int].task_title@),
                KeyView::Text(found@[k as int].depends_on_task_title@),
            ]);
            keys.push(key);
            k += 1;
        }
        assert(keys_view(keys@) =~= cross_keys(found@));
        let order = sort_order(&keys, false);
        let mut out: Vec<CrossProjectDependency> = Vec::new();
        let mut m: usize = 0;
        while m < order.len()
            invariant
                m <= order.len(),
                order.len() == found.len(),
                out.len() == m,
                forall|y: int| 0 <= y < order.len() ==> order@[y] < found.len(),
                forall|y: int| 0 <= y < m ==> out@[y] == found@[order@[y] as int],
            decreases order.len() - m,
        {
            out.push(copy_cross(&found[order[m]]));
            m += 1;
        }
        assert(is_sorted_order(cross_keys(found@), order@, false));
        out
    }
}

fn copy_cross(c: &CrossProjectDependency) -> (r: CrossProjectDependency)
    ensures
        r == *c,
{
    CrossProjectDependency {
        task_id: c.task_id.clone(),
        task_title: c.task_title.clone(),
        task_project_id: clone_opt(&c.task_project_id),
        depends_on_task_id: c.depends_on_task_id.clone(),
        depends_on_task_title: c.depends_on_task_title.clone(),
        depends_on_project_id: clone_opt(&c.depends_on_project_id),
    }
}


impl WorkStore {
    /// Every project with work, with its goal count, task counts by status,
    /// pending approvals, unfinished runs and budget alerts (given the
    /// caller's dollar tallies in the order the budgets are listed), and the
    /// dependencies between tasks of different projects.
    pub fn portfolio(&self, usd: &Vec<UsdTally>) -> (r: Result<WorkPortfolio, WorkError>)
        ensures
            match r {
                Err(e) => e is TokenTotalOverflow && tokens_overflow(self.costs@, self.budgets@),
                Ok(pf) => {
                    &&& !tokens_overflow(self.costs@, self.budgets@)
                    &&& exists|bl: Seq<WorkBudget>|
                        #[trigger] is_ordering(bl, self.budgets@, budget_keys(self.budgets@), false) && self.projects_listed(
                            pf.projects@,
                            statuses_of(self.costs@, bl, usd@),
                        )
                    &&& exists|all: Seq<Task>|
                        #[trigger] is_ordering(task_rows(all), self.tasks@, task_recency_keys(self.tasks@), true)
                            && (forall|k: int|
                            0 <= k < all.len() ==> task_assembled(
                                #[trigger] all[k],
                                all[k].row(),
                                self.task_deps(all[k].id@),
                            )) && is_ordering(
                            pf.cross_project_dependencies@,
                            self.crossings(all),
                            cross_keys(self.crossings(all)),
                            false,
                        )
                },
            },
    {
        let budget_rows = self.list_budgets(None, None);
        proof {
            lemma_filter_all(self.budgets@, budget_filter(None, None));
            crate::order::lemma_ordering_members(budget_rows@, self.budgets@, budget_keys(self.budgets@), false);
            lemma_overflow_same(self.costs@, budget_rows@, self.budgets@);
        }
        let statuses = match self.budget_statuses(&budget_rows, usd) {
            Ok(v) => v,
            Err(e) => return Err(e),
        };
        let keys = self.project_keys(&statuses);
        let mut projects: Vec<ProjectWorkSummary> = Vec::new();
        let mut i: usize = 0;
        while i < keys.len()
            invariant
                i <= keys.len(),
                projects.len() == i,
                forall|x: int| 0 <= x < i ==> (#[trigger] projects@[x]).project_id == keys@[x],
                forall|x: int| 0 <= x < i ==> self.summary_matches(#[trigger] projects@[x], statuses@),
            decreases keys.len() - i,
        {
            let k = &keys[i];
            let summary = ProjectWorkSummary {
                project_id: clone_opt(k),
                goal_count: self.count_goals(k),
                task_counts: self.count_tasks(k),
                pending_approvals: self.count_approvals(k),
                active_runs: self.count_runs(k),
                budget_alerts: self.count_alerts(&statuses, k),
            };
            projects.push(summary);
            i += 1;
        }
        let filter = TaskFilter {
            list_key: None,
            goal_id: None,
            project_id: None,
            session_key: None,
            owner: None,
            status: None,
        };
        let tasks = self.list_tasks(&filter);
        proof {
            lemma_filter_all(self.tasks@, task_filter(filter));
        }
        let cross = self.cross_project_dependencies(&tasks);
        let pf = WorkPortfolio { projects, cross_project_dependencies: cross };
        proof {
            assert forall|a: int, b: int| 0 <= a < b < pf.projects@.len() implies opt_text_lt(
                opt_view((#[trigger] pf.projects@[a]).project_id),
                opt_view((#[trigger] pf.projects@[b]).project_id),
            ) by {
                assert(opt_text_lt(opt_view(keys@[a]), opt_view(keys@[b])));
            }
            assert forall|a: int| 0 <= a < pf.projects@.len() implies self.summary_matches(#[trigger] pf.projects@[a], statuses@)
                && self.has_activity(opt_view(pf.projects@[a].project_id), statuses@) by {
                assert(self.has_activity(opt_view(keys@[a]), statuses@));
            }
            assert forall|k: Option<Seq<char>>| #[trigger] self.has_activity(k, statuses@) implies exists|a: int|
                0 <= a < pf.projects@.len() && opt_view((#[trigger] pf.projects@[a]).project_id) == k by {
                assert(has_key(keys@, k));
                let a = choose|a: int| 0 <= a < keys@.len() && opt_view(#[trigger] keys@[a]) == k;
                assert(pf.projects@[a].project_id == keys@[a]);
            }
            assert(self.projects_listed(pf.projects@, statuses@));
            assert(is_ordering(budget_rows@, self.budgets@, budget_keys(self.budgets@), false));
            assert(is_ordering(task_rows(tasks@), self.tasks@, task_recency_keys(self.tasks@), true));
        }
        Ok(pf)
    }
}

} // verus!
