//! Importing a whole work package: its goal and task records, read from the
//! package's markdown files, and its budget entries, read from its manifest.

use vstd::prelude::*;

use crate::budget::{budget_scopes, saved_budget};
use crate::error::{RecordKind, WorkError};
use crate::goals::{goal_ids, imported_goal};
use crate::portability::imported_task_row;
use crate::records::{Goal, NewWorkBudget, WorkBudget};
use crate::store::{deps_replaced, task_ids, Dependency, TaskRow, WorkStore};
use crate::text::{clone_opt, clone_strings, first_at, first_index, lemma_first_at, lemma_first_at_facts, lemma_first_index, lemma_first_index_facts, texts};
use crate::store::{dep_targets, lemma_deps_replaced};
use crate::types::{GoalStatus, TaskPriority, TaskStatus};

verus! {

/// A goal as a package's goal file records it.
#[derive(Debug, Clone)]
pub struct GoalRecord {
    pub id: String,
    pub slug: Option<String>,
    pub title: String,
    pub description: Option<String>,
    pub status: GoalStatus,
    pub project_id: Option<String>,
    pub parent_goal_id: Option<String>,
}

/// A task as a package's task file records it.
#[derive(Debug, Clone)]
pub struct TaskRecord {
    pub id: String,
    pub list_key: Option<String>,
    pub title: String,
    pub description: Option<String>,
    pub status: TaskStatus,
    pub priority: TaskPriority,
    pub goal_id: Option<String>,
    pub parent_task_id: Option<String>,
    pub owner: Option<String>,
    pub project_id: Option<String>,
    pub blocked_by: Vec<String>,
}

/// How many records of each kind an import read.
#[derive(Debug, Clone)]
pub struct PackageImportCounts {
    pub goals_imported: usize,
    pub tasks_imported: usize,
    pub budgets_imported: usize,
}

/// The goal a record becomes, over the stored goal with its id if any.
pub open spec fn goal_of_record(existing: Option<Goal>, r: GoalRecord, now: String) -> Goal {
    imported_goal(existing, r.id, r.slug, r.title, r.description, r.status, r.project_id, r.parent_goal_id, now)
}

/// The goals after importing one record: the goal with its id takes it, or
/// it is added.
pub open spec fn goal_upsert(gs: Seq<Goal>, r: GoalRecord, now: String) -> Seq<Goal> {
    match first_index(goal_ids(gs), r.id@) {
        Some(i) => gs.update(i, goal_of_record(Some(gs[i]), r, now)),
        None => gs.push(goal_of_record(None, r, now)),
    }
}

/// The goals after importing the first `n` records, in order.
pub open spec fn goals_after(gs: Seq<Goal>, recs: Seq<GoalRecord>, n: int, now: String) -> Seq<Goal>
    decreases n,
{
    if n <= 0 {
        gs
    } else {
        goal_upsert(goals_after(gs, recs, n - 1, now), recs[n - 1], now)
    }
}

/// The task row a record becomes, over the stored row with its id if any.
pub open spec fn task_of_record(existing: Option<TaskRow>, r: TaskRecord, now: String) -> TaskRow {
    imported_task_row(
        existing,
        r.id,
        r.list_key,
        r.title,
        r.description,
        r.status,
        r.priority,
        r.goal_id,
        r.parent_task_id,
        r.owner,
        r.project_id,
        now,
    )
}

/// The task rows after importing one record.
pub open spec fn task_upsert(ts: Seq<TaskRow>, r: TaskRecord, now: String) -> Seq<TaskRow> {
    match first_index(task_ids(ts), r.id@) {
        Some(i) => ts.update(i, task_of_record(Some(ts[i]), r, now)),
        None => ts.push(task_of_record(None, r, now)),
    }
}

/// The task rows after importing the first `n` records, in order.
pub open spec fn tasks_after(ts: Seq<TaskRow>, recs: Seq<TaskRecord>, n: int, now: String) -> Seq<TaskRow>
    decreases n,
{
    if n <= 0 {
        ts
    } else {
        task_upsert(tasks_after(ts, recs, n - 1, now), recs[n - 1], now)
    }
}

/// The dependencies after importing the first `n` task records: each
/// record's task depends on exactly the tasks it names.
pub open spec fn deps_after(deps: Seq<Dependency>, recs: Seq<TaskRecord>, n: int) -> Seq<Dependency>
    decreases n,
{
    if n <= 0 {
        deps
    } else {
        deps_replaced(deps_after(deps, recs, n - 1), recs[n - 1].id, recs[n - 1].blocked_by@)
    }
}

/// The ids of budgets.
pub open spec fn budget_ids(bs: Seq<WorkBudget>) -> Seq<Seq<char>> {
    bs.map_values(|x: WorkBudget| x.id@)
}

/// The budgets after saving one entry with `id` for a new budget: the
/// scope's budget takes its limits, or a new one is added; none when the
/// new budget's id is taken.
pub open spec fn budget_upsert(bs: Seq<WorkBudget>, b: NewWorkBudget, id: String, now: String) -> Option<Seq<WorkBudget>> {
    match first_at(budget_scopes(bs), (b.scope, b.scope_id@)) {
        Some(i) => Some(bs.update(i, saved_budget(b, bs[i].id, bs[i].created_at, now))),
        None => if first_index(budget_ids(bs), id@) is Some {
            None
        } else {
            Some(bs.push(saved_budget(b, id, now, now)))
        },
    }
}

/// The budgets after saving the first `n` entries, in order, the `k`th with
/// `ids[k]` for a new budget; none when one of those ids is taken.
pub open spec fn budgets_after(
    bs: Seq<WorkBudget>,
    entries: Seq<NewWorkBudget>,
    ids: Seq<String>,
    n: int,
    now: String,
) -> Option<Seq<WorkBudget>>
    decreases n,
{
    if n <= 0 {
        Some(bs)
    } else {
        match budgets_after(bs, entries, ids, n - 1, now) {
            Some(prev) => budget_upsert(prev, entries[n - 1], ids[n - 1], now),
            None => None,
        }
    }
}

/// What importing a package does: its goal records, then its task records,
/// then its budget entries, each in order, as a single record import does;
/// a budget entry whose new id is taken stops the import there.
pub open spec fn package_imported(
    before: WorkStore,
    after: WorkStore,
    goals: Seq<GoalRecord>,
    tasks: Seq<TaskRecord>,
    budgets: Seq<NewWorkBudget>,
    ids: Seq<String>,
    now: String,
    r: Result<PackageImportCounts, WorkError>,
) -> bool {
    &&& after.goals@ == goals_after(before.goals@, goals, goals.len() as int, now)
    &&& after.tasks@ == tasks_after(before.tasks@, tasks, tasks.len() as int, now)
    &&& after.task_dependencies@ == deps_after(before.task_dependencies@, tasks, tasks.len() as int)
    &&& after.templates == before.templates
    &&& after.template_dependencies == before.template_dependencies
    &&& after.comments == before.comments
    &&& after.links == before.links
    &&& after.runs == before.runs
    &&& after.approvals == before.approvals
    &&& after.costs == before.costs
    &&& after.recurring == before.recurring
    &&& after.materializations == before.materializations
    &&& match r {
        Ok(c) => {
            &&& c.goals_imported == goals.len() && c.tasks_imported == tasks.len() && c.budgets_imported == budgets.len()
            &&& budgets_after(before.budgets@, budgets, ids, budgets.len() as int, now) == Some(after.budgets@)
        },
        Err(e) => exists|k: int|
            0 <= k < budgets.len() && #[trigger] budgets_after(before.budgets@, budgets, ids, k, now) == Some(after.budgets@)
                && budget_upsert(after.budgets@, budgets[k], ids[k], now) is None && e.is_duplicate(RecordKind::Budget, ids[k]@),
    }
}

/// The ids of goal records.
pub open spec fn goal_record_ids(recs: Seq<GoalRecord>) -> Seq<Seq<char>> {
    recs.map_values(|r: GoalRecord| r.id@)
}

/// The ids of task records.
pub open spec fn task_record_ids(recs: Seq<TaskRecord>) -> Seq<Seq<char>> {
    recs.map_values(|r: TaskRecord| r.id@)
}

/// The scopes of budget entries.
pub open spec fn entry_scopes(entries: Seq<NewWorkBudget>) -> Seq<(crate::types::BudgetScope, Seq<char>)> {
    entries.map_values(|b: NewWorkBudget| (b.scope, b.scope_id@))
}

/// The goal holds what the record says.
pub open spec fn holds_goal_record(g: Goal, r: GoalRecord) -> bool {
    &&& g.id == r.id && g.slug == r.slug && g.title == r.title && g.description == r.description
    &&& g.status == r.status && g.project_id == r.project_id && g.parent_goal_id == r.parent_goal_id
}

/// The task row holds what the record says.
pub open spec fn holds_task_record(t: TaskRow, r: TaskRecord) -> bool {
    &&& t.id == r.id && t.list_key == r.list_key && t.title == r.title && t.description == r.description
    &&& t.status == r.status && t.priority == r.priority && t.goal_id == r.goal_id
    &&& t.parent_task_id == r.parent_task_id && t.owner == r.owner && t.project_id == r.project_id
}

/// The budget holds what the entry says.
pub open spec fn holds_budget_entry(w: WorkBudget, b: NewWorkBudget) -> bool {
    &&& w.scope == b.scope && w.scope_id == b.scope_id
    &&& w.soft_limit_tokens == b.soft_limit_tokens && w.hard_limit_tokens == b.hard_limit_tokens
    &&& w.soft_limit_usd_bits == b.soft_limit_usd_bits && w.hard_limit_usd_bits == b.hard_limit_usd_bits
    &&& w.note == b.note
}

/// The first goal with the record's id holds the record.
pub open spec fn goal_found(gs: Seq<Goal>, r: GoalRecord) -> bool {
    match first_index(goal_ids(gs), r.id@) {
        Some(i) => 0 <= i < gs.len() && holds_goal_record(gs[i], r),
        None => false,
    }
}

/// The first task row with the record's id holds the record, and the task
/// depends on what the record names.
pub open spec fn task_found(ts: Seq<TaskRow>, deps: Seq<Dependency>, r: TaskRecord) -> bool {
    &&& dep_targets(deps, r.id@) == texts(r.blocked_by@)
    &&& match first_index(task_ids(ts), r.id@) {
        Some(i) => 0 <= i < ts.len() && holds_task_record(ts[i], r),
        None => false,
    }
}

/// The first budget of the entry's scope holds the entry.
pub open spec fn budget_found(bs: Seq<WorkBudget>, b: NewWorkBudget) -> bool {
    match first_at(budget_scopes(bs), (b.scope, b.scope_id@)) {
        Some(i) => 0 <= i < bs.len() && holds_budget_entry(bs[i], b),
        None => false,
    }
}

/// The goals `a` are the goals `b` but for their update times.
pub open spec fn goals_differ_in_update_times(a: Seq<Goal>, b: Seq<Goal>) -> bool {
    &&& a.len() == b.len()
    &&& forall|i: int| 0 <= i < a.len() ==> #[trigger] a[i] == Goal { updated_at: a[i].updated_at, ..b[i] }
}

/// The task rows `a` are the rows `b` but for their update times.
pub open spec fn tasks_differ_in_update_times(a: Seq<TaskRow>, b: Seq<TaskRow>) -> bool {
    &&& a.len() == b.len()
    &&& forall|i: int| 0 <= i < a.len() ==> #[trigger] a[i] == TaskRow { updated_at: a[i].updated_at, ..b[i] }
}

/// The budgets `a` are the budgets `b` but for their update times.
pub open spec fn budgets_differ_in_update_times(a: Seq<WorkBudget>, b: Seq<WorkBudget>) -> bool {
    &&& a.len() == b.len()
    &&& forall|i: int| 0 <= i < a.len() ==> #[trigger] a[i] == WorkBudget { updated_at: a[i].updated_at, ..b[i] }
}

/// After importing goal records with distinct ids, the first goal with each
/// record's id holds that record.
pub proof fn lemma_goals_hold_records(gs: Seq<Goal>, recs: Seq<GoalRecord>, k: int, now: String)
    requires
        goal_record_ids(recs).no_duplicates(),
        0 <= k <= recs.len(),
    ensures
        forall|j: int| 0 <= j < k ==> goal_found(goals_after(gs, recs, k, now), #[trigger] recs[j]),
    decreases k,
{
    if k > 0 {
        lemma_goals_hold_records(gs, recs, k - 1, now);
        let h = goals_after(gs, recs, k - 1, now);
        let r = recs[k - 1];
        let ids = goal_ids(h);
        let h2 = goals_after(gs, recs, k, now);
        assert(h2 == goal_upsert(h, r, now));
        lemma_first_index_facts(ids, r.id@);
        assert forall|j: int| 0 <= j < k - 1 implies recs[j].id@ != r.id@ by {
            assert(goal_record_ids(recs)[j] == recs[j].id@);
            assert(goal_record_ids(recs)[k - 1] == r.id@);
        }
        match first_index(ids, r.id@) {
            Some(i) => {
                assert(goal_ids(h2) =~= ids);
                assert forall|j: int| 0 <= j < k implies goal_found(h2, #[trigger] recs[j]) by {
                    if j < k - 1 {
                        let x = first_index(ids, recs[j].id@)->0;
                        lemma_first_index_facts(ids, recs[j].id@);
                        assert(x != i);
                    }
                }
            },
            None => {
                let ids2 = goal_ids(h2);
                assert(ids2 =~= ids.push(r.id@));
                assert forall|j: int| 0 <= j < k implies goal_found(h2, #[trigger] recs[j]) by {
                    if j < k - 1 {
                        let x = first_index(ids, recs[j].id@)->0;
                        lemma_first_index_facts(ids, recs[j].id@);
                        lemma_first_index(ids2, recs[j].id@, x);
                        assert(h2[x] == h[x]);
                    } else {
                        lemma_first_index(ids2, r.id@, ids.len() as int);
                    }
                }
            },
        }
    }
}

/// Importing goal records into goals that already hold each of them, but
/// for update times, changes nothing but update times.
pub proof fn lemma_goals_reimport(h: Seq<Goal>, g1: Seq<Goal>, recs: Seq<GoalRecord>, k: int, now: String)
    requires
        goals_differ_in_update_times(h, g1),
        forall|j: int| 0 <= j < recs.len() ==> goal_found(g1, #[trigger] recs[j]),
        0 <= k <= recs.len(),
    ensures
        goals_differ_in_update_times(goals_after(h, recs, k, now), g1),
    decreases k,
{
    if k > 0 {
        lemma_goals_reimport(h, g1, recs, k - 1, now);
        let hk = goals_after(h, recs, k - 1, now);
        let r = recs[k - 1];
        assert(goal_ids(hk) =~= goal_ids(g1)) by {
            assert forall|x: int| 0 <= x < hk.len() implies goal_ids(hk)[x] == goal_ids(g1)[x] by {
                assert(hk[x] == Goal { updated_at: hk[x].updated_at, ..g1[x] });
            }
        }
        let i = first_index(goal_ids(g1), r.id@)->0;
        let h2 = goals_after(h, recs, k, now);
        assert(h2 == hk.update(i, goal_of_record(Some(hk[i]), r, now)));
        assert(hk[i] == Goal { updated_at: hk[i].updated_at, ..g1[i] });
        assert forall|x: int| 0 <= x < h2.len() implies #[trigger] h2[x] == Goal { updated_at: h2[x].updated_at, ..g1[x] } by {
            if x != i {
                assert(h2[x] == hk[x]);
                assert(hk[x] == Goal { updated_at: hk[x].updated_at, ..g1[x] });
            }
        }
    }
}

/// After importing task records with distinct ids, the first row with each
/// record's id holds that record, and its dependencies are those it names.
pub proof fn lemma_tasks_hold_records(ts: Seq<TaskRow>, deps: Seq<Dependency>, recs: Seq<TaskRecord>, k: int, now: String)
    requires
        task_record_ids(recs).no_duplicates(),
        0 <= k <= recs.len(),
    ensures
        forall|j: int| 0 <= j < k ==> task_found(tasks_after(ts, recs, k, now), deps_after(deps, recs, k), #[trigger] recs[j]),
    decreases k,
{
    if k > 0 {
        lemma_tasks_hold_records(ts, deps, recs, k - 1, now);
        let h = tasks_after(ts, recs, k - 1, now);
        let d = deps_after(deps, recs, k - 1);
        let r = recs[k - 1];
        let ids = task_ids(h);
        let h2 = tasks_after(ts, recs, k, now);
        assert(h2 == task_upsert(h, r, now));
        assert(deps_after(deps, recs, k) == deps_replaced(d, r.id, r.blocked_by@));
        lemma_first_index_facts(ids, r.id@);
        assert forall|j: int| 0 <= j < k - 1 implies recs[j].id@ != r.id@ by {
            assert(task_record_ids(recs)[j] == recs[j].id@);
            assert(task_record_ids(recs)[k - 1] == r.id@);
        }
        assert forall|j: int| 0 <= j < k implies dep_targets(deps_after(deps, recs, k), #[trigger] recs[j].id@) == texts(
            recs[j].blocked_by@,
        ) by {
            lemma_deps_replaced(d, r.id, r.blocked_by@, recs[j].id@);
            if j < k - 1 {
                assert(task_found(h, d, recs[j]));
            }
        }
        match first_index(ids, r.id@) {
            Some(i) => {
                assert(task_ids(h2) =~= ids);
                assert forall|j: int| 0 <= j < k implies task_found(h2, deps_after(deps, recs, k), #[trigger] recs[j]) by {
                    assert(dep_targets(deps_after(deps, recs, k), recs[j].id@) == texts(recs[j].blocked_by@));
                    if j < k - 1 {
                        let x = first_index(ids, recs[j].id@)->0;
                        lemma_first_index_facts(ids, recs[j].id@);
                        assert(x != i);
                    }
                }
            },
            None => {
                let ids2 = task_ids(h2);
                assert(ids2 =~= ids.push(r.id@));
                assert forall|j: int| 0 <= j < k implies task_found(h2, deps_after(deps, recs, k), #[trigger] recs[j]) by {
                    assert(dep_targets(deps_after(deps, recs, k), recs[j].id@) == texts(recs[j].blocked_by@));
                    if j < k - 1 {
                        let x = first_index(ids, recs[j].id@)->0;
                        lemma_first_index_facts(ids, recs[j].id@);
                        lemma_first_index(ids2, recs[j].id@, x);
                        assert(h2[x] == h[x]);
                    } else {
                        lemma_first_index(ids2, r.id@, ids.len() as int);
                    }
                }
            },
        }
    }
}

/// Importing task records into rows that already hold each of them, but
/// for update times, with the dependencies each names, changes nothing but
/// update times, and no task's dependencies.
pub proof fn lemma_tasks_reimport(
    h: Seq<TaskRow>,
    t1: Seq<TaskRow>,
    hd: Seq<Dependency>,
    d1: Seq<Dependency>,
    recs: Seq<TaskRecord>,
    k: int,
    now: String,
)
    requires
        tasks_differ_in_update_times(h, t1),
        forall|x: Seq<char>| #[trigger] dep_targets(hd, x) == dep_targets(d1, x),
        forall|j: int| 0 <= j < recs.len() ==> task_found(t1, d1, #[trigger] recs[j]),
        0 <= k <= recs.len(),
    ensures
        tasks_differ_in_update_times(tasks_after(h, recs, k, now), t1),
        forall|x: Seq<char>| #[trigger] dep_targets(deps_after(hd, recs, k), x) == dep_targets(d1, x),
    decreases k,
{
    if k > 0 {
        lemma_tasks_reimport(h, t1, hd, d1, recs, k - 1, now);
        let hk = tasks_after(h, recs, k - 1, now);
        let dk = deps_after(hd, recs, k - 1);
        let r = recs[k - 1];
        assert(task_ids(hk) =~= task_ids(t1)) by {
            assert forall|x: int| 0 <= x < hk.len() implies task_ids(hk)[x] == task_ids(t1)[x] by {
                assert(hk[x] == TaskRow { updated_at: hk[x].updated_at, ..t1[x] });
            }
        }
        let i = first_index(task_ids(t1), r.id@)->0;
        let h2 = tasks_after(h, recs, k, now);
        assert(h2 == hk.update(i, task_of_record(Some(hk[i]), r, now)));
        assert(hk[i] == TaskRow { updated_at: hk[i].updated_at, ..t1[i] });
        assert forall|x: int| 0 <= x < h2.len() implies #[trigger] h2[x] == TaskRow { updated_at: h2[x].updated_at, ..t1[x] } by {
            if x != i {
                assert(h2[x] == hk[x]);
                assert(hk[x] == TaskRow { updated_at: hk[x].updated_at, ..t1[x] });
            }
        }
        assert(deps_after(hd, recs, k) == deps_replaced(dk, r.id, r.blocked_by@));
        assert forall|x: Seq<char>| #[trigger] dep_targets(deps_after(hd, recs, k), x) == dep_targets(d1, x) by {
            lemma_deps_replaced(dk, r.id, r.blocked_by@, x);
            assert(dep_targets(dk, x) == dep_targets(d1, x));
        }
    }
}

/// After saving budget entries with distinct scopes, the first budget of
/// each entry's scope holds that entry.
pub proof fn lemma_budgets_hold_entries(bs: Seq<WorkBudget>, entries: Seq<NewWorkBudget>, ids: Seq<String>, k: int, now: String)
    requires
        entry_scopes(entries).no_duplicates(),
        0 <= k <= entries.len(),
        budgets_after(bs, entries, ids, k, now) is Some,
    ensures
        forall|j: int| 0 <= j < k ==> budget_found(budgets_after(bs, entries, ids, k, now)->0, #[trigger] entries[j]),
    decreases k,
{
    if k > 0 {
        assert(budgets_after(bs, entries, ids, k - 1, now) is Some);
        lemma_budgets_hold_entries(bs, entries, ids, k - 1, now);
        let h = budgets_after(bs, entries, ids, k - 1, now)->0;
        let b = entries[k - 1];
        let key = (b.scope, b.scope_id@);
        let keys = budget_scopes(h);
        let h2 = budgets_after(bs, entries, ids, k, now)->0;
        assert(Some(h2) == budget_upsert(h, b, ids[k - 1], now));
        assert(entry_scopes(entries)[k - 1] == key);
        lemma_first_at_facts(keys, key);
        match first_at(keys, key) {
            Some(i) => {
                assert(budget_scopes(h2) =~= keys);
                assert forall|j: int| 0 <= j < k implies budget_found(h2, #[trigger] entries[j]) by {
                    assert(entry_scopes(entries)[j] == (entries[j].scope, entries[j].scope_id@));
                    if j < k - 1 {
                        let x = first_at(keys, entry_scopes(entries)[j])->0;
                        lemma_first_at_facts(keys, entry_scopes(entries)[j]);
                        assert(entry_scopes(entries)[j] != key);
                        assert(x != i);
                    }
                }
            },
            None => {
                let keys2 = budget_scopes(h2);
                assert(keys2 =~= keys.push(key));
                assert forall|j: int| 0 <= j < k implies budget_found(h2, #[trigger] entries[j]) by {
                    assert(entry_scopes(entries)[j] == (entries[j].scope, entries[j].scope_id@));
                    if j < k - 1 {
                        let x = first_at(keys, entry_scopes(entries)[j])->0;
                        lemma_first_at_facts(keys, entry_scopes(entries)[j]);
                        assert forall|y: int| 0 <= y < x implies keys2[y] != entry_scopes(entries)[j] by {
                            assert(keys2[y] == keys[y]);
                        }
                        lemma_first_at(keys2, entry_scopes(entries)[j], x);
                        assert(h2[x] == h[x]);
                    } else {
                        lemma_first_at(keys2, key, keys.len() as int);
                    }
                }
            },
        }
    }
}

/// Saving budget entries into budgets that already hold each of them, but
/// for update times, writes no new budget and changes nothing but update
/// times, whatever ids were drawn.
pub proof fn lemma_budgets_reimport(
    h: Seq<WorkBudget>,
    b1: Seq<WorkBudget>,
    entries: Seq<NewWorkBudget>,
    ids: Seq<String>,
    k: int,
    now: String,
)
    requires
        budgets_differ_in_update_times(h, b1),
        forall|j: int| 0 <= j < entries.len() ==> budget_found(b1, #[trigger] entries[j]),
        0 <= k <= entries.len(),
    ensures
        budgets_after(h, entries, ids, k, now) matches Some(hk) && budgets_differ_in_update_times(hk, b1),
    decreases k,
{
    if k > 0 {
        lemma_budgets_reimport(h, b1, entries, ids, k - 1, now);
        let hk = budgets_after(h, entries, ids, k - 1, now)->0;
        let b = entries[k - 1];
        assert(entry_scopes(entries)[k - 1] == (b.scope, b.scope_id@));
        assert(budget_scopes(hk) =~= budget_scopes(b1)) by {
            assert forall|x: int| 0 <= x < hk.len() implies budget_scopes(hk)[x] == budget_scopes(b1)[x] by {
                assert(hk[x] == WorkBudget { updated_at: hk[x].updated_at, ..b1[x] });
            }
        }
        let i = first_at(budget_scopes(b1), (b.scope, b.scope_id@))->0;
        let h2 = hk.update(i, saved_budget(b, hk[i].id, hk[i].created_at, now));
        assert(budgets_after(h, entries, ids, k, now) == Some(h2));
        assert(hk[i] == WorkBudget { updated_at: hk[i].updated_at, ..b1[i] });
        assert forall|x: int| 0 <= x < h2.len() implies #[trigger] h2[x] == WorkBudget { updated_at: h2[x].updated_at, ..b1[x] } by {
            if x != i {
                assert(h2[x] == hk[x]);
                assert(hk[x] == WorkBudget { updated_at: hk[x].updated_at, ..b1[x] });
            }
        }
    }
}


fn copy_budget_entry(b: &NewWorkBudget) -> (r: NewWorkBudget)
    ensures
        r == *b,
{
    NewWorkBudget {
        scope: b.scope,
        scope_id: b.scope_id.clone(),
        soft_limit_tokens: b.soft_limit_tokens,
        hard_limit_tokens: b.hard_limit_tokens,
        soft_limit_usd_bits: b.soft_limit_usd_bits,
        hard_limit_usd_bits: b.hard_limit_usd_bits,
        note: clone_opt(&b.note),
    }
}

impl WorkStore {
    /// Imports a package: each goal record, then each task record, then each
    /// budget entry (`ids[k]` names a new budget for `budgets[k]`).
    pub fn import_package_at(
        &mut self,
        goals: &Vec<GoalRecord>,
        tasks: &Vec<TaskRecord>,
        budgets: &Vec<NewWorkBudget>,
        ids: &Vec<String>,
        now: String,
    ) -> (r: Result<PackageImportCounts, WorkError>)
        requires
            ids.len() == budgets.len(),
        ensures
            package_imported(*old(self), *final(self), goals@, tasks@, budgets@, ids@, now, r),
    {
        let mut k: usize = 0;
        while k < goals.len()
            invariant
                k <= goals.len(),
                self.goals@ == goals_after(old(self).goals@, goals@, k as int, now),
                self.tasks == old(self).tasks,
                self.task_dependencies == old(self).task_dependencies,
                self.budgets == old(self).budgets,
                self.templates == old(self).templates,
                self.template_dependencies == old(self).template_dependencies,
                self.comments == old(self).comments,
                self.links == old(self).links,
                self.runs == old(self).runs,
                self.approvals == old(self).approvals,
                self.costs == old(self).costs,
                self.recurring == old(self).recurring,
                self.materializations == old(self).materializations,
            decreases goals.len() - k,
        {
            let g = &goals[k];
            let _ = self.import_goal_record_at(
                g.id.clone(),
                clone_opt(&g.slug),
                g.title.clone(),
                clone_opt(&g.description),
                g.status,
                clone_opt(&g.project_id),
                clone_opt(&g.parent_goal_id),
                now.clone(),
            );
            k += 1;
        }
        let mut k: usize = 0;
        while k < tasks.len()
            invariant
                k <= tasks.len(),
                self.goals@ == goals_after(old(self).goals@, goals@, goals.len() as int, now),
                self.tasks@ == tasks_after(old(self).tasks@, tasks@, k as int, now),
                self.task_dependencies@ == deps_after(old(self).task_dependencies@, tasks@, k as int),
                self.budgets == old(self).budgets,
                self.templates == old(self).templates,
                self.template_dependencies == old(self).template_dependencies,
                self.comments == old(self).comments,
                self.links == old(self).links,
                self.runs == old(self).runs,
                self.approvals == old(self).approvals,
                self.costs == old(self).costs,
                self.recurring == old(self).recurring,
                self.materializations == old(self).materializations,
            decreases tasks.len() - k,
        {
            let t = &tasks[k];
            let _ = self.import_task_record_at(
                t.id.clone(),
                clone_opt(&t.list_key),
                t.title.clone(),
                clone_opt(&t.description),
                t.status,
                t.priority,
                clone_opt(&t.goal_id),
                clone_opt(&t.parent_task_id),
                clone_opt(&t.owner),
                clone_opt(&t.project_id),
                clone_strings(&t.blocked_by),
                now.clone(),
            );
            k += 1;
        }
        let mut k: usize = 0;
        while k < budgets.len()
            invariant
                k <= budgets.len(),
                ids.len() == budgets.len(),
                self.goals@ == goals_after(old(self).goals@, goals@, goals.len() as int, now),
                self.tasks@ == tasks_after(old(self).tasks@, tasks@, tasks.len() as int, now),
                self.task_dependencies@ == deps_after(old(self).task_dependencies@, tasks@, tasks.len() as int),
                budgets_after(old(self).budgets@, budgets@, ids@, k as int, now) == Some(self.budgets@),
                self.templates == old(self).templates,
                self.template_dependencies == old(self).template_dependencies,
                self.comments == old(self).comments,
                self.links == old(self).links,
                self.runs == old(self).runs,
                self.approvals == old(self).approvals,
                self.costs == old(self).costs,
                self.recurring == old(self).recurring,
                self.materializations == old(self).materializations,
            decreases budgets.len() - k,
        {
            let ghost before = *self;
            let entry = copy_budget_entry(&budgets[k]);
            match self.save_budget_at(entry, ids[k].clone(), now.clone()) {
                Ok(_) => {},
                Err(e) => {
                    assert(budgets_after(old(self).budgets@, budgets@, ids@, k as int, now) == Some(self.budgets@));
                    return Err(e);
                },
            }
            k += 1;
        }
        Ok(PackageImportCounts { goals_imported: goals.len(), tasks_imported: tasks.len(), budgets_imported: budgets.len() })
    }
}

} // verus!
