//! Token costs recorded against tasks, budgets that limit them, and the
//! check that asks for an operator's approval once a hard limit is reached.
//!
//! Dollar amounts are IEEE-754 doubles, carried here as their bit patterns;
//! comparing them against limits is done by the caller, which hands in the
//! outcome as a `UsdTally`.

use vstd::prelude::*;

use crate::error::{RecordKind, WorkError};
use crate::order::{
    is_ordering, is_sorted_order, key_view, keys_view, sort_order, text_key, text_key_of, KeyPart, KeyView,
};
use crate::records::{
    BudgetCheck, BudgetStatus, NewTaskApproval, NewTaskCostAttribution, NewWorkBudget, TaskCostAttribution,
    TaskCostFilter, WorkBudget,
};
use crate::store::{lemma_filter_step, or_keep, TaskRow, WorkStore};
use crate::text::{
    first_at, lemma_first_at, first_index, lemma_first_index, opt_filter_match, opt_filter_matches, filter_match,
    filter_matches, opt_str_view,
};
use crate::types::{ApprovalStatus, BudgetScope};

verus! {

/// Every table but `costs` is the same.
pub open spec fn only_costs_changed(a: WorkStore, b: WorkStore) -> bool {
    &&& a.goals == b.goals
    &&& a.tasks == b.tasks
    &&& a.task_dependencies == b.task_dependencies
    &&& a.templates == b.templates
    &&& a.template_dependencies == b.template_dependencies
    &&& a.comments == b.comments
    &&& a.links == b.links
    &&& a.runs == b.runs
    &&& a.approvals == b.approvals
    &&& a.budgets == b.budgets
    &&& a.recurring == b.recurring
    &&& a.materializations == b.materializations
}

/// Every table but `budgets` is the same.
pub open spec fn only_budgets_changed(a: WorkStore, b: WorkStore) -> bool {
    &&& a.goals == b.goals
    &&& a.tasks == b.tasks
    &&& a.task_dependencies == b.task_dependencies
    &&& a.templates == b.templates
    &&& a.template_dependencies == b.template_dependencies
    &&& a.comments == b.comments
    &&& a.links == b.links
    &&& a.runs == b.runs
    &&& a.approvals == b.approvals
    &&& a.costs == b.costs
    &&& a.recurring == b.recurring
    &&& a.materializations == b.materializations
}

/// The dollar side of a budget, worked out by the caller: the spent total
/// (as the bit pattern of a double) and whether it reaches each limit.
#[derive(Debug, Clone, Copy)]
pub struct UsdTally {
    pub total_bits: u64,
    pub soft_exceeded: bool,
    pub hard_exceeded: bool,
}

/// The cost entry a record request stores: the task's goal and project, the
/// entry's session or else the task's, and the sum of input and output
/// tokens (saturating).
pub open spec fn new_cost(entry: NewTaskCostAttribution, task: TaskRow, id: String, now: String) -> TaskCostAttribution {
    TaskCostAttribution {
        id: id,
        task_id: entry.task_id,
        task_run_id: entry.task_run_id,
        goal_id: task.goal_id,
        project_id: task.project_id,
        session_key: or_keep(entry.session_key, task.session_key),
        runtime_run_id: entry.runtime_run_id,
        provider: entry.provider,
        model: entry.model,
        input_tokens: entry.input_tokens,
        output_tokens: entry.output_tokens,
        request_input_tokens: entry.request_input_tokens,
        request_output_tokens: entry.request_output_tokens,
        total_tokens: if entry.input_tokens + entry.output_tokens <= u64::MAX {
            (entry.input_tokens + entry.output_tokens) as u64
        } else {
            u64::MAX
        },
        estimated_cost_usd_bits: entry.estimated_cost_usd_bits,
        created_at: now,
    }
}

/// Cost entries a filter selects.
pub open spec fn cost_filter(f: TaskCostFilter) -> spec_fn(TaskCostAttribution) -> bool {
    |c: TaskCostAttribution|
        filter_matches(f.task_id, c.task_id) && opt_filter_matches(f.goal_id, c.goal_id) && opt_filter_matches(
            f.project_id,
            c.project_id,
        ) && opt_filter_matches(f.session_key, c.session_key)
}

/// The scopes of budgets.
pub open spec fn budget_scopes(b: Seq<WorkBudget>) -> Seq<(BudgetScope, Seq<char>)> {
    b.map_values(|x: WorkBudget| (x.scope, x.scope_id@))
}

/// Creation-time keys of cost entries.
pub open spec fn cost_keys(c: Seq<TaskCostAttribution>) -> Seq<Seq<KeyView>> {
    c.map_values(|x: TaskCostAttribution| text_key(x.created_at@))
}

/// Budgets of a scope and scope id, where given.
pub open spec fn budget_filter(scope: Option<BudgetScope>, scope_id: Option<Seq<char>>) -> spec_fn(WorkBudget) -> bool {
    |b: WorkBudget|
        (match scope {
            None => true,
            Some(s) => b.scope == s,
        }) && (match scope_id {
            None => true,
            Some(i) => b.scope_id@ == i,
        })
}

/// Budgets are listed by scope name, then scope id.
pub open spec fn budget_key(b: WorkBudget) -> Seq<KeyView> {
    seq![KeyView::Text(b.scope.name()), KeyView::Text(b.scope_id@)]
}

/// A saved budget: the request's limits and note, keeping the id and
/// creation time of the budget it replaces.
pub open spec fn saved_budget(b: NewWorkBudget, id: String, created_at: String, now: String) -> WorkBudget {
    WorkBudget {
        id: id,
        scope: b.scope,
        scope_id: b.scope_id,
        soft_limit_tokens: b.soft_limit_tokens,
        hard_limit_tokens: b.hard_limit_tokens,
        soft_limit_usd_bits: b.soft_limit_usd_bits,
        hard_limit_usd_bits: b.hard_limit_usd_bits,
        note: b.note,
        created_at: created_at,
        updated_at: now,
    }
}

/// Cost entries that count against a budget: those of its task, goal or
/// project.
pub open spec fn counts_against(b: WorkBudget) -> spec_fn(TaskCostAttribution) -> bool {
    |c: TaskCostAttribution| match b.scope {
        BudgetScope::Task => c.task_id@ == b.scope_id@,
        BudgetScope::Goal => c.goal_id matches Some(g) && g@ == b.scope_id@,
        BudgetScope::Project => c.project_id matches Some(p) && p@ == b.scope_id@,
    }
}

/// The sum of the total tokens of cost entries.
pub open spec fn token_sum(costs: Seq<TaskCostAttribution>) -> int
    decreases costs.len(),
{
    if costs.len() == 0 {
        0
    } else {
        token_sum(costs.drop_last()) + costs.last().total_tokens
    }
}

/// A limit is reached when the total is at least the limit.
pub open spec fn limit_reached(limit: Option<u64>, total: int) -> bool {
    limit matches Some(l) && total >= l
}

/// The status of a budget given the tokens counted against it and the
/// caller's dollar tally.
pub open spec fn budget_status_spec(b: WorkBudget, total: int, usd: UsdTally) -> BudgetStatus {
    BudgetStatus {
        budget: b,
        total_tokens: total as u64,
        estimated_cost_usd_bits: usd.total_bits,
        soft_exceeded: limit_reached(b.soft_limit_tokens, total) || usd.soft_exceeded,
        hard_exceeded: limit_reached(b.hard_limit_tokens, total) || usd.hard_exceeded,
    }
}

/// The reason given on an approval request for going over budget.
pub open spec fn over_budget_reason() -> Seq<char> {
    "Task budget exceeded, operator approval required to continue"@
}

/// Whether any status has reached a hard limit.
pub open spec fn any_hard_exceeded(scopes: Seq<BudgetStatus>) -> bool {
    exists|i: int| 0 <= i < scopes.len() && (#[trigger] scopes[i]).hard_exceeded
}

/// Approval requests for a budget override of a task in a given status.
pub open spec fn override_of(task_id: Seq<char>, status: ApprovalStatus) -> spec_fn(crate::records::TaskApproval) -> bool {
    |a: crate::records::TaskApproval| a.task_id matches Some(t) && t@ == task_id && a.kind@ == "budget_override"@ && a.status == status
}

fn opt_u64_reached(limit: Option<u64>, total: u64) -> (r: bool)
    ensures
        r == limit_reached(limit, total as int),
{
    match limit {
        Some(l) => total >= l,
        None => false,
    }
}

impl WorkStore {

    /// Position of the record with this id.
    pub open spec fn cost_at(self, id: Seq<char>) -> Option<int> {
        first_index(self.costs@.map_values(|x: TaskCostAttribution| x.id@), id)
    }

    pub fn cost_position(&self, id: &str) -> (r: Option<usize>)
        ensures
            r matches Some(i) ==> self.cost_at(id@) == Some(i as int) && i < self.costs.len(),
            r is None ==> self.cost_at(id@) is None,
    {
        let ghost ids = self.costs@.map_values(|x: TaskCostAttribution| x.id@);
        let mut i: usize = 0;
        while i < self.costs.len()
            invariant
                i <= self.costs.len(),
                ids == self.costs@.map_values(|x: TaskCostAttribution| x.id@),
                forall|j: int| 0 <= j < i ==> ids[j] != id@,
            decreases self.costs.len() - i,
        {
            if crate::text::str_equal(self.costs[i].id.as_str(), id) {
                proof {
                    lemma_first_index(ids, id@, i as int);
                }
                return Some(i);
            }
            i += 1;
        }
        proof {
            lemma_first_index(ids, id@, i as int);
        }
        None
    }


    /// Position of the record with this id.
    pub open spec fn budget_at(self, id: Seq<char>) -> Option<int> {
        first_index(self.budgets@.map_values(|x: WorkBudget| x.id@), id)
    }

    pub fn budget_position(&self, id: &str) -> (r: Option<usize>)
        ensures
            r matches Some(i) ==> self.budget_at(id@) == Some(i as int) && i < self.budgets.len(),
            r is None ==> self.budget_at(id@) is None,
    {
        let ghost ids = self.budgets@.map_values(|x: WorkBudget| x.id@);
        let mut i: usize = 0;
        while i < self.budgets.len()
            invariant
                i <= self.budgets.len(),
                ids == self.budgets@.map_values(|x: WorkBudget| x.id@),
                forall|j: int| 0 <= j < i ==> ids[j] != id@,
            decreases self.budgets.len() - i,
        {
            if crate::text::str_equal(self.budgets[i].id.as_str(), id) {
                proof {
                    lemma_first_index(ids, id@, i as int);
                }
                return Some(i);
            }
            i += 1;
        }
        proof {
            lemma_first_index(ids, id@, i as int);
        }
        None
    }


    /// Cost entries a filter selects, newest first.
    fn ordered_costs(&self, filter: &TaskCostFilter) -> (r: Vec<TaskCostAttribution>)
        ensures
            is_ordering(
                r@,
                self.costs@.filter(cost_filter(*filter)),
                cost_keys(self.costs@.filter(cost_filter(*filter))),
                true,
            ),
    {
        let ghost all = self.costs@;
        let ghost pred = cost_filter(*filter);
        let mut rows: Vec<TaskCostAttribution> = Vec::new();
        let mut i: usize = 0;
        while i < self.costs.len()
            invariant
                i <= self.costs.len(),
                all == self.costs@,
                pred == cost_filter(*filter),
                rows@ == all.take(i as int).filter(pred),
            decreases self.costs.len() - i,
        {
            proof {
                lemma_filter_step(all, pred, i as int);
            }
            let x = &self.costs[i];
            if filter_match(&filter.task_id, &x.task_id) && opt_filter_match(&filter.goal_id, &x.goal_id) && opt_filter_match(&filter.project_id, &x.project_id) && opt_filter_match(&filter.session_key, &x.session_key) {
                rows.push(x.copy());
            }
            i += 1;
        }
        assert(all.take(i as int) =~= all);
        let mut keys: Vec<Vec<KeyPart>> = Vec::new();
        let mut j: usize = 0;
        while j < rows.len()
            invariant
                j <= rows.len(),
                keys.len() == j,
                forall|y: int| 0 <= y < j ==> key_view(#[trigger] keys@[y]) == ({ let x = rows@[y]; text_key(x.created_at@) }),
            decreases rows.len() - j,
        {
            let x = &rows[j];
            keys.push(text_key_of(&x.created_at));
            j += 1;
        }
        assert(keys_view(keys@) =~= cost_keys(rows@));
        let order = sort_order(&keys, true);
        let mut out: Vec<TaskCostAttribution> = Vec::new();
        let mut k: usize = 0;
        while k < order.len()
            invariant
                k <= order.len(),
                order.len() == rows.len(),
                out.len() == k,
                forall|y: int| 0 <= y < order.len() ==> order@[y] < rows.len(),
                forall|y: int| 0 <= y < k ==> out@[y] == rows@[order@[y] as int],
            decreases order.len() - k,
        {
            out.push(rows[order[k]].copy());
            k += 1;
        }
        assert(is_sorted_order(cost_keys(rows@), order@, true));
        out
    }


    /// Budgets of a scope and scope id, where given, by scope name and then scope id.
    pub fn list_budgets(&self, scope: Option<BudgetScope>, scope_id: Option<&str>) -> (r: Vec<WorkBudget>)
        ensures
            is_ordering(
                r@,
                self.budgets@.filter(budget_filter(scope, opt_str_view(scope_id))),
                self.budgets@.filter(budget_filter(scope, opt_str_view(scope_id))).map_values(|x: WorkBudget| budget_key(x)),
                false,
            ),
    {
        let ghost all = self.budgets@;
        let ghost pred = budget_filter(scope, opt_str_view(scope_id));
        let mut rows: Vec<WorkBudget> = Vec::new();
        let mut i: usize = 0;
        while i < self.budgets.len()
            invariant
                i <= self.budgets.len(),
                all == self.budgets@,
                pred == budget_filter(scope, opt_str_view(scope_id)),
                rows@ == all.take(i as int).filter(pred),
            decreases self.budgets.len() - i,
        {
            proof {
                lemma_filter_step(all, pred, i as int);
            }
            let x = &self.budgets[i];
            if (match scope { None => true, Some(s) => x.scope == s }) && (match scope_id { None => true, Some(i) => crate::text::str_equal(x.scope_id.as_str(), i) }) {
                rows.push(x.copy());
            }
            i += 1;
        }
        assert(all.take(i as int) =~= all);
        let mut keys: Vec<Vec<KeyPart>> = Vec::new();
        let mut j: usize = 0;
        while j < rows.len()
            invariant
                j <= rows.len(),
                keys.len() == j,
                forall|y: int| 0 <= y < j ==> key_view(#[trigger] keys@[y]) == ({ let x = rows@[y]; budget_key(x) }),
            decreases rows.len() - j,
        {
            let x = &rows[j];
            keys.push(budget_key_of(x));
            j += 1;
        }
        assert(keys_view(keys@) =~= rows@.map_values(|x: WorkBudget| budget_key(x)));
        let order = sort_order(&keys, false);
        let mut out: Vec<WorkBudget> = Vec::new();
        let mut k: usize = 0;
        while k < order.len()
            invariant
                k <= order.len(),
                order.len() == rows.len(),
                out.len() == k,
                forall|y: int| 0 <= y < order.len() ==> order@[y] < rows.len(),
                forall|y: int| 0 <= y < k ==> out@[y] == rows@[order@[y] as int],
            decreases order.len() - k,
        {
            out.push(rows[order[k]].copy());
            k += 1;
        }
        assert(is_sorted_order(rows@.map_values(|x: WorkBudget| budget_key(x)), order@, false));
        out
    }

}

fn budget_key_of(b: &WorkBudget) -> (k: Vec<KeyPart>)
    ensures
        key_view(k) == budget_key(*b),
{
    let mut k: Vec<KeyPart> = Vec::new();
    k.push(KeyPart::Text(crate::text::chars_of(b.scope.as_str())));
    k.push(KeyPart::Text(crate::text::chars_of(b.scope_id.as_str())));
    assert(key_view(k) =~= budget_key(*b));
    k
}


/// Recency keys of approvals.
pub open spec fn approval_recency_keys(a: Seq<crate::records::TaskApproval>) -> Seq<Seq<KeyView>> {
    a.map_values(|x: crate::records::TaskApproval| crate::order::recency_key(x.updated_at@, x.created_at@))
}

impl WorkStore {
    /// Records token use against an existing task, with the given id and
    /// time.
    pub fn record_cost_at(&mut self, entry: NewTaskCostAttribution, id: String, now: String) -> (r: Result<TaskCostAttribution, WorkError>)
        ensures
            match old(self).task_at(entry.task_id@) {
                None => r matches Err(e) && e.is_not_found(RecordKind::Task, entry.task_id@) && *final(self) == *old(self),
                Some(i) => match r {
                    Ok(c) => {
                        &&& old(self).cost_at(id@) is None
                        &&& c == new_cost(entry, old(self).tasks@[i], id, now)
                        &&& final(self).costs@ == old(self).costs@.push(c)
                        &&& only_costs_changed(*old(self), *final(self))
                    },
                    Err(e) => old(self).cost_at(id@) is Some && e.is_duplicate(RecordKind::Cost, id@) && *final(self) == *old(self),
                },
            },
    {
        let i = match self.task_position(entry.task_id.as_str()) {
            Some(i) => i,
            None => return Err(WorkError::NotFound { kind: RecordKind::Task, id: entry.task_id }),
        };
        if self.cost_position(id.as_str()).is_some() {
            return Err(WorkError::DuplicateId { kind: RecordKind::Cost, id });
        }
        let task = self.tasks[i].copy();
        let total = entry.input_tokens.saturating_add(entry.output_tokens);
        let c = TaskCostAttribution {
            id,
            task_id: entry.task_id,
            task_run_id: entry.task_run_id,
            goal_id: task.goal_id,
            project_id: task.project_id,
            session_key: crate::text::or_else_keep(entry.session_key, task.session_key),
            runtime_run_id: entry.runtime_run_id,
            provider: entry.provider,
            model: entry.model,
            input_tokens: entry.input_tokens,
            output_tokens: entry.output_tokens,
            request_input_tokens: entry.request_input_tokens,
            request_output_tokens: entry.request_output_tokens,
            total_tokens: total,
            estimated_cost_usd_bits: entry.estimated_cost_usd_bits,
            created_at: now,
        };
        self.costs.push(c.copy());
        Ok(c)
    }

    /// Cost entries a filter selects, newest first, at most `limit` of them
    /// (20 when the filter names no limit).
    pub fn list_costs(&self, filter: &TaskCostFilter) -> (r: Vec<TaskCostAttribution>)
        ensures
            exists|full: Seq<TaskCostAttribution>| {
                &&& #[trigger] is_ordering(
                    full,
                    self.costs@.filter(cost_filter(*filter)),
                    cost_keys(self.costs@.filter(cost_filter(*filter))),
                    true,
                )
                &&& r@ == full.take(crate::tracker::min_len(crate::tracker::limit_or(filter.limit, 20), full.len() as int))
            },
    {
        let full = self.ordered_costs(filter);
        let limit: usize = match filter.limit {
            Some(l) => l as usize,
            None => 20,
        };
        let mut out: Vec<TaskCostAttribution> = Vec::new();
        let mut i: usize = 0;
        while i < full.len() && i < limit
            invariant
                i <= full.len(),
                i <= limit,
                limit == crate::tracker::limit_or(filter.limit, 20),
                out@ == full@.take(i as int),
            decreases full.len() - i,
        {
            out.push(full[i].copy());
            i += 1;
            assert(out@ =~= full@.take(i as int));
        }
        assert(i == crate::tracker::min_len(crate::tracker::limit_or(filter.limit, 20), full@.len() as int));
        out
    }

    /// Position of the budget of a scope.
    pub open spec fn scope_budget_at(self, scope: BudgetScope, scope_id: Seq<char>) -> Option<int> {
        first_at(budget_scopes(self.budgets@), (scope, scope_id))
    }

    /// Each scope has at most one budget.
    pub open spec fn budgets_one_per_scope(self) -> bool {
        budget_scopes(self.budgets@).no_duplicates()
    }

    fn scope_budget_position(&self, scope: BudgetScope, scope_id: &String) -> (r: Option<usize>)
        ensures
            r matches Some(i) ==> self.scope_budget_at(scope, scope_id@) == Some(i as int) && i < self.budgets.len(),
            r is None ==> self.scope_budget_at(scope, scope_id@) is None,
    {
        let ghost keys = budget_scopes(self.budgets@);
        let mut i: usize = 0;
        while i < self.budgets.len()
            invariant
                i <= self.budgets.len(),
                keys == budget_scopes(self.budgets@),
                forall|j: int| 0 <= j < i ==> keys[j] != (scope, scope_id@),
            decreases self.budgets.len() - i,
        {
            if self.budgets[i].scope == scope && self.budgets[i].scope_id == *scope_id {
                proof {
                    lemma_first_at(keys, (scope, scope_id@), i as int);
                }
                return Some(i);
            }
            i += 1;
        }
        proof {
            lemma_first_at(keys, (scope, scope_id@), i as int);
        }
        None
    }
}


/// What saving the limits of a scope does: the scope's budget takes them,
/// keeping its id and creation time; a scope without a budget gets one with
/// the id `id`, unless that id is taken.
pub open spec fn budget_saved(
    before: WorkStore,
    after: WorkStore,
    budget: NewWorkBudget,
    id: String,
    now: String,
    r: Result<WorkBudget, WorkError>,
) -> bool {
    match before.scope_budget_at(budget.scope, budget.scope_id@) {
        Some(i) => {
            &&& r == Ok::<WorkBudget, WorkError>(saved_budget(budget, before.budgets@[i].id, before.budgets@[i].created_at, now))
            &&& after.budgets@ == before.budgets@.update(i, r->Ok_0)
            &&& only_budgets_changed(before, after)
        },
        None => match r {
            Ok(b) => {
                &&& before.budget_at(id@) is None
                &&& b == saved_budget(budget, id, now, now)
                &&& after.budgets@ == before.budgets@.push(b)
                &&& only_budgets_changed(before, after)
            },
            Err(e) => before.budget_at(id@) is Some && e.is_duplicate(RecordKind::Budget, id@) && after == before,
        },
    }
}

impl WorkStore {
    /// Saves the limits of a scope: the scope's budget takes them, keeping its
    /// id and creation time; a scope without a budget gets one with the
    /// given id.
    pub fn save_budget_at(&mut self, budget: NewWorkBudget, id: String, now: String) -> (r: Result<WorkBudget, WorkError>)
        ensures
            budget_saved(*old(self), *final(self), budget, id, now, r),
            old(self).budgets_one_per_scope() ==> final(self).budgets_one_per_scope(),
    {
        proof {
            crate::text::lemma_first_at_facts(budget_scopes(self.budgets@), (budget.scope, budget.scope_id@));
        }
        match self.scope_budget_position(budget.scope, &budget.scope_id) {
            Some(i) => {
                let existing = self.budgets[i].copy();
                let b = WorkBudget {
                    id: existing.id,
                    scope: budget.scope,
                    scope_id: budget.scope_id,
                    soft_limit_tokens: budget.soft_limit_tokens,
                    hard_limit_tokens: budget.hard_limit_tokens,
                    soft_limit_usd_bits: budget.soft_limit_usd_bits,
                    hard_limit_usd_bits: budget.hard_limit_usd_bits,
                    note: budget.note,
                    created_at: existing.created_at,
                    updated_at: now,
                };
                self.budgets.set(i, b.copy());
                assert(budget_scopes(self.budgets@) =~= budget_scopes(old(self).budgets@));
                Ok(b)
            },
            None => {
                if self.budget_position(id.as_str()).is_some() {
                    return Err(WorkError::DuplicateId { kind: RecordKind::Budget, id });
                }
                let b = WorkBudget {
                    id,
                    scope: budget.scope,
                    scope_id: budget.scope_id,
                    soft_limit_tokens: budget.soft_limit_tokens,
                    hard_limit_tokens: budget.hard_limit_tokens,
                    soft_limit_usd_bits: budget.soft_limit_usd_bits,
                    hard_limit_usd_bits: budget.hard_limit_usd_bits,
                    note: budget.note,
                    created_at: now.clone(),
                    updated_at: now,
                };
                self.budgets.push(b.copy());
                proof {
                    let before = budget_scopes(old(self).budgets@);
                    let after = budget_scopes(self.budgets@);
                    assert(after =~= before.push((b.scope, b.scope_id@)));
                    assert forall|x: int, y: int| 0 <= x < after.len() && 0 <= y < after.len() && x != y && old(self).budgets_one_per_scope() implies after[x] != after[y] by {
                        if x < before.len() && y < before.len() {
                        } else if x < before.len() {
                            assert(before[x] != (budget.scope, budget.scope_id@));
                        } else {
                            assert(before[y] != (budget.scope, budget.scope_id@));
                        }
                    }
                }
                Ok(b)
            },
        }
    }

    /// The tokens counted against a budget, or an error when they add up to
    /// more than a stored total can hold.
    pub fn budget_tokens(&self, budget: &WorkBudget) -> (r: Result<u64, WorkError>)
        ensures
            match r {
                Ok(t) => t == token_sum(self.costs@.filter(counts_against(*budget))) && t <= i64::MAX,
                Err(e) => e is TokenTotalOverflow && token_sum(self.costs@.filter(counts_against(*budget))) > i64::MAX,
            },
    {
        let ghost all = self.costs@;
        let ghost pred = counts_against(*budget);
        let mut total: u64 = 0;
        let mut i: usize = 0;
        while i < self.costs.len()
            invariant
                i <= self.costs.len(),
                all == self.costs@,
                pred == counts_against(*budget),
                total == token_sum(all.take(i as int).filter(pred)),
                total <= i64::MAX,
            decreases self.costs.len() - i,
        {
            proof {
                lemma_filter_step(all, pred, i as int);
            }
            let c = &self.costs[i];
            let counts = match budget.scope {
                BudgetScope::Task => c.task_id == budget.scope_id,
                BudgetScope::Goal => match &c.goal_id {
                    Some(g) => *g == budget.scope_id,
                    None => false,
                },
                BudgetScope::Project => match &c.project_id {
                    Some(p) => *p == budget.scope_id,
                    None => false,
                },
            };
            if counts {
                let ghost prev = all.take(i as int).filter(pred);
                assert(prev.push(all[i as int]).drop_last() =~= prev);
                if c.total_tokens > 0x7fff_ffff_ffff_ffffu64 - total {
                    proof {
                        lemma_token_sum_grows(all, pred, i as int + 1);
                    }
                    return Err(WorkError::TokenTotalOverflow);
                }
                total = total + c.total_tokens;
            }
            i += 1;
        }
        assert(all.take(i as int) =~= all);
        Ok(total)
    }

    /// The status of a budget: the tokens counted against it, the caller's
    /// dollar tally, and whether each limit is reached.
    pub fn budget_status_for(&self, budget: &WorkBudget, usd: UsdTally) -> (r: Result<BudgetStatus, WorkError>)
        ensures
            match r {
                Ok(s) => token_sum(self.costs@.filter(counts_against(*budget))) <= i64::MAX && s == budget_status_spec(
                    *budget,
                    token_sum(self.costs@.filter(counts_against(*budget))),
                    usd,
                ),
                Err(e) => e is TokenTotalOverflow && token_sum(self.costs@.filter(counts_against(*budget))) > i64::MAX,
            },
    {
        let total = match self.budget_tokens(budget) {
            Ok(t) => t,
            Err(e) => return Err(e),
        };
        let soft = opt_u64_reached(budget.soft_limit_tokens, total) || usd.soft_exceeded;
        let hard = opt_u64_reached(budget.hard_limit_tokens, total) || usd.hard_exceeded;
        Ok(BudgetStatus {
            budget: budget.copy(),
            total_tokens: total,
            estimated_cost_usd_bits: usd.total_bits,
            soft_exceeded: soft,
            hard_exceeded: hard,
        })
    }

    /// The budgets that apply to a task: its own, then its goal's, then its
    /// project's, each group by scope id.
    pub fn budgets_for_task(&self, task_id: &str) -> (r: Result<Vec<WorkBudget>, WorkError>)
        ensures
            match self.task_at(task_id@) {
                None => r matches Err(e) && e.is_not_found(RecordKind::Task, task_id@),
                Some(i) => r matches Ok(v) && exists|a: Seq<WorkBudget>, b: Seq<WorkBudget>, c: Seq<WorkBudget>| {
                    &&& v@ == a + b + c
                    &&& #[trigger] self.is_scope_listing(a, BudgetScope::Task, Some(task_id@))
                    &&& #[trigger] self.is_scope_listing(b, BudgetScope::Goal, opt_view(self.tasks@[i].goal_id))
                    &&& #[trigger] self.is_scope_listing(c, BudgetScope::Project, opt_view(self.tasks@[i].project_id))
                },
            },
    {
        let i = match self.task_position(task_id) {
            Some(i) => i,
            None => return Err(WorkError::NotFound { kind: RecordKind::Task, id: crate::text::owned(task_id) }),
        };
        let mut budgets = self.list_budgets(Some(BudgetScope::Task), Some(task_id));
        let ghost a = budgets@;
        let goal_budgets = match &self.tasks[i].goal_id {
            Some(g) => self.list_budgets(Some(BudgetScope::Goal), Some(g.as_str())),
            None => Vec::new(),
        };
        let project_budgets = match &self.tasks[i].project_id {
            Some(p) => self.list_budgets(Some(BudgetScope::Project), Some(p.as_str())),
            None => Vec::new(),
        };
        let ghost b = goal_budgets@;
        let ghost c = project_budgets@;
        append_budgets(&mut budgets, &goal_budgets);
        append_budgets(&mut budgets, &project_budgets);
        assert(self.is_scope_listing(a, BudgetScope::Task, Some(task_id@)));
        assert(self.is_scope_listing(b, BudgetScope::Goal, opt_view(self.tasks@[i as int].goal_id)));
        assert(self.is_scope_listing(c, BudgetScope::Project, opt_view(self.tasks@[i as int].project_id)));
        Ok(budgets)
    }

    /// `v` lists the budgets of a scope and id, by scope id; no id, no budgets.
    pub open spec fn is_scope_listing(self, v: Seq<WorkBudget>, scope: BudgetScope, id: Option<Seq<char>>) -> bool {
        match id {
            None => v.len() == 0,
            Some(x) => is_ordering(
                v,
                self.budgets@.filter(budget_filter(Some(scope), Some(x))),
                self.budgets@.filter(budget_filter(Some(scope), Some(x))).map_values(|b: WorkBudget| budget_key(b)),
                false,
            ),
        }
    }

    /// The most recently updated pending override request of a task.
    pub fn pending_budget_override_id(&self, task_id: &str) -> (r: Option<String>)
        ensures
            match r {
                None => self.approvals@.filter(override_of(task_id@, ApprovalStatus::Pending)).len() == 0,
                Some(id) => exists|full: Seq<crate::records::TaskApproval>| {
                    &&& #[trigger] is_ordering(
                        full,
                        self.approvals@.filter(override_of(task_id@, ApprovalStatus::Pending)),
                        approval_recency_keys(self.approvals@.filter(override_of(task_id@, ApprovalStatus::Pending))),
                        true,
                    )
                    &&& full.len() > 0
                    &&& full[0].id == id
                },
            },
    {
        let ghost all = self.approvals@;
        let ghost pred = override_of(task_id@, ApprovalStatus::Pending);
        let mut rows: Vec<crate::records::TaskApproval> = Vec::new();
        let mut i: usize = 0;
        while i < self.approvals.len()
            invariant
                i <= self.approvals.len(),
                all == self.approvals@,
                pred == override_of(task_id@, ApprovalStatus::Pending),
                rows@ == all.take(i as int).filter(pred),
            decreases self.approvals.len() - i,
        {
            proof {
                lemma_filter_step(all, pred, i as int);
            }
            let a = &self.approvals[i];
            let matches = match &a.task_id {
                Some(t) => crate::text::str_equal(t.as_str(), task_id) && crate::text::str_equal(a.kind.as_str(), "budget_override") && a.status == ApprovalStatus::Pending,
                None => false,
            };
            if matches {
                rows.push(a.copy());
            }
            i += 1;
        }
        assert(all.take(i as int) =~= all);
        if rows.len() == 0 {
            return None;
        }
        let mut keys: Vec<Vec<KeyPart>> = Vec::new();
        let mut j: usize = 0;
        while j < rows.len()
            invariant
                j <= rows.len(),
                keys.len() == j,
                forall|y: int| 0 <= y < j ==> key_view(#[trigger] keys@[y]) == crate::order::recency_key(rows@[y].updated_at@, rows@[y].created_at@),
            decreases rows.len() - j,
        {
            keys.push(crate::order::recency_key_of(&rows[j].updated_at, &rows[j].created_at));
            j += 1;
        }
        assert(keys_view(keys@) =~= approval_recency_keys(rows@));
        let order = sort_order(&keys, true);
        let ghost full = order@.map_values(|x: usize| rows@[x as int]);
        assert(is_sorted_order(approval_recency_keys(rows@), order@, true));
        assert(full.len() == order@.len());
        assert(forall|y: int| 0 <= y < full.len() ==> full[y] == rows@[order@[y] as int]);
        assert(full[0] == rows@[order@[0] as int]);
        assert(is_ordering(full, rows@, approval_recency_keys(rows@), true));
        Some(rows[order[0]].id.clone())
    }

    /// Whether an override request of the task was approved.
    pub fn has_approved_budget_override(&self, task_id: &str) -> (r: bool)
        ensures
            r == (self.approvals@.filter(override_of(task_id@, ApprovalStatus::Approved)).len() > 0),
    {
        let ghost all = self.approvals@;
        let ghost pred = override_of(task_id@, ApprovalStatus::Approved);
        let mut count: usize = 0;
        let mut i: usize = 0;
        while i < self.approvals.len()
            invariant
                i <= self.approvals.len(),
                all == self.approvals@,
                pred == override_of(task_id@, ApprovalStatus::Approved),
                count == all.take(i as int).filter(pred).len(),
            decreases self.approvals.len() - i,
        {
            proof {
                lemma_filter_step(all, pred, i as int);
                all.take(i as int).lemma_filter_len(pred);
            }
            let a = &self.approvals[i];
            let matches = match &a.task_id {
                Some(t) => crate::text::str_equal(t.as_str(), task_id) && crate::text::str_equal(a.kind.as_str(), "budget_override") && a.status == ApprovalStatus::Approved,
                None => false,
            };
            if matches {
                count += 1;
            }
            i += 1;
        }
        assert(all.take(i as int) =~= all);
        count > 0
    }
}

/// The text of an optional string.
pub open spec fn opt_view(o: Option<String>) -> Option<Seq<char>> {
    match o {
        Some(s) => Some(s@),
        None => None,
    }
}

proof fn lemma_token_sum_grows(all: Seq<TaskCostAttribution>, pred: spec_fn(TaskCostAttribution) -> bool, n: int)
    requires
        0 <= n <= all.len(),
    ensures
        forall|m: int| n <= m <= all.len() ==> token_sum(all.take(m).filter(pred)) >= token_sum(all.take(n).filter(pred)),
        token_sum(all.filter(pred)) >= token_sum(all.take(n).filter(pred)),
    decreases all.len() - n,
{
    assert(all.take(all.len() as int) =~= all);
    if n < all.len() {
        lemma_token_sum_grows(all, pred, n + 1);
        lemma_filter_step(all, pred, n);
        let prev = all.take(n).filter(pred);
        assert(prev.push(all[n]).drop_last() =~= prev);
    }
}

fn append_budgets(dst: &mut Vec<WorkBudget>, src: &Vec<WorkBudget>)
    ensures
        final(dst)@ == old(dst)@ + src@,
{
    let mut i: usize = 0;
    while i < src.len()
        invariant
            i <= src.len(),
            dst@ == old(dst)@ + src@.take(i as int),
        decreases src.len() - i,
    {
        dst.push(src[i].copy());
        i += 1;
        assert(dst@ =~= old(dst)@ + src@.take(i as int));
    }
    assert(src@.take(i as int) =~= src@);
}


/// What a budget check on the statuses `scopes` of a task's budgets does:
/// the task may go on when no hard limit is reached or an override was
/// approved; otherwise it waits on the pending override request, or on a new
/// one under `request_id`, which fails only where that id is taken.
pub open spec fn budget_enforced(
    old: WorkStore,
    new: WorkStore,
    task_id: Seq<char>,
    scopes: Seq<BudgetStatus>,
    request_id: String,
    now: String,
    r: Result<BudgetCheck, WorkError>,
) -> bool {
    &&& if !any_hard_exceeded(scopes) || old.approvals@.filter(override_of(task_id, ApprovalStatus::Approved)).len() > 0 {
        &&& r matches Ok(c) && c.allowed && !c.requires_approval && c.pending_approval_id is None
            && c.task_id@ == task_id && c.scopes@ == scopes
        &&& new == old
    } else {
        match r {
            Ok(c) => {
                &&& !c.allowed && c.requires_approval && c.task_id@ == task_id && c.scopes@ == scopes
                &&& c.pending_approval_id matches Some(pid) && if old.approvals@.filter(override_of(task_id, ApprovalStatus::Pending)).len() > 0 {
                    &&& new == old
                    &&& exists|full: Seq<crate::records::TaskApproval>| {
                        &&& #[trigger] is_ordering(
                            full,
                            old.approvals@.filter(override_of(task_id, ApprovalStatus::Pending)),
                            approval_recency_keys(old.approvals@.filter(override_of(task_id, ApprovalStatus::Pending))),
                            true,
                        )
                        &&& full.len() > 0
                        &&& full[0].id == pid
                    }
                } else {
                    &&& pid == request_id
                    &&& old.approval_at(pid@) is None
                    &&& new.approvals@ == old.approvals@.push(crate::records::TaskApproval {
                        id: pid,
                        task_id: new.approvals@.last().task_id,
                        kind: new.approvals@.last().kind,
                        status: ApprovalStatus::Pending,
                        reason: new.approvals@.last().reason,
                        created_at: now,
                        updated_at: now,
                        resolved_at: None,
                    })
                    &&& new.approvals@.last().task_id matches Some(t) && t@ == task_id
                    &&& new.approvals@.last().kind@ == "budget_override"@
                    &&& new.approvals@.last().reason matches Some(rs) && rs@ == over_budget_reason()
                    &&& crate::activity::only_approvals_changed(old, new)
                }
            },
            Err(e) => {
                &&& old.approvals@.filter(override_of(task_id, ApprovalStatus::Pending)).len() == 0
                &&& old.approval_at(request_id@) is Some
                &&& e.is_duplicate(crate::error::RecordKind::Approval, request_id@)
                &&& new == old
            },
        }
    }
    &&& r is Err <==> (any_hard_exceeded(scopes)
        && old.approvals@.filter(override_of(task_id, ApprovalStatus::Approved)).len() == 0
        && old.approvals@.filter(override_of(task_id, ApprovalStatus::Pending)).len() == 0
        && old.approval_at(request_id@) is Some)
}

impl WorkStore {
    /// Checks a task against the statuses of its budgets.  The task may go
    /// on when no hard limit is reached or an override was approved;
    /// otherwise it waits for approval, on the pending override request if
    /// there is one, else on a new one.
    pub fn enforce_task_budget_at(&mut self, task_id: &str, scopes: Vec<BudgetStatus>, request_id: String, now: String) -> (r: Result<BudgetCheck, WorkError>)
        ensures
            budget_enforced(*old(self), *final(self), task_id@, scopes@, request_id, now, r),
    {
        let mut hard = false;
        let mut i: usize = 0;
        while i < scopes.len()
            invariant
                i <= scopes.len(),
                hard == exists|j: int| 0 <= j < i && (#[trigger] scopes@[j]).hard_exceeded,
            decreases scopes.len() - i,
        {
            if scopes[i].hard_exceeded {
                hard = true;
            }
            i += 1;
        }
        if !hard || self.has_approved_budget_override(task_id) {
            return Ok(BudgetCheck {
                allowed: true,
                task_id: crate::text::owned(task_id),
                requires_approval: false,
                pending_approval_id: None,
                scopes,
            });
        }
        let pending = match self.pending_budget_override_id(task_id) {
            Some(id) => id,
            None => {
                let approval = NewTaskApproval {
                    task_id: Some(crate::text::owned(task_id)),
                    kind: crate::text::owned("budget_override"),
                    reason: Some(crate::text::owned("Task budget exceeded, operator approval required to continue")),
                    status: ApprovalStatus::Pending,
                };
                match self.create_approval_at(approval, request_id, now) {
                    Ok(a) => a.id,
                    Err(e) => return Err(e),
                }
            },
        };
        Ok(BudgetCheck {
            allowed: false,
            task_id: crate::text::owned(task_id),
            requires_approval: true,
            pending_approval_id: Some(pending),
            scopes,
        })
    }
}


/// The caller's tally for the `i`th budget of a listing; a budget without one
/// has spent nothing.
pub open spec fn tally_at(usd: Seq<UsdTally>, i: int) -> UsdTally {
    if 0 <= i < usd.len() {
        usd[i]
    } else {
        UsdTally { total_bits: 0, soft_exceeded: false, hard_exceeded: false }
    }
}

/// The statuses of budgets, each with its token total and the caller's tally.
pub open spec fn statuses_of(costs: Seq<TaskCostAttribution>, budgets: Seq<WorkBudget>, usd: Seq<UsdTally>) -> Seq<BudgetStatus> {
    Seq::new(
        budgets.len(),
        |i: int| budget_status_spec(budgets[i], token_sum(costs.filter(counts_against(budgets[i]))), tally_at(usd, i)),
    )
}

/// Some budget counts more tokens than a stored total can hold.
pub open spec fn tokens_overflow(costs: Seq<TaskCostAttribution>, budgets: Seq<WorkBudget>) -> bool {
    exists|i: int| 0 <= i < budgets.len() && token_sum(costs.filter(counts_against(#[trigger] budgets[i]))) > i64::MAX
}

fn usd_tally_at(usd: &Vec<UsdTally>, i: usize) -> (t: UsdTally)
    ensures
        t == tally_at(usd@, i as int),
{
    if i < usd.len() {
        usd[i]
    } else {
        UsdTally { total_bits: 0, soft_exceeded: false, hard_exceeded: false }
    }
}

impl WorkStore {
    /// The status of each budget, given the caller's dollar tallies in the
    /// same order.
    pub fn budget_statuses(&self, budgets: &Vec<WorkBudget>, usd: &Vec<UsdTally>) -> (r: Result<Vec<BudgetStatus>, WorkError>)
        ensures
            match r {
                Ok(v) => !tokens_overflow(self.costs@, budgets@) && v@ == statuses_of(self.costs@, budgets@, usd@),
                Err(e) => e is TokenTotalOverflow && tokens_overflow(self.costs@, budgets@),
            },
    {
        let mut out: Vec<BudgetStatus> = Vec::new();
        let mut i: usize = 0;
        while i < budgets.len()
            invariant
                i <= budgets.len(),
                out@ == statuses_of(self.costs@, budgets@, usd@).take(i as int),
                forall|j: int| 0 <= j < i ==> token_sum(self.costs@.filter(counts_against(#[trigger] budgets@[j]))) <= i64::MAX,
            decreases budgets.len() - i,
        {
            match self.budget_status_for(&budgets[i], usd_tally_at(usd, i)) {
                Ok(s) => {
                    out.push(s);
                },
                Err(e) => {
                    assert(token_sum(self.costs@.filter(counts_against(budgets@[i as int]))) > i64::MAX);
                    return Err(e);
                },
            }
            i += 1;
            assert(out@ =~= statuses_of(self.costs@, budgets@, usd@).take(i as int));
        }
        assert(statuses_of(self.costs@, budgets@, usd@).take(i as int) =~= statuses_of(self.costs@, budgets@, usd@));
        Ok(out)
    }

    /// The statuses of the budgets that apply to a task, in the order of
    /// `budgets_for_task`, given the caller's dollar tallies in that order.
    pub fn budget_statuses_for_task(&self, task_id: &str, usd: &Vec<UsdTally>) -> (r: Result<Vec<BudgetStatus>, WorkError>)
        ensures
            match self.task_at(task_id@) {
                None => r matches Err(e) && e.is_not_found(RecordKind::Task, task_id@),
                Some(i) => exists|a: Seq<WorkBudget>, b: Seq<WorkBudget>, c: Seq<WorkBudget>| {
                    &&& #[trigger] self.is_scope_listing(a, BudgetScope::Task, Some(task_id@))
                    &&& #[trigger] self.is_scope_listing(b, BudgetScope::Goal, opt_view(self.tasks@[i].goal_id))
                    &&& #[trigger] self.is_scope_listing(c, BudgetScope::Project, opt_view(self.tasks@[i].project_id))
                    &&& match r {
                        Ok(v) => !tokens_overflow(self.costs@, a + b + c) && v@ == statuses_of(self.costs@, a + b + c, usd@),
                        Err(e) => e is TokenTotalOverflow && tokens_overflow(self.costs@, a + b + c),
                    }
                },
            },
    {
        let budgets = match self.budgets_for_task(task_id) {
            Ok(b) => b,
            Err(e) => return Err(e),
        };
        self.budget_statuses(&budgets, usd)
    }
}

} // verus!
