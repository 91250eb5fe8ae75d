//! Recurring tasks: templates instantiated on a schedule.
//!
//! Schedules are kept as their stored JSON text.  When the next run of a
//! schedule falls is worked out by the caller, which hands the outcome in.

use vstd::prelude::*;

use crate::error::{RecordKind, WorkError};
use crate::order::{
    is_ordering, is_sorted_order, key_view, keys_view, recency_key, recency_key_of, sort_order,
    text_key, text_key_of, KeyPart, KeyView,
};
use crate::records::{
    InstantiateTaskTemplate, NewRecurringTask, RecurringTask, RecurringTaskFilter,
    RecurringTaskMaterialization, RecurringTaskMaterializeResult, RecurringTaskPatch,
    TemplateInstantiationResult,
};
use crate::store::{lemma_filter_step, or_keep, WorkStore};
use crate::templates::instantiation_outcome;
use crate::text::{
    filter_match, filter_matches, first_index, lemma_first_index, opt_filter_match, opt_filter_matches,
    opt_str_view, or_else_keep,
};

verus! {

/// Every table but `recurring` is the same.
pub open spec fn only_recurring_changed(a: WorkStore, b: WorkStore) -> bool {
    &&& a.goals == b.goals
    &&& a.tasks == b.tasks
    &&& a.task_dependencies == b.task_dependencies
    &&& a.templates == b.templates
    &&& a.template_dependencies == b.template_dependencies
    &&& a.comments == b.comments
    &&& a.links == b.links
    &&& a.runs == b.runs
    &&& a.approvals == b.approvals
    &&& a.costs == b.costs
    &&& a.budgets == b.budgets
    &&& a.materializations == b.materializations
}

/// Recurring tasks a filter selects.
pub open spec fn recurring_filter(f: RecurringTaskFilter) -> spec_fn(RecurringTask) -> bool {
    |r: RecurringTask|
        filter_matches(f.template_id, r.template_id) && opt_filter_matches(f.goal_id, r.goal_id)
            && opt_filter_matches(f.project_id, r.project_id) && match f.enabled {
            None => true,
            Some(e) => r.enabled == e,
        }
}

/// Creation-time keys of materializations.
pub open spec fn materialization_keys(s: Seq<RecurringTaskMaterialization>) -> Seq<Seq<KeyView>> {
    s.map_values(|x: RecurringTaskMaterialization| text_key(x.created_at@))
}

/// Materializations of one recurring task, or all of them.
pub open spec fn materialization_of(id: Option<Seq<char>>) -> spec_fn(RecurringTaskMaterialization) -> bool {
    |m: RecurringTaskMaterialization| match id {
        None => true,
        Some(i) => m.recurring_task_id@ == i,
    }
}

/// The next run of a recurring task: only an enabled one runs, at the time
/// worked out for its schedule.
pub open spec fn next_run_when(enabled: bool, computed: Option<u64>) -> Option<u64> {
    if enabled {
        computed
    } else {
        None
    }
}

/// The recurring task a creation request stores.
pub open spec fn new_recurring(t: NewRecurringTask, id: String, now: String, next: Option<u64>) -> RecurringTask {
    RecurringTask {
        id: id,
        name: t.name,
        template_id: t.template_id,
        schedule_json: t.schedule_json,
        enabled: t.enabled,
        list_key: t.list_key,
        goal_id: t.goal_id,
        owner: t.owner,
        project_id: t.project_id,
        next_run_at_ms: next_run_when(t.enabled, next),
        last_materialized_at_ms: None,
        created_at: now,
        updated_at: now,
    }
}

/// The next run after a patch: recomputed when the patch enables, disables
/// or reschedules the task, kept otherwise, and none while disabled.
pub open spec fn patched_next_run(e: RecurringTask, p: RecurringTaskPatch, computed: Option<u64>) -> Option<u64> {
    let enabled = match p.enabled {
        Some(b) => b,
        None => e.enabled,
    };
    if enabled && (p.enabled is Some || p.schedule_json is Some) {
        computed
    } else if enabled {
        e.next_run_at_ms
    } else {
        None
    }
}

/// Whether a patch asks for the next run to be worked out again.
pub open spec fn patch_recomputes(e: RecurringTask, p: RecurringTaskPatch) -> bool {
    let enabled = match p.enabled {
        Some(b) => b,
        None => e.enabled,
    };
    enabled && (p.enabled is Some || p.schedule_json is Some)
}

/// A recurring task after a patch.
pub open spec fn patched_recurring(e: RecurringTask, p: RecurringTaskPatch, computed: Option<u64>, now: String) -> RecurringTask {
    RecurringTask {
        id: e.id,
        name: match p.name {
            Some(n) => n,
            None => e.name,
        },
        template_id: match p.template_id {
            Some(t) => t,
            None => e.template_id,
        },
        schedule_json: match p.schedule_json {
            Some(s) => s,
            None => e.schedule_json,
        },
        enabled: match p.enabled {
            Some(b) => b,
            None => e.enabled,
        },
        list_key: or_keep(p.list_key, e.list_key),
        goal_id: or_keep(p.goal_id, e.goal_id),
        owner: or_keep(p.owner, e.owner),
        project_id: or_keep(p.project_id, e.project_id),
        next_run_at_ms: patched_next_run(e, p, computed),
        last_materialized_at_ms: e.last_materialized_at_ms,
        created_at: e.created_at,
        updated_at: now,
    }
}

/// Whether a recurring task is due: enabled and, unless forced, with a next
/// run no later than the evaluation time; and the one asked for, if any.
pub open spec fn is_due(id: Option<Seq<char>>, force: bool, at: u64) -> spec_fn(RecurringTask) -> bool {
    |r: RecurringTask| (match id {
        None => true,
        Some(i) => r.id@ == i,
    }) && r.enabled && (force || (r.next_run_at_ms matches Some(n) && n <= at))
}

/// Due tasks come earliest next run first (no next run before any), then
/// oldest first.
pub open spec fn due_key(r: RecurringTask) -> Seq<KeyView> {
    seq![
        match r.next_run_at_ms {
            Some(n) => KeyView::Num(n as int),
            None => KeyView::Absent,
        },
        KeyView::Text(r.created_at@),
    ]
}

pub open spec fn due_keys(s: Seq<RecurringTask>) -> Seq<Seq<KeyView>> {
    s.map_values(|r: RecurringTask| due_key(r))
}

fn due_key_of(r: &RecurringTask) -> (k: Vec<KeyPart>)
    ensures
        key_view(k) == due_key(*r),
{
    let mut k: Vec<KeyPart> = Vec::new();
    match r.next_run_at_ms {
        Some(n) => k.push(KeyPart::Num(n)),
        None => k.push(KeyPart::Absent),
    }
    k.push(KeyPart::Text(crate::text::chars_of(r.created_at.as_str())));
    assert(key_view(k) =~= due_key(*r));
    k
}

impl WorkStore {

    /// Position of the record with this id.
    pub open spec fn recurring_at(self, id: Seq<char>) -> Option<int> {
        first_index(self.recurring@.map_values(|x: RecurringTask| x.id@), id)
    }

    pub fn recurring_position(&self, id: &str) -> (r: Option<usize>)
        ensures
            r matches Some(i) ==> self.recurring_at(id@) == Some(i as int) && i < self.recurring.len(),
            r is None ==> self.recurring_at(id@) is None,
    {
        let ghost ids = self.recurring@.map_values(|x: RecurringTask| x.id@);
        let mut i: usize = 0;
        while i < self.recurring.len()
            invariant
                i <= self.recurring.len(),
                ids == self.recurring@.map_values(|x: RecurringTask| x.id@),
                forall|j: int| 0 <= j < i ==> ids[j] != id@,
            decreases self.recurring.len() - i,
        {
            if crate::text::str_equal(self.recurring[i].id.as_str(), id) {
                proof {
                    lemma_first_index(ids, id@, i as int);
                }
                return Some(i);
            }
            i += 1;
        }
        proof {
            lemma_first_index(ids, id@, i as int);
        }
        None
    }


    /// Position of the record with this id.
    pub open spec fn materialization_at(self, id: Seq<char>) -> Option<int> {
        first_index(self.materializations@.map_values(|x: RecurringTaskMaterialization| x.id@), id)
    }

    pub fn materialization_position(&self, id: &str) -> (r: Option<usize>)
        ensures
            r matches Some(i) ==> self.materialization_at(id@) == Some(i as int) && i < self.materializations.len(),
            r is None ==> self.materialization_at(id@) is None,
    {
        let ghost ids = self.materializations@.map_values(|x: RecurringTaskMaterialization| x.id@);
        let mut i: usize = 0;
        while i < self.materializations.len()
            invariant
                i <= self.materializations.len(),
                ids == self.materializations@.map_values(|x: RecurringTaskMaterialization| x.id@),
                forall|j: int| 0 <= j < i ==> ids[j] != id@,
            decreases self.materializations.len() - i,
        {
            if crate::text::str_equal(self.materializations[i].id.as_str(), id) {
                proof {
                    lemma_first_index(ids, id@, i as int);
                }
                return Some(i);
            }
            i += 1;
        }
        proof {
            lemma_first_index(ids, id@, i as int);
        }
        None
    }


    /// The recurring tasks a filter selects, most recently updated first.
    pub fn list_recurring_tasks(&self, filter: &RecurringTaskFilter) -> (r: Vec<RecurringTask>)
        ensures
            is_ordering(
                r@,
                self.recurring@.filter(recurring_filter(*filter)),
                self.recurring@.filter(recurring_filter(*filter)).map_values(|x: RecurringTask| recency_key(x.updated_at@, x.created_at@)),
                true,
            ),
    {
        let ghost all = self.recurring@;
        let ghost pred = recurring_filter(*filter);
        let mut rows: Vec<RecurringTask> = Vec::new();
        let mut i: usize = 0;
        while i < self.recurring.len()
            invariant
                i <= self.recurring.len(),
                all == self.recurring@,
                pred == recurring_filter(*filter),
                rows@ == all.take(i as int).filter(pred),
            decreases self.recurring.len() - i,
        {
            proof {
                lemma_filter_step(all, pred, i as int);
            }
            let x = &self.recurring[i];
            if filter_match(&filter.template_id, &x.template_id) && opt_filter_match(&filter.goal_id, &x.goal_id) && opt_filter_match(&filter.project_id, &x.project_id) && match filter.enabled { None => true, Some(e) => x.enabled == e } {
                rows.push(x.copy());
            }
            i += 1;
        }
        assert(all.take(i as int) =~= all);
        let mut keys: Vec<Vec<KeyPart>> = Vec::new();
        let mut j: usize = 0;
        while j < rows.len()
            invariant
                j <= rows.len(),
                keys.len() == j,
                forall|y: int| 0 <= y < j ==> key_view(#[trigger] keys@[y]) == ({ let x = rows@[y]; recency_key(x.updated_at@, x.created_at@) }),
            decreases rows.len() - j,
        {
            let x = &rows[j];
            keys.push(recency_key_of(&x.updated_at, &x.created_at));
            j += 1;
        }
        assert(keys_view(keys@) =~= rows@.map_values(|x: RecurringTask| recency_key(x.updated_at@, x.created_at@)));
        let order = sort_order(&keys, true);
        let mut out: Vec<RecurringTask> = Vec::new();
        let mut k: usize = 0;
        while k < order.len()
            invariant
                k <= order.len(),
                order.len() == rows.len(),
                out.len() == k,
                forall|y: int| 0 <= y < order.len() ==> order@[y] < rows.len(),
                forall|y: int| 0 <= y < k ==> out@[y] == rows@[order@[y] as int],
            decreases order.len() - k,
        {
            out.push(rows[order[k]].copy());
            k += 1;
        }
        assert(is_sorted_order(rows@.map_values(|x: RecurringTask| recency_key(x.updated_at@, x.created_at@)), order@, true));
        out
    }


    /// Materializations of one recurring task, or all, newest first.
    fn ordered_materializations(&self, recurring_task_id: Option<&str>) -> (r: Vec<RecurringTaskMaterialization>)
        ensures
            is_ordering(
                r@,
                self.materializations@.filter(materialization_of(opt_str_view(recurring_task_id))),
                materialization_keys(self.materializations@.filter(materialization_of(opt_str_view(recurring_task_id)))),
                true,
            ),
    {
        let ghost all = self.materializations@;
        let ghost pred = materialization_of(opt_str_view(recurring_task_id));
        let mut rows: Vec<RecurringTaskMaterialization> = Vec::new();
        let mut i: usize = 0;
        while i < self.materializations.len()
            invariant
                i <= self.materializations.len(),
                all == self.materializations@,
                pred == materialization_of(opt_str_view(recurring_task_id)),
                rows@ == all.take(i as int).filter(pred),
            decreases self.materializations.len() - i,
        {
            proof {
                lemma_filter_step(all, pred, i as int);
            }
            let x = &self.materializations[i];
            if match recurring_task_id { None => true, Some(i) => crate::text::str_equal(x.recurring_task_id.as_str(), i) } {
                rows.push(x.copy());
            }
            i += 1;
        }
        assert(all.take(i as int) =~= all);
        let mut keys: Vec<Vec<KeyPart>> = Vec::new();
        let mut j: usize = 0;
        while j < rows.len()
            invariant
                j <= rows.len(),
                keys.len() == j,
                forall|y: int| 0 <= y < j ==> key_view(#[trigger] keys@[y]) == ({ let x = rows@[y]; text_key(x.created_at@) }),
            decreases rows.len() - j,
        {
            let x = &rows[j];
            keys.push(text_key_of(&x.created_at));
            j += 1;
        }
        assert(keys_view(keys@) =~= materialization_keys(rows@));
        let order = sort_order(&keys, true);
        let mut out: Vec<RecurringTaskMaterialization> = Vec::new();
        let mut k: usize = 0;
        while k < order.len()
            invariant
                k <= order.len(),
                order.len() == rows.len(),
                out.len() == k,
                forall|y: int| 0 <= y < order.len() ==> order@[y] < rows.len(),
                forall|y: int| 0 <= y < k ==> out@[y] == rows@[order@[y] as int],
            decreases order.len() - k,
        {
            out.push(rows[order[k]].copy());
            k += 1;
        }
        assert(is_sorted_order(materialization_keys(rows@), order@, true));
        out
    }


    /// The due recurring tasks, earliest next run first.
    fn ordered_due(&self, recurring_task_id: Option<&str>, force: bool, evaluation_ms: u64) -> (r: Vec<RecurringTask>)
        ensures
            is_ordering(
                r@,
                self.recurring@.filter(is_due(opt_str_view(recurring_task_id), force, evaluation_ms)),
                due_keys(self.recurring@.filter(is_due(opt_str_view(recurring_task_id), force, evaluation_ms))),
                false,
            ),
    {
        let ghost all = self.recurring@;
        let ghost pred = is_due(opt_str_view(recurring_task_id), force, evaluation_ms);
        let mut rows: Vec<RecurringTask> = Vec::new();
        let mut i: usize = 0;
        while i < self.recurring.len()
            invariant
                i <= self.recurring.len(),
                all == self.recurring@,
                pred == is_due(opt_str_view(recurring_task_id), force, evaluation_ms),
                rows@ == all.take(i as int).filter(pred),
            decreases self.recurring.len() - i,
        {
            proof {
                lemma_filter_step(all, pred, i as int);
            }
            let x = &self.recurring[i];
            if (match recurring_task_id { None => true, Some(i) => crate::text::str_equal(x.id.as_str(), i) }) && x.enabled && (force || match x.next_run_at_ms { Some(n) => n <= evaluation_ms, None => false }) {
                rows.push(x.copy());
            }
            i += 1;
        }
        assert(all.take(i as int) =~= all);
        let mut keys: Vec<Vec<KeyPart>> = Vec::new();
        let mut j: usize = 0;
        while j < rows.len()
            invariant
                j <= rows.len(),
                keys.len() == j,
                forall|y: int| 0 <= y < j ==> key_view(#[trigger] keys@[y]) == ({ let x = rows@[y]; due_key(x) }),
            decreases rows.len() - j,
        {
            let x = &rows[j];
            keys.push(due_key_of(x));
            j += 1;
        }
        assert(keys_view(keys@) =~= due_keys(rows@));
        let order = sort_order(&keys, false);
        let mut out: Vec<RecurringTask> = Vec::new();
        let mut k: usize = 0;
        while k < order.len()
            invariant
                k <= order.len(),
                order.len() == rows.len(),
                out.len() == k,
                forall|y: int| 0 <= y < order.len() ==> order@[y] < rows.len(),
                forall|y: int| 0 <= y < k ==> out@[y] == rows@[order@[y] as int],
            decreases order.len() - k,
        {
            out.push(rows[order[k]].copy());
            k += 1;
        }
        assert(is_sorted_order(due_keys(rows@), order@, false));
        out
    }

}


/// Only the tasks and their dependencies may differ.
pub open spec fn same_task_graph(a: WorkStore, b: WorkStore) -> bool {
    a.tasks == b.tasks && a.task_dependencies == b.task_dependencies
}

/// What materializing a due recurring task asks to instantiate.
pub open spec fn recurring_instantiation(r: RecurringTask) -> InstantiateTaskTemplate {
    InstantiateTaskTemplate {
        template_id: r.template_id,
        list_key: r.list_key,
        goal_id: r.goal_id,
        parent_task_id: None,
        owner: r.owner,
        project_id: r.project_id,
    }
}

/// A recurring task after it was materialized at `at`.
pub open spec fn materialized_recurring(r: RecurringTask, next: Option<u64>, at: u64, now: String) -> RecurringTask {
    RecurringTask { next_run_at_ms: next, last_materialized_at_ms: Some(at), updated_at: now, ..r }
}

impl WorkStore {
    /// The recurring task with this id.
    pub fn get_recurring_task(&self, id: &str) -> (r: Option<RecurringTask>)
        ensures
            match self.recurring_at(id@) {
                Some(i) => r == Some(self.recurring@[i]),
                None => r is None,
            },
    {
        match self.recurring_position(id) {
            Some(i) => Some(self.recurring[i].copy()),
            None => None,
        }
    }

    /// Creates a recurring task for an existing template.  `next_run` is when
    /// its schedule next runs after now, or why that could not be worked
    /// out; it is used only for an enabled task.
    pub fn create_recurring_task_at(
        &mut self,
        task: NewRecurringTask,
        id: String,
        now: String,
        next_run: Result<Option<u64>, String>,
    ) -> (r: Result<RecurringTask, WorkError>)
        ensures
            if old(self).template_at(task.template_id@) is None {
                r matches Err(e) && e.is_not_found(RecordKind::TaskTemplate, task.template_id@) && *final(self) == *old(self)
            } else if task.enabled && next_run is Err {
                r matches Err(WorkError::Schedule { message }) && message == next_run->Err_0 && *final(self) == *old(self)
            } else {
                match r {
                    Ok(x) => {
                        &&& old(self).recurring_at(id@) is None
                        &&& x == new_recurring(task, id, now, if next_run is Ok { next_run->Ok_0 } else { None })
                        &&& final(self).recurring@ == old(self).recurring@.push(x)
                        &&& only_recurring_changed(*old(self), *final(self))
                    },
                    Err(e) => old(self).recurring_at(id@) is Some && e.is_duplicate(RecordKind::RecurringTask, id@) && *final(self) == *old(self),
                }
            },
    {
        if self.template_position(task.template_id.as_str()).is_none() {
            return Err(WorkError::NotFound { kind: RecordKind::TaskTemplate, id: task.template_id });
        }
        let next: Option<u64> = if task.enabled {
            match next_run {
                Ok(n) => n,
                Err(message) => return Err(WorkError::Schedule { message }),
            }
        } else {
            None
        };
        if self.recurring_position(id.as_str()).is_some() {
            return Err(WorkError::DuplicateId { kind: RecordKind::RecurringTask, id });
        }
        let x = RecurringTask {
            id,
            name: task.name,
            template_id: task.template_id,
            schedule_json: task.schedule_json,
            enabled: task.enabled,
            list_key: task.list_key,
            goal_id: task.goal_id,
            owner: task.owner,
            project_id: task.project_id,
            next_run_at_ms: next,
            last_materialized_at_ms: None,
            created_at: now.clone(),
            updated_at: now,
        };
        self.recurring.push(x.copy());
        Ok(x)
    }

    /// Applies a patch to the recurring task with this id, if there is one;
    /// its template must exist.  `next_run` is when the patched schedule next
    /// runs after now, or why that could not be worked out; it is used only
    /// when the patch enables or reschedules an enabled task.
    pub fn update_recurring_task_at(
        &mut self,
        id: &str,
        patch: RecurringTaskPatch,
        now: String,
        next_run: Result<Option<u64>, String>,
    ) -> (r: Result<Option<RecurringTask>, WorkError>)
        ensures
            match old(self).recurring_at(id@) {
                None => r matches Ok(None) && *final(self) == *old(self),
                Some(i) => {
                    let e = old(self).recurring@[i];
                    let template_id = match patch.template_id {
                        Some(t) => t,
                        None => e.template_id,
                    };
                    if old(self).template_at(template_id@) is None {
                        r matches Err(err) && err.is_not_found(RecordKind::TaskTemplate, template_id@) && *final(self) == *old(self)
                    } else if patch_recomputes(e, patch) && next_run is Err {
                        r matches Err(WorkError::Schedule { message }) && message == next_run->Err_0 && *final(self) == *old(self)
                    } else {
                        let x = patched_recurring(e, patch, if next_run is Ok { next_run->Ok_0 } else { None }, now);
                        &&& r == Ok::<Option<RecurringTask>, WorkError>(Some(x))
                        &&& final(self).recurring@ == old(self).recurring@.update(i, x)
                        &&& only_recurring_changed(*old(self), *final(self))
                    }
                },
            },
    {
        let i = match self.recurring_position(id) {
            Some(i) => i,
            None => return Ok(None),
        };
        let e = self.recurring[i].copy();
        let template_id = match patch.template_id {
            Some(t) => t,
            None => e.template_id,
        };
        if self.template_position(template_id.as_str()).is_none() {
            return Err(WorkError::NotFound { kind: RecordKind::TaskTemplate, id: template_id });
        }
        let recompute = patch.enabled.is_some() || patch.schedule_json.is_some();
        let enabled = match patch.enabled {
            Some(b) => b,
            None => e.enabled,
        };
        let next: Option<u64> = if enabled && recompute {
            match next_run {
                Ok(n) => n,
                Err(message) => return Err(WorkError::Schedule { message }),
            }
        } else if enabled {
            e.next_run_at_ms
        } else {
            None
        };
        let x = RecurringTask {
            id: e.id,
            name: match patch.name {
                Some(n) => n,
                None => e.name,
            },
            template_id,
            schedule_json: match patch.schedule_json {
                Some(sc) => sc,
                None => e.schedule_json,
            },
            enabled,
            list_key: or_else_keep(patch.list_key, e.list_key),
            goal_id: or_else_keep(patch.goal_id, e.goal_id),
            owner: or_else_keep(patch.owner, e.owner),
            project_id: or_else_keep(patch.project_id, e.project_id),
            next_run_at_ms: next,
            last_materialized_at_ms: e.last_materialized_at_ms,
            created_at: e.created_at,
            updated_at: now,
        };
        self.recurring.set(i, x.copy());
        Ok(Some(x))
    }

    /// Materializations of one recurring task, or all, newest first, at most
    /// `limit` of them.
    pub fn list_recurring_materializations(&self, recurring_task_id: Option<&str>, limit: u32) -> (r: Vec<RecurringTaskMaterialization>)
        ensures
            exists|full: Seq<RecurringTaskMaterialization>| {
                &&& #[trigger] is_ordering(
                    full,
                    self.materializations@.filter(materialization_of(opt_str_view(recurring_task_id))),
                    materialization_keys(self.materializations@.filter(materialization_of(opt_str_view(recurring_task_id)))),
                    true,
                )
                &&& r@ == full.take(crate::tracker::min_len(limit as int, full.len() as int))
            },
    {
        let full = self.ordered_materializations(recurring_task_id);
        let mut out: Vec<RecurringTaskMaterialization> = Vec::new();
        let mut i: usize = 0;
        while i < full.len() && i < limit as usize
            invariant
                i <= full.len(),
                i <= limit,
                out@ == full@.take(i as int),
            decreases full.len() - i,
        {
            out.push(full[i].copy());
            i += 1;
            assert(out@ =~= full@.take(i as int));
        }
        assert(i == crate::tracker::min_len(limit as int, full@.len() as int));
        out
    }

    /// The recurring tasks due at `evaluation_ms` (or, with `force`, every
    /// enabled one), earliest next run first, at most `limit` of them (20
    /// when none is given).
    pub fn due_recurring_tasks(
        &self,
        recurring_task_id: Option<&str>,
        limit: Option<u32>,
        force: bool,
        evaluation_ms: u64,
    ) -> (r: Vec<RecurringTask>)
        ensures
            exists|full: Seq<RecurringTask>| {
                &&& #[trigger] is_ordering(
                    full,
                    self.recurring@.filter(is_due(opt_str_view(recurring_task_id), force, evaluation_ms)),
                    due_keys(self.recurring@.filter(is_due(opt_str_view(recurring_task_id), force, evaluation_ms))),
                    false,
                )
                &&& r@ == full.take(crate::tracker::min_len(crate::tracker::limit_or(limit, 20), full.len() as int))
            },
    {
        let full = self.ordered_due(recurring_task_id, force, evaluation_ms);
        let lim: usize = match limit {
            Some(l) => l as usize,
            None => 20,
        };
        let mut out: Vec<RecurringTask> = Vec::new();
        let mut i: usize = 0;
        while i < full.len() && i < lim
            invariant
                i <= full.len(),
                i <= lim,
                lim == crate::tracker::limit_or(limit, 20),
                out@ == full@.take(i as int),
            decreases full.len() - i,
        {
            out.push(full[i].copy());
            i += 1;
            assert(out@ =~= full@.take(i as int));
        }
        assert(i == crate::tracker::min_len(crate::tracker::limit_or(limit, 20), full@.len() as int));
        out
    }
}


/// The recurring tasks after the one with id `id` was materialized.
pub open spec fn recurring_marked(rows: Seq<RecurringTask>, id: Seq<char>, next: Option<u64>, at: u64, now: String) -> Seq<RecurringTask> {
    match first_index(rows.map_values(|r: RecurringTask| r.id@), id) {
        Some(i) => rows.update(i, materialized_recurring(rows[i], next, at, now)),
        None => rows,
    }
}

/// The next runs worked out, where they were.
pub open spec fn next_values(next_runs: Seq<Result<Option<u64>, String>>) -> Seq<Option<u64>> {
    next_runs.map_values(|r: Result<Option<u64>, String>| match r {
        Ok(n) => n,
        Err(_) => None,
    })
}

/// The recurring tasks after the first `n` due tasks were materialized.
pub open spec fn recurring_after(
    rows: Seq<RecurringTask>,
    due: Seq<RecurringTask>,
    nexts: Seq<Option<u64>>,
    n: int,
    at: u64,
    now: String,
) -> Seq<RecurringTask>
    decreases n,
{
    if n <= 0 {
        rows
    } else {
        recurring_marked(recurring_after(rows, due, nexts, n - 1, at, now), due[n - 1].id@, nexts[n - 1], at, now)
    }
}

/// The materialization recorded for a due task.
pub open spec fn is_materialization_of(m: RecurringTaskMaterialization, r: RecurringTask, at: u64, now: String) -> bool {
    &&& m.recurring_task_id == r.id
    &&& m.template_id == r.template_id
    &&& m.scheduled_for_ms == match r.next_run_at_ms {
        Some(n) => n,
        None => at,
    }
    &&& m.created_at == now
}

/// The tables a materialization pass leaves as they were.
pub open spec fn materializing_keeps(a: WorkStore, b: WorkStore) -> bool {
    &&& a.goals == b.goals
    &&& a.templates == b.templates
    &&& a.template_dependencies == b.template_dependencies
    &&& a.comments == b.comments
    &&& a.links == b.links
    &&& a.runs == b.runs
    &&& a.approvals == b.approvals
    &&& a.costs == b.costs
    &&& a.budgets == b.budgets
}

/// The tasks evolve by one instantiation per due task, in order.
pub open spec fn instantiation_chain(
    start: WorkStore,
    end: WorkStore,
    due: Seq<RecurringTask>,
    mats: Seq<RecurringTaskMaterialization>,
    befores: Seq<WorkStore>,
    afters: Seq<WorkStore>,
    insts: Seq<TemplateInstantiationResult>,
    now: String,
) -> bool {
    let n = mats.len();
    &&& befores.len() == n && afters.len() == n && insts.len() == n
    &&& n == 0 ==> same_task_graph(start, end)
    &&& n > 0 ==> same_task_graph(start, befores[0]) && same_task_graph(afters[n - 1], end)
    &&& forall|k: int| 0 <= k < n - 1 ==> same_task_graph(#[trigger] afters[k], befores[k + 1])
    &&& forall|k: int|
        0 <= k < n ==> instantiation_outcome(
            #[trigger] befores[k],
            afters[k],
            recurring_instantiation(due[k]),
            now,
            Ok(insts[k]),
        ) && mats[k].root_task_id == insts[k].root_task_id
}

/// The first `k` due tasks were materialized, in order, turning `start`
/// into `mid`: `mats` are their materializations, under the first `k` ids.
pub open spec fn materialized_upto(
    start: WorkStore,
    mid: WorkStore,
    due: Seq<RecurringTask>,
    next_runs: Seq<Result<Option<u64>, String>>,
    ids: Seq<String>,
    k: int,
    mats: Seq<RecurringTaskMaterialization>,
    befores: Seq<WorkStore>,
    afters: Seq<WorkStore>,
    insts: Seq<TemplateInstantiationResult>,
    at: u64,
    now: String,
) -> bool {
    &&& mats.len() == k
    &&& forall|j: int| 0 <= j < k ==> is_materialization_of(#[trigger] mats[j], due[j], at, now) && mats[j].id == ids[j]
    &&& forall|j: int| 0 <= j < k ==> #[trigger] next_runs[j] is Ok
    &&& mid.materializations@ == start.materializations@ + mats
    &&& mid.recurring@ == recurring_after(start.recurring@, due, next_values(next_runs), k, at, now)
    &&& materializing_keeps(start, mid)
    &&& instantiation_chain(start, mid, due, mats, befores, afters, insts, now)
}

/// Every table but the materializations is the same.
pub open spec fn only_materializations_changed(a: WorkStore, b: WorkStore) -> bool {
    &&& a.goals == b.goals
    &&& a.tasks == b.tasks
    &&& a.task_dependencies == b.task_dependencies
    &&& a.templates == b.templates
    &&& a.template_dependencies == b.template_dependencies
    &&& a.comments == b.comments
    &&& a.links == b.links
    &&& a.runs == b.runs
    &&& a.approvals == b.approvals
    &&& a.costs == b.costs
    &&& a.budgets == b.budgets
    &&& a.recurring == b.recurring
}

/// How materializing the `k`th due task failed, from `mid`: its
/// materialization id was taken (nothing written), its instantiation
/// failed (as instantiations fail), or its materialization was recorded
/// and then its next run could not be worked out.
pub open spec fn materialize_step_failed(
    mid: WorkStore,
    end: WorkStore,
    due: RecurringTask,
    next_run: Result<Option<u64>, String>,
    id: String,
    at: u64,
    now: String,
    e: WorkError,
) -> bool {
    if mid.materialization_at(id@) is Some {
        e.is_duplicate(RecordKind::Materialization, id@) && end == mid
    } else {
        ||| instantiation_outcome(mid, end, recurring_instantiation(due), now, Err(e))
        ||| exists|made: WorkStore, inst: TemplateInstantiationResult| {
            &&& #[trigger] instantiation_outcome(mid, made, recurring_instantiation(due), now, Ok(inst))
            &&& next_run is Err
            &&& e == WorkError::Schedule { message: next_run->Err_0 }
            &&& end.materializations@.len() == made.materializations@.len() + 1
            &&& end.materializations@ == made.materializations@.push(end.materializations@.last())
            &&& is_materialization_of(end.materializations@.last(), due, at, now)
            &&& end.materializations@.last().id == id
            &&& end.materializations@.last().root_task_id == inst.root_task_id
            &&& only_materializations_changed(made, end)
        }
    }
}

/// What materializing the due tasks `due` with the materialization ids
/// `ids` does: all of them are materialized in order, or those before the
/// failing one are and the failing one fails as `materialize_step_failed`
/// says.
pub open spec fn recurring_materialized(
    before: WorkStore,
    after: WorkStore,
    due: Seq<RecurringTask>,
    next_runs: Seq<Result<Option<u64>, String>>,
    ids: Seq<String>,
    at: u64,
    now: String,
    r: Result<RecurringTaskMaterializeResult, WorkError>,
) -> bool {
    match r {
        Ok(res) => {
            &&& res.count == due.len()
            &&& exists|befores: Seq<WorkStore>, afters: Seq<WorkStore>, insts: Seq<TemplateInstantiationResult>|
                #[trigger] materialized_upto(before, after, due, next_runs, ids, due.len() as int, res.materializations@, befores, afters, insts, at, now)
        },
        Err(e) => exists|k: int, mid: WorkStore, mats: Seq<RecurringTaskMaterialization>, befores: Seq<WorkStore>, afters: Seq<WorkStore>, insts: Seq<TemplateInstantiationResult>|
            #![trigger materialized_upto(before, mid, due, next_runs, ids, k, mats, befores, afters, insts, at, now)]
            0 <= k < due.len() && materialized_upto(before, mid, due, next_runs, ids, k, mats, befores, afters, insts, at, now)
                && materialize_step_failed(mid, after, due[k], next_runs[k], ids[k], at, now, e),
    }
}

impl WorkStore {
    /// Materializes due recurring tasks: each instantiates its template,
    /// records a materialization (under `ids[k]` for `due[k]`), and moves on
    /// to its next run (`next_runs[k]` is when the schedule of `due[k]` next
    /// runs after the evaluation time, or why that could not be worked out).
    /// On a failure, the due tasks before the failing one stay materialized.
    pub fn materialize_recurring_at(
        &mut self,
        due: &Vec<RecurringTask>,
        next_runs: &Vec<Result<Option<u64>, String>>,
        ids: &Vec<String>,
        evaluation_ms: u64,
        now: String,
    ) -> (r: Result<RecurringTaskMaterializeResult, WorkError>)
        requires
            old(self).templates_unique(),
            due.len() == next_runs.len(),
            ids.len() == due.len(),
        ensures
            recurring_materialized(*old(self), *final(self), due@, next_runs@, ids@, evaluation_ms, now, r),
    {
        let ghost nexts = next_values(next_runs@);
        let mut mats: Vec<RecurringTaskMaterialization> = Vec::new();
        let ghost mut befores: Seq<WorkStore> = Seq::empty();
        let ghost mut afters: Seq<WorkStore> = Seq::empty();
        let ghost mut insts: Seq<TemplateInstantiationResult> = Seq::empty();
        let mut k: usize = 0;
        while k < due.len()
            invariant
                k <= due.len(),
                due.len() == next_runs.len(),
                nexts == next_values(next_runs@),
                self.templates_unique(),
                ids.len() == due.len(),
                materialized_upto(*old(self), *self, due@, next_runs@, ids@, k as int, mats@, befores, afters, insts, evaluation_ms, now),
            decreases due.len() - k,
        {
            let rec = &due[k];
            let scheduled_for = match rec.next_run_at_ms {
                Some(n) => n,
                None => evaluation_ms,
            };
            let params = InstantiateTaskTemplate {
                template_id: rec.template_id.clone(),
                list_key: crate::text::clone_opt(&rec.list_key),
                goal_id: crate::text::clone_opt(&rec.goal_id),
                parent_task_id: None,
                owner: crate::text::clone_opt(&rec.owner),
                project_id: crate::text::clone_opt(&rec.project_id),
            };
            let ghost before = *self;
            if self.materialization_position(ids[k].as_str()).is_some() {
                let e = WorkError::DuplicateId { kind: RecordKind::Materialization, id: ids[k].clone() };
                assert(materialize_step_failed(before, *self, due@[k as int], next_runs@[k as int], ids@[k as int], evaluation_ms, now, e));
                return Err(e);
            }
            let created = match self.instantiate_task_template_at(params, now.clone()) {
                Ok(c) => c,
                Err(e) => {
                    assert(materialize_step_failed(before, *self, due@[k as int], next_runs@[k as int], ids@[k as int], evaluation_ms, now, e));
                    return Err(e);
                },
            };
            let ghost after = *self;
            let materialization_id = ids[k].clone();
            let m = RecurringTaskMaterialization {
                id: materialization_id,
                recurring_task_id: rec.id.clone(),
                template_id: rec.template_id.clone(),
                root_task_id: created.root_task_id.clone(),
                scheduled_for_ms: scheduled_for,
                created_at: now.clone(),
            };
            self.materializations.push(m.copy());
            let next = match &next_runs[k] {
                Ok(n) => *n,
                Err(message) => {
                    let e = WorkError::Schedule { message: message.clone() };
                    proof {
                        assert(self.materializations@ =~= after.materializations@.push(m));
                        assert(instantiation_outcome(before, after, recurring_instantiation(due@[k as int]), now, Ok(created)));
                    }
                    assert(materialize_step_failed(before, *self, due@[k as int], next_runs@[k as int], ids@[k as int], evaluation_ms, now, e));
                    return Err(e);
                },
            };
            match self.recurring_position(rec.id.as_str()) {
                Some(i) => {
                    let e = self.recurring[i].copy();
                    let updated = RecurringTask {
                        id: e.id,
                        name: e.name,
                        template_id: e.template_id,
                        schedule_json: e.schedule_json,
                        enabled: e.enabled,
                        list_key: e.list_key,
                        goal_id: e.goal_id,
                        owner: e.owner,
                        project_id: e.project_id,
                        next_run_at_ms: next,
                        last_materialized_at_ms: Some(evaluation_ms),
                        created_at: e.created_at,
                        updated_at: now.clone(),
                    };
                    self.recurring.set(i, updated);
                },
                None => {},
            }
            proof {
                befores = befores.push(before);
                afters = afters.push(after);
                insts = insts.push(created);
            }
            let ghost old_mats = mats@;
            mats.push(m);
            proof {
                assert(self.materializations@ =~= old(self).materializations@ + mats@);
                assert(nexts[k as int] == next);
                assert(instantiation_outcome(befores[k as int], afters[k as int], recurring_instantiation(due@[k as int]), now, Ok(insts[k as int])));
                assert forall|j: int| 0 <= j < k + 1 implies is_materialization_of(#[trigger] mats@[j], due@[j], evaluation_ms, now) && mats@[j].id == ids@[j] by {
                    if j < k {
                        assert(mats@[j] == old_mats[j]);
                    }
                }
            }
            k += 1;
        }
        let count = mats.len();
        let res = RecurringTaskMaterializeResult { materializations: mats, count };
        assert(materialized_upto(*old(self), *self, due@, next_runs@, ids@, due.len() as int, res.materializations@, befores, afters, insts, evaluation_ms, now));
        assert(exists|bs: Seq<WorkStore>, as_: Seq<WorkStore>, is: Seq<TemplateInstantiationResult>|
            #[trigger] materialized_upto(*old(self), *self, due@, next_runs@, ids@, due.len() as int, res.materializations@, bs, as_, is, evaluation_ms, now));
        Ok(res)
    }
}

} // verus!
