//! The work graph's operations stamped with a fresh id and the current
//! time: each does what its `_at` form does with values drawn from the
//! clock and the id generator.

use vstd::prelude::*;

use crate::activity::{decided_approval, new_approval, new_run, only_approvals_changed, only_comments_changed, only_runs_changed, patched_run};
use crate::budget::{new_cost, only_costs_changed};
use crate::error::{RecordKind, WorkError};
use crate::goals::{new_goal_row, only_goals_changed, patched_goal};
use crate::order::{by_text, is_ordering};
use crate::planning::goal_planned;
use crate::records::{Goal, GoalPatch, GoalPlanRequest, GoalPlanResult, InstantiateTaskTemplate, NewGoal, NewRecurringTask, NewTask, NewTaskApproval, NewTaskComment, NewTaskCostAttribution, NewTaskRun, NewTaskTemplate, NewWorkBudget, RecurringTask, RecurringTaskPatch, Task, TaskApproval, TaskApprovalPatch, TaskComment, TaskCostAttribution, TaskPatch, TaskRun, TaskRunPatch, TaskTemplate, TaskTemplatePatch, TemplateInstantiationResult, TrackerImportRequest, TrackerImportResult, WorkBudget};
use crate::recurring::{recurring_materialized, new_recurring, only_recurring_changed, patch_recomputes, patched_recurring};
use crate::store::{claim_patch, deps_replaced, new_task_row, only_tasks_changed, patched_task_row, task_assembled};
use crate::templates::{template_assembled, instantiation_outcome, new_template_row, only_templates_changed, patched_template_row};
use crate::text::{texts};
use crate::tracker::tracker_imported;
use crate::types::{TaskStatus};
use crate::budget::{budget_saved, budget_enforced, opt_view, statuses_of, tokens_overflow, UsdTally};
use crate::records::{BudgetCheck, RecurringTaskMaterializeResult};
use crate::package_import::{package_imported, GoalRecord, PackageImportCounts, TaskRecord};
use crate::store::WorkStore;
use crate::types::BudgetScope;

verus! {

/// Any id and time: what the operations below are stated for.
pub open spec fn drawn(id: String, now: String) -> bool {
    true
}

/// Any two ids and a time: what the operations below are stated for.
pub open spec fn drawn_ids(first: String, second: String, now: String) -> bool {
    true
}

/// Any ids and a time: what the operations below are stated for.
pub open spec fn drawn_many(ids: Seq<String>, now: String) -> bool {
    true
}

/// Any time: what the operations below are stated for.
pub open spec fn drawn_at(now: String) -> bool {
    true
}

impl WorkStore {
    /// Creates a task.
    ///
    /// Uses a fresh id and the current time.
    pub fn create_task(&mut self, task: NewTask) -> (r: Result<Task, WorkError>)
        ensures
            exists|id: String, now: String| #![trigger drawn(id, now)] {
                &&& match r {
                    Ok(t) => {
                        &&& old(self).task_at(id@) is None
                        &&& final(self).tasks@ == old(self).tasks@.push(new_task_row(task, id, now))
                        &&& final(self).task_dependencies@ == deps_replaced(
                            old(self).task_dependencies@,
                            id,
                            task.blocked_by@,
                        )
                        &&& only_tasks_changed(*old(self), *final(self))
                        &&& task_assembled(t, new_task_row(task, id, now), texts(task.blocked_by@))
                    },
                    Err(e) => {
                        &&& old(self).task_at(id@) is Some
                        &&& e.is_duplicate(RecordKind::Task, id@)
                        &&& *final(self) == *old(self)
                    },
                }
            },
    {
        let id = crate::clock::new_id();
        let now = crate::clock::now_iso();
        let r = self.create_task_at(task, id.clone(), now.clone());
        assert(drawn(id, now));
        r
    }

    /// Applies a patch to the task with this id, if there is one.
    ///
    /// Uses the current time.
    pub fn update_task(&mut self, id: &str, patch: TaskPatch) -> (r: Option<Task>)
        ensures
            exists|now: String| #![trigger drawn_at(now)] {
                &&& match old(self).task_at(id@) {
                    None => r is None && *final(self) == *old(self),
                    Some(i) => {
                        let row = patched_task_row(old(self).tasks@[i], patch, now);
                        &&& final(self).tasks@ == old(self).tasks@.update(i, row)
                        &&& final(self).task_dependencies@ == match patch.blocked_by {
                            Some(b) => deps_replaced(old(self).task_dependencies@, old(self).tasks@[i].id, b@),
                            None => old(self).task_dependencies@,
                        }
                        &&& only_tasks_changed(*old(self), *final(self))
                        &&& r matches Some(t) && task_assembled(t, row, final(self).task_deps(id@))
                    },
                }
            },
    {
        let now = crate::clock::now_iso();
        let r = self.update_task_at(id, patch, now.clone());
        assert(drawn_at(now));
        r
    }

    /// Claims a pending or blocked task whose dependencies are all completed
    /// or cancelled: it moves to in progress with the given owner and session.
    ///
    /// Uses the current time.
    pub fn claim_task(&mut self, id: &str, owner: Option<String>, session_key: Option<String>) -> (r: Result<Option<Task>, WorkError>)
        ensures
            exists|now: String| #![trigger drawn_at(now)] {
                &&& match old(self).task_at(id@) {
                    None => r matches Ok(None) && *final(self) == *old(self),
                    Some(i) => {
                        let row = old(self).tasks@[i];
                        if row.status != TaskStatus::Pending && row.status != TaskStatus::Blocked {
                            &&& r matches Err(WorkError::ClaimFromStatus { id: eid, status })
                            &&& eid@ == id@ && status == row.status
                            &&& *final(self) == *old(self)
                        } else if old(self).incomplete_deps(id@).len() > 0 {
                            &&& r matches Err(WorkError::ClaimBlocked { id: eid, blocked_by })
                            &&& eid@ == id@
                            &&& is_ordering(
                                texts(blocked_by@),
                                old(self).incomplete_deps(id@),
                                by_text(old(self).incomplete_deps(id@)),
                                false,
                            )
                            &&& *final(self) == *old(self)
                        } else {
                            let claimed = patched_task_row(row, claim_patch(owner, session_key), now);
                            &&& final(self).tasks@ == old(self).tasks@.update(i, claimed)
                            &&& final(self).task_dependencies@ == old(self).task_dependencies@
                            &&& only_tasks_changed(*old(self), *final(self))
                            &&& r matches Ok(Some(t)) && task_assembled(t, claimed, final(self).task_deps(id@))
                        }
                    },
                }
            },
    {
        let now = crate::clock::now_iso();
        let r = self.claim_task_at(id, owner, session_key, now.clone());
        assert(drawn_at(now));
        r
    }

    /// Creates a goal.
    ///
    /// Uses a fresh id and the current time.
    pub fn create_goal(&mut self, goal: NewGoal) -> (r: Result<Goal, WorkError>)
        ensures
            exists|id: String, now: String| #![trigger drawn(id, now)] {
                &&& match r {
                    Ok(g) => {
                        &&& old(self).goal_at(id@) is None
                        &&& g == new_goal_row(goal, id, now)
                        &&& final(self).goals@ == old(self).goals@.push(g)
                        &&& only_goals_changed(*old(self), *final(self))
                    },
                    Err(e) => old(self).goal_at(id@) is Some && e.is_duplicate(RecordKind::Goal, id@) && *final(self)
                        == *old(self),
                }
            },
    {
        let id = crate::clock::new_id();
        let now = crate::clock::now_iso();
        let r = self.create_goal_at(goal, id.clone(), now.clone());
        assert(drawn(id, now));
        r
    }

    /// Applies a patch to the goal with this id, if there is one.
    ///
    /// Uses the current time.
    pub fn update_goal(&mut self, id: &str, patch: GoalPatch) -> (r: Option<Goal>)
        ensures
            exists|now: String| #![trigger drawn_at(now)] {
                &&& match old(self).goal_at(id@) {
                    None => r is None && *final(self) == *old(self),
                    Some(i) => {
                        &&& r == Some(patched_goal(old(self).goals@[i], patch, now))
                        &&& final(self).goals@ == old(self).goals@.update(i, patched_goal(old(self).goals@[i], patch, now))
                        &&& only_goals_changed(*old(self), *final(self))
                    },
                }
            },
    {
        let now = crate::clock::now_iso();
        let r = self.update_goal_at(id, patch, now.clone());
        assert(drawn_at(now));
        r
    }

    /// Creates a template.
    ///
    /// Uses a fresh id and the current time.
    pub fn create_task_template(&mut self, template: NewTaskTemplate) -> (r: Result<TaskTemplate, WorkError>)
        ensures
            exists|id: String, now: String| #![trigger drawn(id, now)] {
                &&& match r {
                    Ok(t) => {
                        &&& old(self).template_at(id@) is None
                        &&& final(self).templates@ == old(self).templates@.push(new_template_row(template, id, now))
                        &&& final(self).template_dependencies@ == deps_replaced(
                            old(self).template_dependencies@,
                            id,
                            template.blocked_by@,
                        )
                        &&& only_templates_changed(*old(self), *final(self))
                        &&& template_assembled(t, new_template_row(template, id, now), texts(template.blocked_by@))
                    },
                    Err(e) => {
                        &&& old(self).template_at(id@) is Some
                        &&& e.is_duplicate(RecordKind::TaskTemplate, id@)
                        &&& *final(self) == *old(self)
                    },
                }
            },
    {
        let id = crate::clock::new_id();
        let now = crate::clock::now_iso();
        let r = self.create_task_template_at(template, id.clone(), now.clone());
        assert(drawn(id, now));
        r
    }

    /// Applies a patch to the template with this id, if there is one.
    ///
    /// Uses the current time.
    pub fn update_task_template(&mut self, id: &str, patch: TaskTemplatePatch) -> (r: Option<TaskTemplate>)
        ensures
            exists|now: String| #![trigger drawn_at(now)] {
                &&& match old(self).template_at(id@) {
                    None => r is None && *final(self) == *old(self),
                    Some(i) => {
                        let row = patched_template_row(old(self).templates@[i], patch, now);
                        &&& final(self).templates@ == old(self).templates@.update(i, row)
                        &&& final(self).template_dependencies@ == match patch.blocked_by {
                            Some(b) => deps_replaced(old(self).template_dependencies@, old(self).templates@[i].id, b@),
                            None => old(self).template_dependencies@,
                        }
                        &&& only_templates_changed(*old(self), *final(self))
                        &&& r matches Some(t) && template_assembled(t, row, final(self).template_deps(id@))
                    },
                }
            },
    {
        let now = crate::clock::now_iso();
        let r = self.update_task_template_at(id, patch, now.clone());
        assert(drawn_at(now));
        r
    }

    /// Creates one pending task per template of the tree under the request's
    /// template, linked as the templates are: each task's parent is the task
    /// of its template's parent, and each dependency between templates
    /// becomes one between their tasks.  Nothing is written unless every
    /// task and dependency can be.
    ///
    /// Uses the current time.
    pub fn instantiate_task_template(&mut self, params: InstantiateTaskTemplate) -> (r: Result<TemplateInstantiationResult, WorkError>)
        requires
            old(self).templates_unique(),
        ensures
            exists|now: String| #![trigger drawn_at(now)] {
                &&& instantiation_outcome(*old(self), *final(self), params, now, r)
            },
    {
        let now = crate::clock::now_iso();
        let r = self.instantiate_task_template_at(params, now.clone());
        assert(drawn_at(now));
        r
    }

    /// Plans a goal from a preset: a root template for the goal and one
    /// template per step of the preset under it, each step blocked by the one
    /// before; with `instantiate`, the tree also becomes tasks.
    ///
    /// Uses fresh ids for the templates and the current time.
    pub fn plan_goal(&mut self, request: GoalPlanRequest) -> (r: Result<GoalPlanResult, WorkError>)
        requires
            old(self).templates_unique(),
        ensures
            exists|ids: Seq<String>, now: String| #![trigger drawn_many(ids, now)]
                ids.len() == 5 && goal_planned(*old(self), *final(self), request, ids, now, r),
    {
        let mut ids: Vec<String> = Vec::new();
        while ids.len() < 5
            invariant
                ids.len() <= 5,
            decreases 5 - ids.len(),
        {
            ids.push(crate::clock::new_id());
        }
        let now = crate::clock::now_iso();
        let ghost drawn_ids_v = ids@;
        let r = self.plan_goal_at(request, ids, now.clone());
        assert(drawn_many(drawn_ids_v, now));
        r
    }

    /// Adds a comment.
    ///
    /// Uses a fresh id and the current time.
    pub fn add_comment(&mut self, comment: NewTaskComment) -> (r: Result<TaskComment, WorkError>)
        ensures
            exists|id: String, now: String| #![trigger drawn(id, now)] {
                &&& match r {
                    Ok(c) => {
                        &&& old(self).comment_at(id@) is None
                        &&& c == (TaskComment { id: id, task_id: comment.task_id, author: comment.author, body: comment.body, created_at: now })
                        &&& final(self).comments@ == old(self).comments@.push(c)
                        &&& only_comments_changed(*old(self), *final(self))
                    },
                    Err(e) => old(self).comment_at(id@) is Some && e.is_duplicate(RecordKind::Comment, id@) && *final(self) == *old(self),
                }
            },
    {
        let id = crate::clock::new_id();
        let now = crate::clock::now_iso();
        let r = self.add_comment_at(comment, id.clone(), now.clone());
        assert(drawn(id, now));
        r
    }

    /// Records a run.
    ///
    /// Uses a fresh id and the current time.
    pub fn create_run(&mut self, run: NewTaskRun) -> (r: Result<TaskRun, WorkError>)
        ensures
            exists|id: String, now: String| #![trigger drawn(id, now)] {
                &&& match r {
                    Ok(x) => {
                        &&& old(self).run_at(id@) is None
                        &&& x == new_run(run, id, now)
                        &&& final(self).runs@ == old(self).runs@.push(x)
                        &&& only_runs_changed(*old(self), *final(self))
                    },
                    Err(e) => old(self).run_at(id@) is Some && e.is_duplicate(RecordKind::Run, id@) && *final(self) == *old(self),
                }
            },
    {
        let id = crate::clock::new_id();
        let now = crate::clock::now_iso();
        let r = self.create_run_at(run, id.clone(), now.clone());
        assert(drawn(id, now));
        r
    }

    /// Applies a patch to the run with this id, if there is one.
    ///
    /// Uses the current time.
    pub fn update_run(&mut self, id: &str, patch: TaskRunPatch) -> (r: Option<TaskRun>)
        ensures
            exists|now: String| #![trigger drawn_at(now)] {
                &&& match old(self).run_at(id@) {
                    None => r is None && *final(self) == *old(self),
                    Some(i) => {
                        &&& r == Some(patched_run(old(self).runs@[i], patch, now))
                        &&& final(self).runs@ == old(self).runs@.update(i, patched_run(old(self).runs@[i], patch, now))
                        &&& only_runs_changed(*old(self), *final(self))
                    },
                }
            },
    {
        let now = crate::clock::now_iso();
        let r = self.update_run_at(id, patch, now.clone());
        assert(drawn_at(now));
        r
    }

    /// Creates an approval request.
    ///
    /// Uses a fresh id and the current time.
    pub fn create_approval(&mut self, approval: NewTaskApproval) -> (r: Result<TaskApproval, WorkError>)
        ensures
            exists|id: String, now: String| #![trigger drawn(id, now)] {
                &&& match r {
                    Ok(x) => {
                        &&& old(self).approval_at(id@) is None
                        &&& x == new_approval(approval, id, now)
                        &&& final(self).approvals@ == old(self).approvals@.push(x)
                        &&& only_approvals_changed(*old(self), *final(self))
                    },
                    Err(e) => old(self).approval_at(id@) is Some && e.is_duplicate(RecordKind::Approval, id@) && *final(self) == *old(self),
                }
            },
    {
        let id = crate::clock::new_id();
        let now = crate::clock::now_iso();
        let r = self.create_approval_at(approval, id.clone(), now.clone());
        assert(drawn(id, now));
        r
    }

    /// Records a decision on the approval with this id, if there is one.
    ///
    /// Uses the current time.
    pub fn update_approval(&mut self, id: &str, patch: TaskApprovalPatch) -> (r: Option<TaskApproval>)
        ensures
            exists|now: String| #![trigger drawn_at(now)] {
                &&& match old(self).approval_at(id@) {
                    None => r is None && *final(self) == *old(self),
                    Some(i) => {
                        &&& r == Some(decided_approval(old(self).approvals@[i], patch, now))
                        &&& final(self).approvals@ == old(self).approvals@.update(i, decided_approval(old(self).approvals@[i], patch, now))
                        &&& only_approvals_changed(*old(self), *final(self))
                    },
                }
            },
    {
        let now = crate::clock::now_iso();
        let r = self.update_approval_at(id, patch, now.clone());
        assert(drawn_at(now));
        r
    }

    /// Records token use against an existing task.
    ///
    /// Uses a fresh id and the current time.
    pub fn record_cost(&mut self, entry: NewTaskCostAttribution) -> (r: Result<TaskCostAttribution, WorkError>)
        ensures
            exists|id: String, now: String| #![trigger drawn(id, now)] {
                &&& match old(self).task_at(entry.task_id@) {
                    None => r matches Err(e) && e.is_not_found(RecordKind::Task, entry.task_id@) && *final(self) == *old(self),
                    Some(i) => match r {
                        Ok(c) => {
                            &&& old(self).cost_at(id@) is None
                            &&& c == new_cost(entry, old(self).tasks@[i], id, now)
                            &&& final(self).costs@ == old(self).costs@.push(c)
                            &&& only_costs_changed(*old(self), *final(self))
                        },
                        Err(e) => old(self).cost_at(id@) is Some && e.is_duplicate(RecordKind::Cost, id@) && *final(self) == *old(self),
                    },
                }
            },
    {
        let id = crate::clock::new_id();
        let now = crate::clock::now_iso();
        let r = self.record_cost_at(entry, id.clone(), now.clone());
        assert(drawn(id, now));
        r
    }

    /// Saves the limits of a scope: the scope's budget takes them, keeping its
    /// id and creation time; a scope without a budget gets a new one.
    ///
    /// Uses a fresh id and the current time.
    pub fn save_budget(&mut self, budget: NewWorkBudget) -> (r: Result<WorkBudget, WorkError>)
        ensures
            exists|id: String, now: String| #![trigger drawn(id, now)] budget_saved(*old(self), *final(self), budget, id, now, r),
            old(self).budgets_one_per_scope() ==> final(self).budgets_one_per_scope(),
    {
        let id = crate::clock::new_id();
        let now = crate::clock::now_iso();
        let r = self.save_budget_at(budget, id.clone(), now.clone());
        assert(drawn(id, now));
        r
    }

    /// Imports a tracker record: the task it names (by request or by its
    /// link) takes the record's title, body and status, or a new task is
    /// created for it; then the record's link is written.
    ///
    /// Uses fresh ids for a new task and a new link, and the current time.
    pub fn import_tracker_task(&mut self, request: TrackerImportRequest) -> (r: Result<TrackerImportResult, WorkError>)
        ensures
            exists|task_id: String, link_id: String, now: String| #![trigger drawn_ids(task_id, link_id, now)]
                tracker_imported(*old(self), *final(self), request, task_id, link_id, now, r),
    {
        let task_id = crate::clock::new_id();
        let link_id = crate::clock::new_id();
        let now = crate::clock::now_iso();
        let r = self.import_tracker_task_at(request, task_id.clone(), link_id.clone(), now.clone());
        assert(drawn_ids(task_id, link_id, now));
        r
    }

    /// Creates a recurring task for an existing template.  `next_run` is when
    /// its schedule next runs after now, or why that could not be worked
    /// out; it is used only for an enabled task.
    ///
    /// Uses a fresh id and the current time.
    pub fn create_recurring_task(&mut self, task: NewRecurringTask, next_run: Result<Option<u64>, String>) -> (r: Result<RecurringTask, WorkError>)
        ensures
            exists|id: String, now: String| #![trigger drawn(id, now)] {
                &&& if old(self).template_at(task.template_id@) is None {
                    r matches Err(e) && e.is_not_found(RecordKind::TaskTemplate, task.template_id@) && *final(self) == *old(self)
                } else if task.enabled && next_run is Err {
                    r matches Err(WorkError::Schedule { message }) && message == next_run->Err_0 && *final(self) == *old(self)
                } else {
                    match r {
                        Ok(x) => {
                            &&& old(self).recurring_at(id@) is None
                            &&& x == new_recurring(task, id, now, if next_run is Ok { next_run->Ok_0 } else { None })
                            &&& final(self).recurring@ == old(self).recurring@.push(x)
                            &&& only_recurring_changed(*old(self), *final(self))
                        },
                        Err(e) => old(self).recurring_at(id@) is Some && e.is_duplicate(RecordKind::RecurringTask, id@) && *final(self) == *old(self),
                    }
                }
            },
    {
        let id = crate::clock::new_id();
        let now = crate::clock::now_iso();
        let r = self.create_recurring_task_at(task, id.clone(), now.clone(), next_run);
        assert(drawn(id, now));
        r
    }

    /// Applies a patch to the recurring task with this id, if there is one;
    /// its template must exist.  `next_run` is when the patched schedule next
    /// runs after now, or why that could not be worked out; it is used only
    /// when the patch enables or reschedules an enabled task.
    ///
    /// Uses the current time.
    pub fn update_recurring_task(&mut self, id: &str, patch: RecurringTaskPatch, next_run: Result<Option<u64>, String>) -> (r: Result<Option<RecurringTask>, WorkError>)
        ensures
            exists|now: String| #![trigger drawn_at(now)] {
                &&& match old(self).recurring_at(id@) {
                    None => r matches Ok(None) && *final(self) == *old(self),
                    Some(i) => {
                        let e = old(self).recurring@[i];
                        let template_id = match patch.template_id {
                            Some(t) => t,
                            None => e.template_id,
                        };
                        if old(self).template_at(template_id@) is None {
                            r matches Err(err) && err.is_not_found(RecordKind::TaskTemplate, template_id@) && *final(self) == *old(self)
                        } else if patch_recomputes(e, patch) && next_run is Err {
                            r matches Err(WorkError::Schedule { message }) && message == next_run->Err_0 && *final(self) == *old(self)
                        } else {
                            let x = patched_recurring(e, patch, if next_run is Ok { next_run->Ok_0 } else { None }, now);
                            &&& r == Ok::<Option<RecurringTask>, WorkError>(Some(x))
                            &&& final(self).recurring@ == old(self).recurring@.update(i, x)
                            &&& only_recurring_changed(*old(self), *final(self))
                        }
                    },
                }
            },
    {
        let now = crate::clock::now_iso();
        let r = self.update_recurring_task_at(id, patch, now.clone(), next_run);
        assert(drawn_at(now));
        r
    }


    /// Materializes due recurring tasks: each instantiates its template,
    /// records a materialization, and moves on to its next run
    /// (`next_runs[k]` is when the schedule of `due[k]` next runs after the
    /// evaluation time, or why that could not be worked out).
    ///
    /// Uses fresh ids for the materializations and the current time.
    pub fn materialize_recurring(
        &mut self,
        due: &Vec<RecurringTask>,
        next_runs: &Vec<Result<Option<u64>, String>>,
        evaluation_ms: u64,
    ) -> (r: Result<RecurringTaskMaterializeResult, WorkError>)
        requires
            old(self).templates_unique(),
            due.len() == next_runs.len(),
        ensures
            exists|ids: Seq<String>, now: String| #![trigger drawn_many(ids, now)]
                ids.len() == due.len() && recurring_materialized(*old(self), *final(self), due@, next_runs@, ids, evaluation_ms, now, r),
    {
        let mut ids: Vec<String> = Vec::new();
        while ids.len() < due.len()
            invariant
                ids.len() <= due.len(),
            decreases due.len() - ids.len(),
        {
            ids.push(crate::clock::new_id());
        }
        let now = crate::clock::now_iso();
        let r = self.materialize_recurring_at(due, next_runs, &ids, evaluation_ms, now.clone());
        assert(drawn_many(ids@, now));
        r
    }

    /// Imports a package: each goal record, then each task record, then each
    /// budget entry.
    ///
    /// Uses fresh ids for new budgets and the current time.
    pub fn import_package(
        &mut self,
        goals: &Vec<GoalRecord>,
        tasks: &Vec<TaskRecord>,
        budgets: &Vec<NewWorkBudget>,
    ) -> (r: Result<PackageImportCounts, WorkError>)
        ensures
            exists|ids: Seq<String>, now: String| #![trigger drawn_many(ids, now)]
                ids.len() == budgets.len() && package_imported(*old(self), *final(self), goals@, tasks@, budgets@, ids, now, r),
    {
        let mut ids: Vec<String> = Vec::new();
        while ids.len() < budgets.len()
            invariant
                ids.len() <= budgets.len(),
            decreases budgets.len() - ids.len(),
        {
            ids.push(crate::clock::new_id());
        }
        let now = crate::clock::now_iso();
        let r = self.import_package_at(goals, tasks, budgets, &ids, now.clone());
        assert(drawn_many(ids@, now));
        r
    }

    /// Checks a task against the statuses of its budgets, given the
    /// caller's dollar tallies in the order of `budgets_for_task`: the task
    /// may go on when no hard limit is reached or an override was approved;
    /// otherwise it waits on a pending override request.
    ///
    /// Uses the current time (and a fresh id for a new request).
    pub fn enforce_task_budget(&mut self, task_id: &str, usd: &Vec<UsdTally>) -> (r: Result<BudgetCheck, WorkError>)
        ensures
            exists|id: String, now: String| #![trigger drawn(id, now)] match old(self).task_at(task_id@) {
                None => r matches Err(e) && e.is_not_found(RecordKind::Task, task_id@) && *final(self) == *old(self),
                Some(i) => exists|a: Seq<WorkBudget>, b: Seq<WorkBudget>, d: Seq<WorkBudget>| {
                    &&& #[trigger] old(self).is_scope_listing(a, BudgetScope::Task, Some(task_id@))
                    &&& #[trigger] old(self).is_scope_listing(b, BudgetScope::Goal, opt_view(old(self).tasks@[i].goal_id))
                    &&& #[trigger] old(self).is_scope_listing(d, BudgetScope::Project, opt_view(old(self).tasks@[i].project_id))
                    &&& if tokens_overflow(old(self).costs@, a + b + d) {
                        r matches Err(e) && e is TokenTotalOverflow && *final(self) == *old(self)
                    } else {
                        budget_enforced(*old(self), *final(self), task_id@, statuses_of(old(self).costs@, a + b + d, usd@), id, now, r)
                    }
                },
            },
    {
        let id = crate::clock::new_id();
        let now = crate::clock::now_iso();
        assert(drawn(id, now));
        let scopes = match self.budget_statuses_for_task(task_id, usd) {
            Ok(v) => v,
            Err(e) => return Err(e),
        };
        let r = self.enforce_task_budget_at(task_id, scopes, id.clone(), now.clone());
        assert(drawn(id, now));
        r
    }
}

} // verus!
