//! Comments, runs and approvals attached to tasks.

use vstd::prelude::*;

use crate::error::{RecordKind, WorkError};
use crate::order::{
    is_ordering, is_sorted_order, key_view, keys_view, recency_key, recency_key_of, sort_order,
    text_key, text_key_of, KeyPart,
};
use crate::records::{
    NewTaskApproval, NewTaskComment, NewTaskRun, TaskApproval, TaskApprovalPatch, TaskComment,
    TaskRun, TaskRunPatch,
};
use crate::store::{lemma_filter_step, or_keep, WorkStore};
use crate::text::{first_index, lemma_first_index, or_else_keep, opt_str_view};
use crate::types::{ApprovalStatus, RunStatus};

verus! {

/// Every table but `comments` is the same.
pub open spec fn only_comments_changed(a: WorkStore, b: WorkStore) -> bool {
    &&& a.goals == b.goals
    &&& a.tasks == b.tasks
    &&& a.task_dependencies == b.task_dependencies
    &&& a.templates == b.templates
    &&& a.template_dependencies == b.template_dependencies
    &&& a.links == b.links
    &&& a.runs == b.runs
    &&& a.approvals == b.approvals
    &&& a.costs == b.costs
    &&& a.budgets == b.budgets
    &&& a.recurring == b.recurring
    &&& a.materializations == b.materializations
}

/// Every table but `runs` is the same.
pub open spec fn only_runs_changed(a: WorkStore, b: WorkStore) -> bool {
    &&& a.goals == b.goals
    &&& a.tasks == b.tasks
    &&& a.task_dependencies == b.task_dependencies
    &&& a.templates == b.templates
    &&& a.template_dependencies == b.template_dependencies
    &&& a.comments == b.comments
    &&& a.links == b.links
    &&& a.approvals == b.approvals
    &&& a.costs == b.costs
    &&& a.budgets == b.budgets
    &&& a.recurring == b.recurring
    &&& a.materializations == b.materializations
}

/// Every table but `approvals` is the same.
pub open spec fn only_approvals_changed(a: WorkStore, b: WorkStore) -> bool {
    &&& a.goals == b.goals
    &&& a.tasks == b.tasks
    &&& a.task_dependencies == b.task_dependencies
    &&& a.templates == b.templates
    &&& a.template_dependencies == b.template_dependencies
    &&& a.comments == b.comments
    &&& a.links == b.links
    &&& a.runs == b.runs
    &&& a.costs == b.costs
    &&& a.budgets == b.budgets
    &&& a.recurring == b.recurring
    &&& a.materializations == b.materializations
}

/// Comments on one task.
pub open spec fn comment_of(task_id: Seq<char>) -> spec_fn(TaskComment) -> bool {
    |c: TaskComment| c.task_id@ == task_id
}

/// Runs of one task, or of every task.
pub open spec fn run_of(task_id: Option<Seq<char>>) -> spec_fn(TaskRun) -> bool {
    |r: TaskRun| match task_id {
        None => true,
        Some(t) => r.task_id@ == t,
    }
}

/// Approvals of one task, or every approval.
pub open spec fn approval_of(task_id: Option<Seq<char>>) -> spec_fn(TaskApproval) -> bool {
    |a: TaskApproval| match task_id {
        None => true,
        Some(t) => a.task_id matches Some(v) && v@ == t,
    }
}

/// The run a request records: no token counts or duration yet.
pub open spec fn new_run(run: NewTaskRun, id: String, now: String) -> TaskRun {
    TaskRun {
        id: id,
        task_id: run.task_id,
        runtime_run_id: run.runtime_run_id,
        session_key: run.session_key,
        agent_id: run.agent_id,
        provider: run.provider,
        model: run.model,
        status: run.status,
        summary: run.summary,
        input_tokens: None,
        output_tokens: None,
        request_input_tokens: None,
        request_output_tokens: None,
        duration_ms: None,
        created_at: now,
        updated_at: now,
    }
}

/// A run after a patch: present fields replace stored ones.
pub open spec fn patched_run(r: TaskRun, p: TaskRunPatch, now: String) -> TaskRun {
    TaskRun {
        status: match p.status {
            Some(s) => s,
            None => r.status,
        },
        summary: or_keep(p.summary, r.summary),
        input_tokens: or_keep(p.input_tokens, r.input_tokens),
        output_tokens: or_keep(p.output_tokens, r.output_tokens),
        request_input_tokens: or_keep(p.request_input_tokens, r.request_input_tokens),
        request_output_tokens: or_keep(p.request_output_tokens, r.request_output_tokens),
        duration_ms: or_keep(p.duration_ms, r.duration_ms),
        updated_at: now,
        ..r
    }
}

/// The approval a request creates; it is not resolved yet.
pub open spec fn new_approval(a: NewTaskApproval, id: String, now: String) -> TaskApproval {
    TaskApproval {
        id: id,
        task_id: a.task_id,
        kind: a.kind,
        status: a.status,
        reason: a.reason,
        created_at: now,
        updated_at: now,
        resolved_at: None,
    }
}

/// An approval after a decision: the decision's status and reason; an
/// approved or rejected request is resolved now, a pending one is not.
pub open spec fn decided_approval(a: TaskApproval, p: TaskApprovalPatch, now: String) -> TaskApproval {
    TaskApproval {
        status: p.status,
        reason: p.reason,
        updated_at: now,
        resolved_at: if p.status == ApprovalStatus::Pending {
            None
        } else {
            Some(now)
        },
        ..a
    }
}

fn keep_u32(first: Option<u32>, second: Option<u32>) -> (r: Option<u32>)
    ensures
        r == or_keep(first, second),
{
    match first {
        Some(v) => Some(v),
        None => second,
    }
}

fn keep_u64(first: Option<u64>, second: Option<u64>) -> (r: Option<u64>)
    ensures
        r == or_keep(first, second),
{
    match first {
        Some(v) => Some(v),
        None => second,
    }
}

impl WorkStore {

    /// Position of the record with this id.
    pub open spec fn comment_at(self, id: Seq<char>) -> Option<int> {
        first_index(self.comments@.map_values(|x: TaskComment| x.id@), id)
    }

    pub fn comment_position(&self, id: &str) -> (r: Option<usize>)
        ensures
            r matches Some(i) ==> self.comment_at(id@) == Some(i as int) && i < self.comments.len(),
            r is None ==> self.comment_at(id@) is None,
    {
        let ghost ids = self.comments@.map_values(|x: TaskComment| x.id@);
        let mut i: usize = 0;
        while i < self.comments.len()
            invariant
                i <= self.comments.len(),
                ids == self.comments@.map_values(|x: TaskComment| x.id@),
                forall|j: int| 0 <= j < i ==> ids[j] != id@,
            decreases self.comments.len() - i,
        {
            if crate::text::str_equal(self.comments[i].id.as_str(), id) {
                proof {
                    lemma_first_index(ids, id@, i as int);
                }
                return Some(i);
            }
            i += 1;
        }
        proof {
            lemma_first_index(ids, id@, i as int);
        }
        None
    }


    /// Position of the record with this id.
    pub open spec fn run_at(self, id: Seq<char>) -> Option<int> {
        first_index(self.runs@.map_values(|x: TaskRun| x.id@), id)
    }

    pub fn run_position(&self, id: &str) -> (r: Option<usize>)
        ensures
            r matches Some(i) ==> self.run_at(id@) == Some(i as int) && i < self.runs.len(),
            r is None ==> self.run_at(id@) is None,
    {
        let ghost ids = self.runs@.map_values(|x: TaskRun| x.id@);
        let mut i: usize = 0;
        while i < self.runs.len()
            invariant
                i <= self.runs.len(),
                ids == self.runs@.map_values(|x: TaskRun| x.id@),
                forall|j: int| 0 <= j < i ==> ids[j] != id@,
            decreases self.runs.len() - i,
        {
            if crate::text::str_equal(self.runs[i].id.as_str(), id) {
                proof {
                    lemma_first_index(ids, id@, i as int);
                }
                return Some(i);
            }
            i += 1;
        }
        proof {
            lemma_first_index(ids, id@, i as int);
        }
        None
    }


    /// Position of the record with this id.
    pub open spec fn approval_at(self, id: Seq<char>) -> Option<int> {
        first_index(self.approvals@.map_values(|x: TaskApproval| x.id@), id)
    }

    pub fn approval_position(&self, id: &str) -> (r: Option<usize>)
        ensures
            r matches Some(i) ==> self.approval_at(id@) == Some(i as int) && i < self.approvals.len(),
            r is None ==> self.approval_at(id@) is None,
    {
        let ghost ids = self.approvals@.map_values(|x: TaskApproval| x.id@);
        let mut i: usize = 0;
        while i < self.approvals.len()
            invariant
                i <= self.approvals.len(),
                ids == self.approvals@.map_values(|x: TaskApproval| x.id@),
                forall|j: int| 0 <= j < i ==> ids[j] != id@,
            decreases self.approvals.len() - i,
        {
            if crate::text::str_equal(self.approvals[i].id.as_str(), id) {
                proof {
                    lemma_first_index(ids, id@, i as int);
                }
                return Some(i);
            }
            i += 1;
        }
        proof {
            lemma_first_index(ids, id@, i as int);
        }
        None
    }


    /// The comments on a task, oldest first.
    pub fn list_comments(&self, task_id: &str) -> (r: Vec<TaskComment>)
        ensures
            is_ordering(
                r@,
                self.comments@.filter(comment_of(task_id@)),
                self.comments@.filter(comment_of(task_id@)).map_values(|x: TaskComment| text_key(x.created_at@)),
                false,
            ),
    {
        let ghost all = self.comments@;
        let ghost pred = comment_of(task_id@);
        let mut rows: Vec<TaskComment> = Vec::new();
        let mut i: usize = 0;
        while i < self.comments.len()
            invariant
                i <= self.comments.len(),
                all == self.comments@,
                pred == comment_of(task_id@),
                rows@ == all.take(i as int).filter(pred),
            decreases self.comments.len() - i,
        {
            proof {
                lemma_filter_step(all, pred, i as int);
            }
            let x = &self.comments[i];
            if crate::text::str_equal(x.task_id.as_str(), task_id) {
                rows.push(x.copy());
            }
            i += 1;
        }
        assert(all.take(i as int) =~= all);
        let mut keys: Vec<Vec<KeyPart>> = Vec::new();
        let mut j: usize = 0;
        while j < rows.len()
            invariant
                j <= rows.len(),
                keys.len() == j,
                forall|y: int| 0 <= y < j ==> key_view(#[trigger] keys@[y]) == ({ let x = rows@[y]; text_key(x.created_at@) }),
            decreases rows.len() - j,
        {
            let x = &rows[j];
            keys.push(text_key_of(&x.created_at));
            j += 1;
        }
        assert(keys_view(keys@) =~= rows@.map_values(|x: TaskComment| text_key(x.created_at@)));
        let order = sort_order(&keys, false);
        let mut out: Vec<TaskComment> = Vec::new();
        let mut k: usize = 0;
        while k < order.len()
            invariant
                k <= order.len(),
                order.len() == rows.len(),
                out.len() == k,
                forall|y: int| 0 <= y < order.len() ==> order@[y] < rows.len(),
                forall|y: int| 0 <= y < k ==> out@[y] == rows@[order@[y] as int],
            decreases order.len() - k,
        {
            out.push(rows[order[k]].copy());
            k += 1;
        }
        assert(is_sorted_order(rows@.map_values(|x: TaskComment| text_key(x.created_at@)), order@, false));
        out
    }


    /// The runs of a task, or every run, most recently updated first.
    pub fn list_runs(&self, task_id: Option<&str>) -> (r: Vec<TaskRun>)
        ensures
            is_ordering(
                r@,
                self.runs@.filter(run_of(opt_str_view(task_id))),
                self.runs@.filter(run_of(opt_str_view(task_id))).map_values(|x: TaskRun| recency_key(x.updated_at@, x.created_at@)),
                true,
            ),
    {
        let ghost all = self.runs@;
        let ghost pred = run_of(opt_str_view(task_id));
        let mut rows: Vec<TaskRun> = Vec::new();
        let mut i: usize = 0;
        while i < self.runs.len()
            invariant
                i <= self.runs.len(),
                all == self.runs@,
                pred == run_of(opt_str_view(task_id)),
                rows@ == all.take(i as int).filter(pred),
            decreases self.runs.len() - i,
        {
            proof {
                lemma_filter_step(all, pred, i as int);
            }
            let x = &self.runs[i];
            if match task_id { None => true, Some(t) => crate::text::str_equal(x.task_id.as_str(), t) } {
                rows.push(x.copy());
            }
            i += 1;
        }
        assert(all.take(i as int) =~= all);
        let mut keys: Vec<Vec<KeyPart>> = Vec::new();
        let mut j: usize = 0;
        while j < rows.len()
            invariant
                j <= rows.len(),
                keys.len() == j,
                forall|y: int| 0 <= y < j ==> key_view(#[trigger] keys@[y]) == ({ let x = rows@[y]; recency_key(x.updated_at@, x.created_at@) }),
            decreases rows.len() - j,
        {
            let x = &rows[j];
            keys.push(recency_key_of(&x.updated_at, &x.created_at));
            j += 1;
        }
        assert(keys_view(keys@) =~= rows@.map_values(|x: TaskRun| recency_key(x.updated_at@, x.created_at@)));
        let order = sort_order(&keys, true);
        let mut out: Vec<TaskRun> = Vec::new();
        let mut k: usize = 0;
        while k < order.len()
            invariant
                k <= order.len(),
                order.len() == rows.len(),
                out.len() == k,
                forall|y: int| 0 <= y < order.len() ==> order@[y] < rows.len(),
                forall|y: int| 0 <= y < k ==> out@[y] == rows@[order@[y] as int],
            decreases order.len() - k,
        {
            out.push(rows[order[k]].copy());
            k += 1;
        }
        assert(is_sorted_order(rows@.map_values(|x: TaskRun| recency_key(x.updated_at@, x.created_at@)), order@, true));
        out
    }


    /// The approvals of a task, or every approval, most recently updated first.
    pub fn list_approvals(&self, task_id: Option<&str>) -> (r: Vec<TaskApproval>)
        ensures
            is_ordering(
                r@,
                self.approvals@.filter(approval_of(opt_str_view(task_id))),
                self.approvals@.filter(approval_of(opt_str_view(task_id))).map_values(|x: TaskApproval| recency_key(x.updated_at@, x.created_at@)),
                true,
            ),
    {
        let ghost all = self.approvals@;
        let ghost pred = approval_of(opt_str_view(task_id));
        let mut rows: Vec<TaskApproval> = Vec::new();
        let mut i: usize = 0;
        while i < self.approvals.len()
            invariant
                i <= self.approvals.len(),
                all == self.approvals@,
                pred == approval_of(opt_str_view(task_id)),
                rows@ == all.take(i as int).filter(pred),
            decreases self.approvals.len() - i,
        {
            proof {
                lemma_filter_step(all, pred, i as int);
            }
            let x = &self.approvals[i];
            if match task_id { None => true, Some(t) => match &x.task_id { Some(v) => crate::text::str_equal(v.as_str(), t), None => false } } {
                rows.push(x.copy());
            }
            i += 1;
        }
        assert(all.take(i as int) =~= all);
        let mut keys: Vec<Vec<KeyPart>> = Vec::new();
        let mut j: usize = 0;
        while j < rows.len()
            invariant
                j <= rows.len(),
                keys.len() == j,
                forall|y: int| 0 <= y < j ==> key_view(#[trigger] keys@[y]) == ({ let x = rows@[y]; recency_key(x.updated_at@, x.created_at@) }),
            decreases rows.len() - j,
        {
            let x = &rows[j];
            keys.push(recency_key_of(&x.updated_at, &x.created_at));
            j += 1;
        }
        assert(keys_view(keys@) =~= rows@.map_values(|x: TaskApproval| recency_key(x.updated_at@, x.created_at@)));
        let order = sort_order(&keys, true);
        let mut out: Vec<TaskApproval> = Vec::new();
        let mut k: usize = 0;
        while k < order.len()
            invariant
                k <= order.len(),
                order.len() == rows.len(),
                out.len() == k,
                forall|y: int| 0 <= y < order.len() ==> order@[y] < rows.len(),
                forall|y: int| 0 <= y < k ==> out@[y] == rows@[order@[y] as int],
            decreases order.len() - k,
        {
            out.push(rows[order[k]].copy());
            k += 1;
        }
        assert(is_sorted_order(rows@.map_values(|x: TaskApproval| recency_key(x.updated_at@, x.created_at@)), order@, true));
        out
    }


    /// Adds a comment with the given id and time.
    pub fn add_comment_at(&mut self, comment: NewTaskComment, id: String, now: String) -> (r: Result<TaskComment, WorkError>)
        ensures
            match r {
                Ok(c) => {
                    &&& old(self).comment_at(id@) is None
                    &&& c == (TaskComment { id: id, task_id: comment.task_id, author: comment.author, body: comment.body, created_at: now })
                    &&& final(self).comments@ == old(self).comments@.push(c)
                    &&& only_comments_changed(*old(self), *final(self))
                },
                Err(e) => old(self).comment_at(id@) is Some && e.is_duplicate(RecordKind::Comment, id@) && *final(self) == *old(self),
            },
    {
        if self.comment_position(id.as_str()).is_some() {
            return Err(WorkError::DuplicateId { kind: RecordKind::Comment, id });
        }
        let c = TaskComment { id, task_id: comment.task_id, author: comment.author, body: comment.body, created_at: now };
        self.comments.push(c.copy());
        Ok(c)
    }

    /// Records a run with the given id and time.
    pub fn create_run_at(&mut self, run: NewTaskRun, id: String, now: String) -> (r: Result<TaskRun, WorkError>)
        ensures
            match r {
                Ok(x) => {
                    &&& old(self).run_at(id@) is None
                    &&& x == new_run(run, id, now)
                    &&& final(self).runs@ == old(self).runs@.push(x)
                    &&& only_runs_changed(*old(self), *final(self))
                },
                Err(e) => old(self).run_at(id@) is Some && e.is_duplicate(RecordKind::Run, id@) && *final(self) == *old(self),
            },
    {
        if self.run_position(id.as_str()).is_some() {
            return Err(WorkError::DuplicateId { kind: RecordKind::Run, id });
        }
        let x = TaskRun {
            id,
            task_id: run.task_id,
            runtime_run_id: run.runtime_run_id,
            session_key: run.session_key,
            agent_id: run.agent_id,
            provider: run.provider,
            model: run.model,
            status: run.status,
            summary: run.summary,
            input_tokens: None,
            output_tokens: None,
            request_input_tokens: None,
            request_output_tokens: None,
            duration_ms: None,
            created_at: now.clone(),
            updated_at: now,
        };
        self.runs.push(x.copy());
        Ok(x)
    }

    /// Applies a patch to the run with this id, if there is one.
    pub fn update_run_at(&mut self, id: &str, patch: TaskRunPatch, now: String) -> (r: Option<TaskRun>)
        ensures
            match old(self).run_at(id@) {
                None => r is None && *final(self) == *old(self),
                Some(i) => {
                    &&& r == Some(patched_run(old(self).runs@[i], patch, now))
                    &&& final(self).runs@ == old(self).runs@.update(i, patched_run(old(self).runs@[i], patch, now))
                    &&& only_runs_changed(*old(self), *final(self))
                },
            },
    {
        let i = match self.run_position(id) {
            Some(i) => i,
            None => return None,
        };
        let e = self.runs[i].copy();
        let x = TaskRun {
            id: e.id,
            task_id: e.task_id,
            runtime_run_id: e.runtime_run_id,
            session_key: e.session_key,
            agent_id: e.agent_id,
            provider: e.provider,
            model: e.model,
            status: match patch.status {
                Some(s) => s,
                None => e.status,
            },
            summary: or_else_keep(patch.summary, e.summary),
            input_tokens: keep_u32(patch.input_tokens, e.input_tokens),
            output_tokens: keep_u32(patch.output_tokens, e.output_tokens),
            request_input_tokens: keep_u32(patch.request_input_tokens, e.request_input_tokens),
            request_output_tokens: keep_u32(patch.request_output_tokens, e.request_output_tokens),
            duration_ms: keep_u64(patch.duration_ms, e.duration_ms),
            created_at: e.created_at,
            updated_at: now,
        };
        self.runs.set(i, x.copy());
        Some(x)
    }

    /// Creates an approval request with the given id and time.
    pub fn create_approval_at(&mut self, approval: NewTaskApproval, id: String, now: String) -> (r: Result<TaskApproval, WorkError>)
        ensures
            match r {
                Ok(x) => {
                    &&& old(self).approval_at(id@) is None
                    &&& x == new_approval(approval, id, now)
                    &&& final(self).approvals@ == old(self).approvals@.push(x)
                    &&& only_approvals_changed(*old(self), *final(self))
                },
                Err(e) => old(self).approval_at(id@) is Some && e.is_duplicate(RecordKind::Approval, id@) && *final(self) == *old(self),
            },
    {
        if self.approval_position(id.as_str()).is_some() {
            return Err(WorkError::DuplicateId { kind: RecordKind::Approval, id });
        }
        let x = TaskApproval {
            id,
            task_id: approval.task_id,
            kind: approval.kind,
            status: approval.status,
            reason: approval.reason,
            created_at: now.clone(),
            updated_at: now,
            resolved_at: None,
        };
        self.approvals.push(x.copy());
        Ok(x)
    }

    /// Records a decision on the approval with this id, if there is one.
    pub fn update_approval_at(&mut self, id: &str, patch: TaskApprovalPatch, now: String) -> (r: Option<TaskApproval>)
        ensures
            match old(self).approval_at(id@) {
                None => r is None && *final(self) == *old(self),
                Some(i) => {
                    &&& r == Some(decided_approval(old(self).approvals@[i], patch, now))
                    &&& final(self).approvals@ == old(self).approvals@.update(i, decided_approval(old(self).approvals@[i], patch, now))
                    &&& only_approvals_changed(*old(self), *final(self))
                },
            },
    {
        let i = match self.approval_position(id) {
            Some(i) => i,
            None => return None,
        };
        let e = self.approvals[i].copy();
        let resolved_at = match patch.status {
            ApprovalStatus::Pending => None,
            _ => Some(now.clone()),
        };
        let x = TaskApproval {
            id: e.id,
            task_id: e.task_id,
            kind: e.kind,
            status: patch.status,
            reason: patch.reason,
            created_at: e.created_at,
            updated_at: now,
            resolved_at,
        };
        self.approvals.set(i, x.copy());
        Some(x)
    }
}

} // verus!
