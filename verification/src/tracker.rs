//! Outside trackers: importing a tracker record as a task, and the links
//! that remember which task a record became.

use vstd::prelude::*;

use crate::error::{RecordKind, WorkError};
use crate::order::{
    is_ordering, is_sorted_order, key_view, keys_view, recency_key, recency_key_of, sort_order, KeyPart,
};
use crate::records::{
    ExternalTaskLink, ExternalTaskLinkFilter, NewTask, TaskPatch, TrackerImportRequest, TrackerImportResult,
};
use crate::store::{
    deps_replaced, lemma_filter_step, patched_task_row, task_assembled, WorkStore,
};
use crate::text::{
    chars_equal_str, chars_of, first_at, lemma_first_at, filter_matches, filter_match, first_index, lemma_first_index, lower_ascii,
    lower_ascii_chars, trim, trim_chars, texts,
};
use crate::types::{TaskPriority, TaskStatus};

verus! {

/// The task status a tracker's status text stands for, read without
/// surrounding white space and ASCII case.
pub open spec fn remote_status(s: Seq<char>) -> TaskStatus {
    let n = lower_ascii(trim(s));
    if n == "in_progress"@ || n == "in progress"@ || n == "doing"@ || n == "active"@ {
        TaskStatus::InProgress
    } else if n == "blocked"@ {
        TaskStatus::Blocked
    } else if n == "completed"@ || n == "complete"@ || n == "done"@ || n == "closed"@ || n == "resolved"@ {
        TaskStatus::Completed
    } else if n == "cancelled"@ || n == "canceled"@ {
        TaskStatus::Cancelled
    } else {
        TaskStatus::Pending
    }
}

/// The task status a tracker's status text stands for.
pub fn map_remote_status(status: &str) -> (r: TaskStatus)
    ensures
        r == remote_status(status@),
{
    let raw = chars_of(status);
    let trimmed = trim_chars(&raw);
    let n = lower_ascii_chars(&trimmed);
    if chars_equal_str(&n, "in_progress") || chars_equal_str(&n, "in progress") || chars_equal_str(&n, "doing")
        || chars_equal_str(&n, "active") {
        TaskStatus::InProgress
    } else if chars_equal_str(&n, "blocked") {
        TaskStatus::Blocked
    } else if chars_equal_str(&n, "completed") || chars_equal_str(&n, "complete") || chars_equal_str(&n, "done")
        || chars_equal_str(&n, "closed") || chars_equal_str(&n, "resolved") {
        TaskStatus::Completed
    } else if chars_equal_str(&n, "cancelled") || chars_equal_str(&n, "canceled") {
        TaskStatus::Cancelled
    } else {
        TaskStatus::Pending
    }
}


/// Recency keys of links.
pub open spec fn link_recency_keys(links: Seq<ExternalTaskLink>) -> Seq<Seq<crate::order::KeyView>> {
    links.map_values(|x: ExternalTaskLink| recency_key(x.updated_at@, x.created_at@))
}

/// Links a filter selects.
pub open spec fn link_filter(f: ExternalTaskLinkFilter) -> spec_fn(ExternalTaskLink) -> bool {
    |l: ExternalTaskLink| filter_matches(f.task_id, l.task_id) && filter_matches(f.provider, l.provider)
}

/// The keys `provider, remote id` of links.
pub open spec fn link_keys(links: Seq<ExternalTaskLink>) -> Seq<(Seq<char>, Seq<char>)> {
    links.map_values(|l: ExternalTaskLink| (l.provider@, l.remote_id@))
}

/// The changes an import makes to an existing task.
pub open spec fn tracker_patch(request: TrackerImportRequest) -> TaskPatch {
    TaskPatch {
        list_key: request.list_key,
        title: Some(request.remote_title),
        description: request.remote_body,
        status: Some(remote_status(request.remote_status@)),
        priority: None,
        goal_id: request.goal_id,
        parent_task_id: None,
        owner: request.owner,
        project_id: request.project_id,
        session_key: None,
        blocked_by: None,
    }
}

/// The row of the task an import creates: a medium-priority task with the
/// record's title, body and status.
pub open spec fn tracker_task_row(request: TrackerImportRequest, id: String, now: String) -> crate::store::TaskRow {
    crate::store::TaskRow {
        id: id,
        list_key: request.list_key,
        title: request.remote_title,
        description: request.remote_body,
        status: remote_status(request.remote_status@),
        priority: TaskPriority::Medium,
        goal_id: request.goal_id,
        parent_task_id: None,
        owner: request.owner,
        project_id: request.project_id,
        session_key: None,
        claimed_at: None,
        created_at: now,
        updated_at: now,
    }
}

/// The link an import writes: the record's current fields, synced now,
/// keeping the id and creation time of the link it replaces.
pub open spec fn synced_link(
    id: String,
    created_at: String,
    request: TrackerImportRequest,
    task_id: String,
    now: String,
) -> ExternalTaskLink {
    ExternalTaskLink {
        id: id,
        task_id: task_id,
        provider: request.provider,
        remote_id: request.remote_id,
        remote_title: request.remote_title,
        remote_status: request.remote_status,
        remote_url: request.remote_url,
        remote_updated_at: request.remote_updated_at,
        synced_at: now,
        created_at: created_at,
        updated_at: now,
    }
}

impl WorkStore {

    /// Position of the record with this id.
    pub open spec fn link_at(self, id: Seq<char>) -> Option<int> {
        first_index(self.links@.map_values(|x: ExternalTaskLink| x.id@), id)
    }

    pub fn link_position(&self, id: &str) -> (r: Option<usize>)
        ensures
            r matches Some(i) ==> self.link_at(id@) == Some(i as int) && i < self.links.len(),
            r is None ==> self.link_at(id@) is None,
    {
        let ghost ids = self.links@.map_values(|x: ExternalTaskLink| x.id@);
        let mut i: usize = 0;
        while i < self.links.len()
            invariant
                i <= self.links.len(),
                ids == self.links@.map_values(|x: ExternalTaskLink| x.id@),
                forall|j: int| 0 <= j < i ==> ids[j] != id@,
            decreases self.links.len() - i,
        {
            if crate::text::str_equal(self.links[i].id.as_str(), id) {
                proof {
                    lemma_first_index(ids, id@, i as int);
                }
                return Some(i);
            }
            i += 1;
        }
        proof {
            lemma_first_index(ids, id@, i as int);
        }
        None
    }


    /// Position of the link of a tracker record.
    pub open spec fn record_link_at(self, provider: Seq<char>, remote_id: Seq<char>) -> Option<int> {
        first_at(link_keys(self.links@), (provider, remote_id))
    }

    /// Each tracker record has at most one link.
    pub open spec fn links_one_per_record(self) -> bool {
        link_keys(self.links@).no_duplicates()
    }

    fn record_link_position(&self, provider: &String, remote_id: &String) -> (r: Option<usize>)
        ensures
            r matches Some(i) ==> self.record_link_at(provider@, remote_id@) == Some(i as int) && i < self.links.len(),
            r is None ==> self.record_link_at(provider@, remote_id@) is None,
    {
        let ghost keys = link_keys(self.links@);
        let mut i: usize = 0;
        while i < self.links.len()
            invariant
                i <= self.links.len(),
                keys == link_keys(self.links@),
                forall|j: int| 0 <= j < i ==> keys[j] != (provider@, remote_id@),
            decreases self.links.len() - i,
        {
            if self.links[i].provider == *provider && self.links[i].remote_id == *remote_id {
                proof {
                    lemma_first_at(keys, (provider@, remote_id@), i as int);
                }
                return Some(i);
            }
            i += 1;
        }
        proof {
            lemma_first_at(keys, (provider@, remote_id@), i as int);
        }
        None
    }


    /// The links a filter selects, most recently updated first.
    fn ordered_links(&self, filter: &ExternalTaskLinkFilter) -> (r: Vec<ExternalTaskLink>)
        ensures
            is_ordering(
                r@,
                self.links@.filter(link_filter(*filter)),
                link_recency_keys(self.links@.filter(link_filter(*filter))),
                true,
            ),
    {
        let ghost all = self.links@;
        let ghost pred = link_filter(*filter);
        let mut rows: Vec<ExternalTaskLink> = Vec::new();
        let mut i: usize = 0;
        while i < self.links.len()
            invariant
                i <= self.links.len(),
                all == self.links@,
                pred == link_filter(*filter),
                rows@ == all.take(i as int).filter(pred),
            decreases self.links.len() - i,
        {
            proof {
                lemma_filter_step(all, pred, i as int);
            }
            let x = &self.links[i];
            if filter_match(&filter.task_id, &x.task_id) && filter_match(&filter.provider, &x.provider) {
                rows.push(x.copy());
            }
            i += 1;
        }
        assert(all.take(i as int) =~= all);
        let mut keys: Vec<Vec<KeyPart>> = Vec::new();
        let mut j: usize = 0;
        while j < rows.len()
            invariant
                j <= rows.len(),
                keys.len() == j,
                forall|y: int| 0 <= y < j ==> key_view(#[trigger] keys@[y]) == ({ let x = rows@[y]; recency_key(x.updated_at@, x.created_at@) }),
            decreases rows.len() - j,
        {
            let x = &rows[j];
            keys.push(recency_key_of(&x.updated_at, &x.created_at));
            j += 1;
        }
        assert(keys_view(keys@) =~= link_recency_keys(rows@));
        let order = sort_order(&keys, true);
        let mut out: Vec<ExternalTaskLink> = Vec::new();
        let mut k: usize = 0;
        while k < order.len()
            invariant
                k <= order.len(),
                order.len() == rows.len(),
                out.len() == k,
                forall|y: int| 0 <= y < order.len() ==> order@[y] < rows.len(),
                forall|y: int| 0 <= y < k ==> out@[y] == rows@[order@[y] as int],
            decreases order.len() - k,
        {
            out.push(rows[order[k]].copy());
            k += 1;
        }
        assert(is_sorted_order(link_recency_keys(rows@), order@, true));
        out
    }


    /// The links a filter selects, most recently updated first, at most
    /// `limit` of them (50 when the filter names no limit).
    pub fn list_external_links(&self, filter: &ExternalTaskLinkFilter) -> (r: Vec<ExternalTaskLink>)
        ensures
            exists|full: Seq<ExternalTaskLink>| {
                &&& #[trigger] is_ordering(
                    full,
                    self.links@.filter(link_filter(*filter)),
                    link_recency_keys(self.links@.filter(link_filter(*filter))),
                    true,
                )
                &&& r@ == full.take(min_len(limit_or(filter.limit, 50), full.len() as int))
            },
    {
        let full = self.ordered_links(filter);
        let limit: usize = match filter.limit {
            Some(l) => l as usize,
            None => 50,
        };
        let mut out: Vec<ExternalTaskLink> = Vec::new();
        let mut i: usize = 0;
        while i < full.len() && i < limit
            invariant
                i <= full.len(),
                i <= limit,
                limit == limit_or(filter.limit, 50),
                out@ == full@.take(i as int),
            decreases full.len() - i,
        {
            out.push(full[i].copy());
            i += 1;
            assert(out@ =~= full@.take(i as int));
        }
        assert(i == min_len(limit_or(filter.limit, 50), full@.len() as int));
        out
    }

    /// The task of a tracker record: the request's task, else the task its
    /// link names.
    pub open spec fn tracker_task_id(self, request: TrackerImportRequest) -> Option<Seq<char>> {
        match request.task_id {
            Some(t) => Some(t@),
            None => match self.record_link_at(request.provider@, request.remote_id@) {
                Some(j) => Some(self.links@[j].task_id@),
                None => None,
            },
        }
    }

    /// Imports a tracker record: the task it names (by request or by its
    /// link) takes the record's title, body and status, or a new task is
    /// created for it under `task_id`; then the record's link is written,
    /// under `link_id` when the record has none yet.  A missing task or a
    /// taken id is reported before anything is written.
    pub fn import_tracker_task_at(
        &mut self,
        request: TrackerImportRequest,
        task_id: String,
        link_id: String,
        now: String,
    ) -> (r: Result<TrackerImportResult, WorkError>)
        ensures
            tracker_imported(*old(self), *final(self), request, task_id, link_id, now, r),
            old(self).links_one_per_record() ==> final(self).links_one_per_record(),
    {
        let link_pos = self.record_link_position(&request.provider, &request.remote_id);
        let resolved: Option<String> = match &request.task_id {
            Some(t) => Some(t.clone()),
            None => match link_pos {
                Some(j) => Some(self.links[j].task_id.clone()),
                None => None,
            },
        };
        match &resolved {
            Some(tid) => {
                if self.task_position(tid.as_str()).is_none() {
                    return Err(WorkError::NotFound { kind: RecordKind::Task, id: tid.clone() });
                }
            },
            None => {
                if self.task_position(task_id.as_str()).is_some() {
                    return Err(WorkError::DuplicateId { kind: RecordKind::Task, id: task_id });
                }
            },
        }
        if link_pos.is_none() && self.link_position(link_id.as_str()).is_some() {
            return Err(WorkError::DuplicateId { kind: RecordKind::Link, id: link_id });
        }
        let status = map_remote_status(request.remote_status.as_str());
        let (task, created_task) = match resolved {
            Some(tid) => {
                let patch = TaskPatch {
                    list_key: crate::text::clone_opt(&request.list_key),
                    title: Some(request.remote_title.clone()),
                    description: crate::text::clone_opt(&request.remote_body),
                    status: Some(status),
                    priority: None,
                    goal_id: crate::text::clone_opt(&request.goal_id),
                    parent_task_id: None,
                    owner: crate::text::clone_opt(&request.owner),
                    project_id: crate::text::clone_opt(&request.project_id),
                    session_key: None,
                    blocked_by: None,
                };
                match self.update_task_at(tid.as_str(), patch, now.clone()) {
                    Some(t) => (t, false),
                    None => {
                        return Err(WorkError::NotFound { kind: RecordKind::Task, id: tid });
                    },
                }
            },
            None => {
                let new_task = NewTask {
                    list_key: crate::text::clone_opt(&request.list_key),
                    title: request.remote_title.clone(),
                    description: crate::text::clone_opt(&request.remote_body),
                    status,
                    priority: TaskPriority::Medium,
                    goal_id: crate::text::clone_opt(&request.goal_id),
                    parent_task_id: None,
                    owner: crate::text::clone_opt(&request.owner),
                    project_id: crate::text::clone_opt(&request.project_id),
                    session_key: None,
                    blocked_by: Vec::new(),
                };
                let ghost nb = new_task.blocked_by@;
                assert(nb =~= Seq::<String>::empty());
                assert(texts(nb) =~= Seq::<Seq<char>>::empty());
                match self.create_task_at(new_task, task_id, now.clone()) {
                    Ok(t) => (t, true),
                    Err(e) => return Err(e),
                }
            },
        };
        let link = match link_pos {
            Some(j) => {
                let existing = self.links[j].copy();
                let l = ExternalTaskLink {
                    id: existing.id,
                    task_id: task.id.clone(),
                    provider: request.provider,
                    remote_id: request.remote_id,
                    remote_title: request.remote_title,
                    remote_status: request.remote_status,
                    remote_url: request.remote_url,
                    remote_updated_at: request.remote_updated_at,
                    synced_at: now.clone(),
                    created_at: existing.created_at,
                    updated_at: now,
                };
                self.links.set(j, l.copy());
                l
            },
            None => {
                let l = ExternalTaskLink {
                    id: link_id,
                    task_id: task.id.clone(),
                    provider: request.provider,
                    remote_id: request.remote_id,
                    remote_title: request.remote_title,
                    remote_status: request.remote_status,
                    remote_url: request.remote_url,
                    remote_updated_at: request.remote_updated_at,
                    synced_at: now.clone(),
                    created_at: now.clone(),
                    updated_at: now,
                };
                self.links.push(l.copy());
                l
            },
        };
        proof {
            crate::text::lemma_first_at_facts(link_keys(old(self).links@), (request.provider@, request.remote_id@));
            let before_keys = link_keys(old(self).links@);
            let after_keys = link_keys(self.links@);
            if link_pos is Some {
                assert(after_keys =~= before_keys);
            } else {
                assert(after_keys =~= before_keys.push((request.provider@, request.remote_id@)));
                assert forall|x: int, y: int| 0 <= x < after_keys.len() && 0 <= y < after_keys.len() && x != y
                    && old(self).links_one_per_record() implies after_keys[x] != after_keys[y] by {
                    if x < before_keys.len() && y < before_keys.len() {
                    } else if x < before_keys.len() {
                        assert(before_keys[x] != (request.provider@, request.remote_id@));
                    } else {
                        assert(before_keys[y] != (request.provider@, request.remote_id@));
                    }
                }
            }
            let tv = old(self).tracker_task_id(request);
            if tv is Some {
                crate::text::lemma_first_index_facts(crate::store::task_ids(old(self).tasks@), tv->0);
            }
        }
        Ok(TrackerImportResult { task, link, created_task })
    }
}

/// What importing a tracker record does, with `task_id` for a new task and
/// `link_id` for a new link: a task named but missing, or an id that is
/// taken, fails with the store unchanged; otherwise the task is updated or
/// created and the link written.
pub open spec fn tracker_imported(
    old: WorkStore,
    new: WorkStore,
    request: TrackerImportRequest,
    task_id: String,
    link_id: String,
    now: String,
    r: Result<TrackerImportResult, WorkError>,
) -> bool {
    let named = old.tracker_task_id(request);
    let record = old.record_link_at(request.provider@, request.remote_id@);
    if named is Some && old.task_at(named->0) is None {
        r matches Err(e) && e.is_not_found(RecordKind::Task, named->0) && new == old
    } else if named is None && old.task_at(task_id@) is Some {
        r matches Err(e) && e.is_duplicate(RecordKind::Task, task_id@) && new == old
    } else if record is None && old.link_at(link_id@) is Some {
        r matches Err(e) && e.is_duplicate(RecordKind::Link, link_id@) && new == old
    } else {
        &&& r matches Ok(res)
        &&& res.created_task == (named is None)
        &&& match named {
            Some(tid) => {
                &&& old.task_at(tid) matches Some(i)
                &&& new.tasks@ == old.tasks@.update(i, patched_task_row(old.tasks@[i], tracker_patch(request), now))
                &&& new.task_dependencies@ == old.task_dependencies@
                &&& task_assembled(res.task, new.tasks@[i], new.task_deps(tid))
            },
            None => {
                &&& res.task.id == task_id
                &&& new.tasks@ == old.tasks@.push(tracker_task_row(request, task_id, now))
                &&& new.task_dependencies@ == deps_replaced(old.task_dependencies@, task_id, Seq::empty())
                &&& task_assembled(res.task, tracker_task_row(request, task_id, now), Seq::empty())
            },
        }
        &&& match record {
            Some(j) => {
                &&& res.link == synced_link(old.links@[j].id, old.links@[j].created_at, request, res.task.id, now)
                &&& new.links@ == old.links@.update(j, res.link)
            },
            None => {
                &&& res.link == synced_link(link_id, now, request, res.task.id, now)
                &&& new.links@ == old.links@.push(res.link)
            },
        }
        &&& new.goals == old.goals
        &&& new.templates == old.templates
        &&& new.template_dependencies == old.template_dependencies
        &&& new.comments == old.comments
        &&& new.runs == old.runs
        &&& new.approvals == old.approvals
        &&& new.costs == old.costs
        &&& new.budgets == old.budgets
        &&& new.recurring == old.recurring
        &&& new.materializations == old.materializations
    }
}

/// The limit, or the default when there is none.
pub open spec fn limit_or(limit: Option<u32>, default: int) -> int {
    match limit {
        Some(l) => l as int,
        None => default,
    }
}

/// The smaller of two lengths.
pub open spec fn min_len(a: int, b: int) -> int {
    if a < b {
        a
    } else {
        b
    }
}

} // verus!
