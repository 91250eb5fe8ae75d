//! Goals: create, read, update, delete, list and import.

use vstd::prelude::*;

use crate::error::{RecordKind, WorkError};
use crate::order::{is_ordering, is_sorted_order, key_view, keys_view, recency_key, recency_key_of, sort_order, KeyPart, KeyView};
use crate::records::{Goal, GoalPatch, NewGoal};
use crate::store::{lemma_filter_step, or_keep, WorkStore};
use crate::text::{first_index, lemma_first_index, lemma_first_index_facts, or_else_keep};
use crate::types::GoalStatus;

verus! {

/// The ids of goals.
pub open spec fn goal_ids(rows: Seq<Goal>) -> Seq<Seq<char>> {
    rows.map_values(|g: Goal| g.id@)
}

/// Recency keys of goals.
pub open spec fn goal_recency_keys(rows: Seq<Goal>) -> Seq<Seq<KeyView>> {
    rows.map_values(|g: Goal| recency_key(g.updated_at@, g.created_at@))
}

/// Every table but the goals is the same.
pub open spec fn only_goals_changed(a: WorkStore, b: WorkStore) -> bool {
    &&& a.tasks == b.tasks
    &&& a.task_dependencies == b.task_dependencies
    &&& a.templates == b.templates
    &&& a.template_dependencies == b.template_dependencies
    &&& a.comments == b.comments
    &&& a.links == b.links
    &&& a.runs == b.runs
    &&& a.approvals == b.approvals
    &&& a.costs == b.costs
    &&& a.budgets == b.budgets
    &&& a.recurring == b.recurring
    &&& a.materializations == b.materializations
}

/// The goal a creation request stores.
pub open spec fn new_goal_row(g: NewGoal, id: String, now: String) -> Goal {
    Goal {
        id: id,
        slug: g.slug,
        title: g.title,
        description: g.description,
        status: g.status,
        project_id: g.project_id,
        parent_goal_id: g.parent_goal_id,
        created_at: now,
        updated_at: now,
    }
}

/// A goal after a patch: present fields replace stored ones.
pub open spec fn patched_goal(existing: Goal, patch: GoalPatch, now: String) -> Goal {
    Goal {
        id: existing.id,
        slug: or_keep(patch.slug, existing.slug),
        title: match patch.title {
            Some(t) => t,
            None => existing.title,
        },
        description: or_keep(patch.description, existing.description),
        status: match patch.status {
            Some(s) => s,
            None => existing.status,
        },
        project_id: or_keep(patch.project_id, existing.project_id),
        parent_goal_id: or_keep(patch.parent_goal_id, existing.parent_goal_id),
        created_at: existing.created_at,
        updated_at: now,
    }
}

/// Goals with another id.
pub open spec fn goal_not(id: Seq<char>) -> spec_fn(Goal) -> bool {
    |g: Goal| g.id@ != id
}

/// The goal an import writes: the imported fields, keeping the creation
/// time of a stored goal with the same id.
pub open spec fn imported_goal(
    existing: Option<Goal>,
    id: String,
    slug: Option<String>,
    title: String,
    description: Option<String>,
    status: GoalStatus,
    project_id: Option<String>,
    parent_goal_id: Option<String>,
    now: String,
) -> Goal {
    Goal {
        id: id,
        slug: slug,
        title: title,
        description: description,
        status: status,
        project_id: project_id,
        parent_goal_id: parent_goal_id,
        created_at: match existing {
            Some(g) => g.created_at,
            None => now,
        },
        updated_at: now,
    }
}

impl WorkStore {
    /// Position of the goal with this id.
    pub open spec fn goal_at(self, id: Seq<char>) -> Option<int> {
        first_index(goal_ids(self.goals@), id)
    }

    pub fn goal_position(&self, id: &str) -> (r: Option<usize>)
        ensures
            r matches Some(i) ==> self.goal_at(id@) == Some(i as int) && i < self.goals.len(),
            r is None ==> self.goal_at(id@) is None,
    {
        let ghost ids = goal_ids(self.goals@);
        let mut i: usize = 0;
        while i < self.goals.len()
            invariant
                i <= self.goals.len(),
                ids == goal_ids(self.goals@),
                forall|j: int| 0 <= j < i ==> ids[j] != id@,
            decreases self.goals.len() - i,
        {
            if crate::text::str_equal(self.goals[i].id.as_str(), id) {
                proof {
                    lemma_first_index(ids, id@, i as int);
                }
                return Some(i);
            }
            i += 1;
        }
        proof {
            lemma_first_index(ids, id@, i as int);
        }
        None
    }

    /// The goal with this id.
    pub fn get_goal(&self, id: &str) -> (r: Option<Goal>)
        ensures
            match self.goal_at(id@) {
                Some(i) => r == Some(self.goals@[i]),
                None => r is None,
            },
    {
        match self.goal_position(id) {
            Some(i) => Some(self.goals[i].copy()),
            None => None,
        }
    }

    /// Creates a goal with the given id and creation time.
    pub fn create_goal_at(&mut self, goal: NewGoal, id: String, now: String) -> (r: Result<Goal, WorkError>)
        ensures
            match r {
                Ok(g) => {
                    &&& old(self).goal_at(id@) is None
                    &&& g == new_goal_row(goal, id, now)
                    &&& final(self).goals@ == old(self).goals@.push(g)
                    &&& only_goals_changed(*old(self), *final(self))
                },
                Err(e) => old(self).goal_at(id@) is Some && e.is_duplicate(RecordKind::Goal, id@) && *final(self)
                    == *old(self),
            },
    {
        if self.goal_position(id.as_str()).is_some() {
            return Err(WorkError::DuplicateId { kind: RecordKind::Goal, id });
        }
        let g = Goal {
            id,
            slug: goal.slug,
            title: goal.title,
            description: goal.description,
            status: goal.status,
            project_id: goal.project_id,
            parent_goal_id: goal.parent_goal_id,
            created_at: now.clone(),
            updated_at: now,
        };
        self.goals.push(g.copy());
        Ok(g)
    }

    /// Applies a patch to the goal with this id, if there is one.
    pub fn update_goal_at(&mut self, id: &str, patch: GoalPatch, now: String) -> (r: Option<Goal>)
        ensures
            match old(self).goal_at(id@) {
                None => r is None && *final(self) == *old(self),
                Some(i) => {
                    &&& r == Some(patched_goal(old(self).goals@[i], patch, now))
                    &&& final(self).goals@ == old(self).goals@.update(i, patched_goal(old(self).goals@[i], patch, now))
                    &&& only_goals_changed(*old(self), *final(self))
                },
            },
    {
        let i = match self.goal_position(id) {
            Some(i) => i,
            None => return None,
        };
        let existing = self.goals[i].copy();
        let g = Goal {
            id: existing.id,
            slug: or_else_keep(patch.slug, existing.slug),
            title: match patch.title {
                Some(t) => t,
                None => existing.title,
            },
            description: or_else_keep(patch.description, existing.description),
            status: match patch.status {
                Some(s) => s,
                None => existing.status,
            },
            project_id: or_else_keep(patch.project_id, existing.project_id),
            parent_goal_id: or_else_keep(patch.parent_goal_id, existing.parent_goal_id),
            created_at: existing.created_at,
            updated_at: now,
        };
        self.goals.set(i, g.copy());
        Some(g)
    }

    /// Deletes every goal with this id; true when one was deleted.
    pub fn delete_goal(&mut self, id: &str) -> (r: bool)
        ensures
            final(self).goals@ == old(self).goals@.filter(goal_not(id@)),
            r == (old(self).goal_at(id@) is Some),
            only_goals_changed(*old(self), *final(self)),
    {
        let ghost all = self.goals@;
        let mut kept: Vec<Goal> = Vec::new();
        let mut removed = false;
        let mut i: usize = 0;
        while i < self.goals.len()
            invariant
                i <= self.goals.len(),
                all == self.goals@,
                kept@ == all.take(i as int).filter(goal_not(id@)),
                removed == exists|j: int| 0 <= j < i && goal_ids(all)[j] == id@,
            decreases self.goals.len() - i,
        {
            proof {
                lemma_filter_step(all, goal_not(id@), i as int);
            }
            if crate::text::str_equal(self.goals[i].id.as_str(), id) {
                removed = true;
                assert(goal_ids(all)[i as int] == id@);
            } else {
                kept.push(self.goals[i].copy());
            }
            i += 1;
        }
        assert(all.take(i as int) =~= all);
        proof {
            lemma_first_index_facts(goal_ids(all), id@);
        }
        self.goals = kept;
        removed
    }

    /// Every goal, most recently updated first.
    pub fn list_goals(&self) -> (r: Vec<Goal>)
        ensures
            is_ordering(r@, self.goals@, goal_recency_keys(self.goals@), true),
    {
        let mut keys: Vec<Vec<KeyPart>> = Vec::new();
        let mut j: usize = 0;
        while j < self.goals.len()
            invariant
                j <= self.goals.len(),
                keys.len() == j,
                forall|x: int| 0 <= x < j ==> key_view(#[trigger] keys@[x]) == recency_key(self.goals@[x].updated_at@, self.goals@[x].created_at@),
            decreases self.goals.len() - j,
        {
            keys.push(recency_key_of(&self.goals[j].updated_at, &self.goals[j].created_at));
            j += 1;
        }
        assert(keys_view(keys@) =~= goal_recency_keys(self.goals@));
        let order = sort_order(&keys, true);
        let mut out: Vec<Goal> = Vec::new();
        let mut k: usize = 0;
        while k < order.len()
            invariant
                k <= order.len(),
                order.len() == self.goals.len(),
                out.len() == k,
                forall|x: int| 0 <= x < order.len() ==> order@[x] < self.goals.len(),
                forall|x: int| 0 <= x < k ==> out@[x] == self.goals@[order@[x] as int],
            decreases order.len() - k,
        {
            out.push(self.goals[order[k]].copy());
            k += 1;
        }
        assert(is_sorted_order(goal_recency_keys(self.goals@), order@, true));
        out
    }

    /// Writes an imported goal: a stored goal with the same id takes the
    /// imported fields and keeps its creation time; otherwise the goal is
    /// added.
    pub fn import_goal_record_at(
        &mut self,
        id: String,
        slug: Option<String>,
        title: String,
        description: Option<String>,
        status: GoalStatus,
        project_id: Option<String>,
        parent_goal_id: Option<String>,
        now: String,
    ) -> (r: Goal)
        ensures
            match old(self).goal_at(id@) {
                Some(i) => {
                    &&& r == imported_goal(Some(old(self).goals@[i]), id, slug, title, description, status, project_id, parent_goal_id, now)
                    &&& final(self).goals@ == old(self).goals@.update(i, r)
                },
                None => {
                    &&& r == imported_goal(None, id, slug, title, description, status, project_id, parent_goal_id, now)
                    &&& final(self).goals@ == old(self).goals@.push(r)
                },
            },
            only_goals_changed(*old(self), *final(self)),
    {
        match self.goal_position(id.as_str()) {
            Some(i) => {
                let g = Goal {
                    id,
                    slug,
                    title,
                    description,
                    status,
                    project_id,
                    parent_goal_id,
                    created_at: self.goals[i].created_at.clone(),
                    updated_at: now,
                };
                self.goals.set(i, g.copy());
                g
            },
            None => {
                let g = Goal {
                    id,
                    slug,
                    title,
                    description,
                    status,
                    project_id,
                    parent_goal_id,
                    created_at: now.clone(),
                    updated_at: now,
                };
                self.goals.push(g.copy());
                g
            },
        }
    }
}

} // verus!
