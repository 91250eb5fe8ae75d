//! Task templates: reusable task trees, and their instantiation as tasks.

use vstd::prelude::*;

use crate::error::{RecordKind, WorkError};
use crate::order::{
    by_text, is_ordering, is_sorted_order, key_view, keys_view, recency_key, recency_key_of,
    sort_order, sort_strings, KeyPart, KeyView,
};
use crate::records::{
    InstantiateTaskTemplate, NewTaskTemplate, TaskTemplate, TaskTemplateFilter, TaskTemplatePatch,
    TemplateInstantiationResult,
};
use crate::types::TaskStatus;
use crate::store::{
    dep_targets, deps_replaced, lemma_deps_replaced, lemma_filter_step, lemma_filter_subset, or_keep, replaced_deps,
    only_tasks_changed, or_keep as keep_first, targets_of, task_ids, Dependency, TaskRow, TemplateRow, WorkStore,
};
use crate::order::lemma_ordering_members;
use crate::lineage::{leads_back, lemma_child_ids, lemma_visit_fresh, lemma_walk_bound, reaches_within, walk};
use crate::text::{
    first_index, lemma_first_index_unique, lemma_first_index, lemma_first_index_facts, opt_filter_match,
    opt_filter_matches, or_else_keep, texts,
};

verus! {

/// The ids of template rows.
pub open spec fn template_ids(rows: Seq<TemplateRow>) -> Seq<Seq<char>> {
    rows.map_values(|r: TemplateRow| r.id@)
}

/// `t` is the stored `row` with the dependencies `deps` listed in id order.
pub open spec fn template_assembled(t: TaskTemplate, row: TemplateRow, deps: Seq<Seq<char>>) -> bool {
    t.row() == row && is_ordering(texts(t.blocked_by@), deps, by_text(deps), false)
}

/// Every table but the templates and their dependencies is the same.
pub open spec fn only_templates_changed(a: WorkStore, b: WorkStore) -> bool {
    &&& a.goals == b.goals
    &&& a.tasks == b.tasks
    &&& a.task_dependencies == b.task_dependencies
    &&& a.comments == b.comments
    &&& a.links == b.links
    &&& a.runs == b.runs
    &&& a.approvals == b.approvals
    &&& a.costs == b.costs
    &&& a.budgets == b.budgets
    &&& a.recurring == b.recurring
    &&& a.materializations == b.materializations
}

/// The row a new template is stored as.
pub open spec fn new_template_row(t: NewTaskTemplate, id: String, now: String) -> TemplateRow {
    TemplateRow {
        id: id,
        slug: t.slug,
        title: t.title,
        description: t.description,
        priority: t.priority,
        list_key: t.list_key,
        goal_id: t.goal_id,
        parent_template_id: t.parent_template_id,
        owner: t.owner,
        project_id: t.project_id,
        created_at: now,
        updated_at: now,
    }
}

/// The row of a template after a patch: present fields replace stored ones.
pub open spec fn patched_template_row(existing: TemplateRow, patch: TaskTemplatePatch, now: String) -> TemplateRow {
    TemplateRow {
        id: existing.id,
        slug: or_keep(patch.slug, existing.slug),
        title: match patch.title {
            Some(t) => t,
            None => existing.title,
        },
        description: or_keep(patch.description, existing.description),
        priority: match patch.priority {
            Some(p) => p,
            None => existing.priority,
        },
        list_key: or_keep(patch.list_key, existing.list_key),
        goal_id: or_keep(patch.goal_id, existing.goal_id),
        parent_template_id: or_keep(patch.parent_template_id, existing.parent_template_id),
        owner: or_keep(patch.owner, existing.owner),
        project_id: or_keep(patch.project_id, existing.project_id),
        created_at: existing.created_at,
        updated_at: now,
    }
}

/// The templates a filter selects.
pub open spec fn template_filter(f: TaskTemplateFilter) -> spec_fn(TemplateRow) -> bool {
    |r: TemplateRow|
        opt_filter_matches(f.goal_id, r.goal_id) && opt_filter_matches(f.project_id, r.project_id)
            && opt_filter_matches(f.parent_template_id, r.parent_template_id)
}

/// Recency keys of template rows.
pub open spec fn template_recency_keys(rows: Seq<TemplateRow>) -> Seq<Seq<KeyView>> {
    rows.map_values(|r: TemplateRow| recency_key(r.updated_at@, r.created_at@))
}

/// The rows of a sequence of templates.
pub open spec fn template_rows(ts: Seq<TaskTemplate>) -> Seq<TemplateRow> {
    ts.map_values(|t: TaskTemplate| t.row())
}

fn template_from_row(row: TemplateRow, blocked_by: Vec<String>) -> (t: TaskTemplate)
    ensures
        t.row() == row,
        t.blocked_by == blocked_by,
{
    TaskTemplate {
        id: row.id,
        slug: row.slug,
        title: row.title,
        description: row.description,
        priority: row.priority,
        list_key: row.list_key,
        goal_id: row.goal_id,
        parent_template_id: row.parent_template_id,
        owner: row.owner,
        project_id: row.project_id,
        created_at: row.created_at,
        updated_at: row.updated_at,
        blocked_by,
    }
}

fn template_filter_match(f: &TaskTemplateFilter, r: &TemplateRow) -> (b: bool)
    ensures
        b == template_filter(*f)(*r),
{
    opt_filter_match(&f.goal_id, &r.goal_id) && opt_filter_match(&f.project_id, &r.project_id)
        && opt_filter_match(&f.parent_template_id, &r.parent_template_id)
}

impl WorkStore {
    /// Position of the template with this id.
    pub open spec fn template_at(self, id: Seq<char>) -> Option<int> {
        first_index(template_ids(self.templates@), id)
    }

    /// The ids this template depends on, in table order.
    pub open spec fn template_deps(self, id: Seq<char>) -> Seq<Seq<char>> {
        dep_targets(self.template_dependencies@, id)
    }

    pub fn template_position(&self, id: &str) -> (r: Option<usize>)
        ensures
            r matches Some(i) ==> self.template_at(id@) == Some(i as int) && i < self.templates.len(),
            r is None ==> self.template_at(id@) is None,
    {
        let ghost ids = template_ids(self.templates@);
        let mut i: usize = 0;
        while i < self.templates.len()
            invariant
                i <= self.templates.len(),
                ids == template_ids(self.templates@),
                forall|j: int| 0 <= j < i ==> ids[j] != id@,
            decreases self.templates.len() - i,
        {
            if crate::text::str_equal(self.templates[i].id.as_str(), id) {
                proof {
                    lemma_first_index(ids, id@, i as int);
                }
                return Some(i);
            }
            i += 1;
        }
        proof {
            lemma_first_index(ids, id@, i as int);
        }
        None
    }

    /// The template with this id, with its dependencies in id order.
    pub fn get_task_template(&self, id: &str) -> (r: Option<TaskTemplate>)
        ensures
            match self.template_at(id@) {
                Some(i) => r matches Some(t) && template_assembled(t, self.templates@[i], self.template_deps(id@)),
                None => r is None,
            },
    {
        match self.template_position(id) {
            Some(i) => {
                let row = self.templates[i].copy();
                let deps = targets_of(&self.template_dependencies, id);
                Some(template_from_row(row, deps))
            },
            None => None,
        }
    }

    /// Creates a template with the given id and creation time.
    pub fn create_task_template_at(&mut self, template: NewTaskTemplate, id: String, now: String) -> (r: Result<TaskTemplate, WorkError>)
        ensures
            match r {
                Ok(t) => {
                    &&& old(self).template_at(id@) is None
                    &&& final(self).templates@ == old(self).templates@.push(new_template_row(template, id, now))
                    &&& final(self).template_dependencies@ == deps_replaced(
                        old(self).template_dependencies@,
                        id,
                        template.blocked_by@,
                    )
                    &&& only_templates_changed(*old(self), *final(self))
                    &&& template_assembled(t, new_template_row(template, id, now), texts(template.blocked_by@))
                },
                Err(e) => {
                    &&& old(self).template_at(id@) is Some
                    &&& e.is_duplicate(RecordKind::TaskTemplate, id@)
                    &&& *final(self) == *old(self)
                },
            },
    {
        if self.template_position(id.as_str()).is_some() {
            return Err(WorkError::DuplicateId { kind: RecordKind::TaskTemplate, id });
        }
        let row = TemplateRow {
            id: id.clone(),
            slug: template.slug,
            title: template.title,
            description: template.description,
            priority: template.priority,
            list_key: template.list_key,
            goal_id: template.goal_id,
            parent_template_id: template.parent_template_id,
            owner: template.owner,
            project_id: template.project_id,
            created_at: now.clone(),
            updated_at: now,
        };
        self.templates.push(row.copy());
        self.template_dependencies = replaced_deps(&self.template_dependencies, &id, &template.blocked_by);
        proof {
            lemma_deps_replaced(old(self).template_dependencies@, id, template.blocked_by@, id@);
        }
        let deps = sort_strings(&template.blocked_by);
        Ok(template_from_row(row, deps))
    }

    /// Applies a patch to the template with this id, if there is one.
    pub fn update_task_template_at(&mut self, id: &str, patch: TaskTemplatePatch, now: String) -> (r: Option<TaskTemplate>)
        ensures
            match old(self).template_at(id@) {
                None => r is None && *final(self) == *old(self),
                Some(i) => {
                    let row = patched_template_row(old(self).templates@[i], patch, now);
                    &&& final(self).templates@ == old(self).templates@.update(i, row)
                    &&& final(self).template_dependencies@ == match patch.blocked_by {
                        Some(b) => deps_replaced(old(self).template_dependencies@, old(self).templates@[i].id, b@),
                        None => old(self).template_dependencies@,
                    }
                    &&& only_templates_changed(*old(self), *final(self))
                    &&& r matches Some(t) && template_assembled(t, row, final(self).template_deps(id@))
                },
            },
    {
        let i = match self.template_position(id) {
            Some(i) => i,
            None => return None,
        };
        let existing = self.templates[i].copy();
        let row = TemplateRow {
            id: existing.id,
            slug: or_else_keep(patch.slug, existing.slug),
            title: match patch.title {
                Some(t) => t,
                None => existing.title,
            },
            description: or_else_keep(patch.description, existing.description),
            priority: match patch.priority {
                Some(p) => p,
                None => existing.priority,
            },
            list_key: or_else_keep(patch.list_key, existing.list_key),
            goal_id: or_else_keep(patch.goal_id, existing.goal_id),
            parent_template_id: or_else_keep(patch.parent_template_id, existing.parent_template_id),
            owner: or_else_keep(patch.owner, existing.owner),
            project_id: or_else_keep(patch.project_id, existing.project_id),
            created_at: existing.created_at,
            updated_at: now,
        };
        let stored_id = row.id.clone();
        self.templates.set(i, row.copy());
        assert(template_ids(self.templates@) =~= template_ids(old(self).templates@));
        match patch.blocked_by {
            Some(b) => {
                self.template_dependencies = replaced_deps(&self.template_dependencies, &stored_id, &b);
            },
            None => {},
        }
        let deps = targets_of(&self.template_dependencies, id);
        Some(template_from_row(row, deps))
    }

    /// The templates a filter selects, most recently updated first.
    pub fn list_task_templates(&self, filter: &TaskTemplateFilter) -> (r: Vec<TaskTemplate>)
        ensures
            is_ordering(
                template_rows(r@),
                self.templates@.filter(template_filter(*filter)),
                template_recency_keys(self.templates@.filter(template_filter(*filter))),
                true,
            ),
            forall|k: int|
                0 <= k < r.len() ==> template_assembled(
                    #[trigger] r@[k],
                    r@[k].row(),
                    self.template_deps(r@[k].id@),
                ),
    {
        let ghost all = self.templates@;
        let ghost pred = template_filter(*filter);
        let mut rows: Vec<TemplateRow> = Vec::new();
        let mut i: usize = 0;
        while i < self.templates.len()
            invariant
                i <= self.templates.len(),
                all == self.templates@,
                pred == template_filter(*filter),
                rows@ == all.take(i as int).filter(pred),
            decreases self.templates.len() - i,
        {
            proof {
                lemma_filter_step(all, pred, i as int);
            }
            if template_filter_match(filter, &self.templates[i]) {
                rows.push(self.templates[i].copy());
            }
            i += 1;
        }
        assert(all.take(i as int) =~= all);
        let mut keys: Vec<Vec<KeyPart>> = Vec::new();
        let mut j: usize = 0;
        while j < rows.len()
            invariant
                j <= rows.len(),
                keys.len() == j,
                forall|x: int| 0 <= x < j ==> key_view(#[trigger] keys@[x]) == recency_key(rows@[x].updated_at@, rows@[x].created_at@),
            decreases rows.len() - j,
        {
            keys.push(recency_key_of(&rows[j].updated_at, &rows[j].created_at));
            j += 1;
        }
        assert(keys_view(keys@) =~= template_recency_keys(rows@));
        let order = sort_order(&keys, true);
        let mut out: Vec<TaskTemplate> = Vec::new();
        let mut k: usize = 0;
        while k < order.len()
            invariant
                k <= order.len(),
                order.len() == rows.len(),
                out.len() == k,
                forall|x: int| 0 <= x < order.len() ==> order@[x] < rows.len(),
                forall|x: int| 0 <= x < k ==> (#[trigger] out@[x]).row() == rows@[order@[x] as int],
                forall|x: int|
                    0 <= x < k ==> template_assembled(
                        #[trigger] out@[x],
                        out@[x].row(),
                        self.template_deps(out@[x].id@),
                    ),
            decreases order.len() - k,
        {
            let row = rows[order[k]].copy();
            let deps = targets_of(&self.template_dependencies, row.id.as_str());
            out.push(template_from_row(row, deps));
            k += 1;
        }
        assert(is_sorted_order(template_recency_keys(rows@), order@, true));
        assert(template_rows(out@).len() == order@.len());
        out
    }
}


/// Templates whose parent is `tid`.
pub open spec fn child_of(tid: Seq<char>) -> spec_fn(TemplateRow) -> bool {
    |r: TemplateRow| r.parent_template_id matches Some(p) && p@ == tid
}

/// The key `created, id` by which children are visited oldest first.
pub open spec fn age_keys(rows: Seq<TemplateRow>) -> Seq<Seq<KeyView>> {
    rows.map_values(|r: TemplateRow| seq![KeyView::Text(r.created_at@), KeyView::Text(r.id@)])
}

/// The ids of a sequence of templates.
pub open spec fn tree_ids(ts: Seq<TaskTemplate>) -> Seq<Seq<char>> {
    ts.map_values(|t: TaskTemplate| t.id@)
}

/// The template's parent is `id`.
pub open spec fn parent_is(t: TaskTemplate, id: Seq<char>) -> bool {
    t.parent_template_id matches Some(p) && p@ == id
}

/// `id` is the id of a template whose parent is one of `reached`.
pub open spec fn child_of_reached(rows: Seq<TemplateRow>, reached: Seq<TaskTemplate>, id: Seq<char>) -> bool {
    exists|j: int, q: int|
        #![trigger reached[j], rows[q]]
        0 <= j < reached.len() && 0 <= q < rows.len() && rows[q].id@ == id && child_of(reached[j].id@)(rows[q])
}

/// `tree` is the template tree under `root` in `rows`: it starts with the
/// root, every other template's parent comes before it, and every template
/// whose parent is in the tree is in the tree.
pub open spec fn is_template_tree(rows: Seq<TemplateRow>, root: Seq<char>, tree: Seq<TaskTemplate>) -> bool {
    &&& tree.len() > 0
    &&& tree[0].id@ == root
    &&& forall|k: int|
        0 < k < tree.len() ==> exists|j: int|
            0 <= j < k && parent_is(#[trigger] tree[k], tree[j].id@)
    &&& forall|q: int, j: int|
        #![trigger rows[q], tree[j]]
        0 <= q < rows.len() && 0 <= j < tree.len() && child_of(tree[j].id@)(rows[q])
            ==> tree_ids(tree).contains(rows[q].id@)
}

impl WorkStore {
    /// `t` is the stored template with its id, with its dependencies.
    pub open spec fn assembled_at(self, t: TaskTemplate) -> bool {
        match self.template_at(t.id@) {
            Some(q) => template_assembled(t, self.templates@[q], self.template_deps(t.id@)),
            None => false,
        }
    }

    /// Every template id occurs once.
    pub open spec fn templates_unique(self) -> bool {
        template_ids(self.templates@).no_duplicates()
    }

    /// Whether every template id occurs once.
    pub fn check_templates_unique(&self) -> (b: bool)
        ensures
            b == self.templates_unique(),
    {
        let ghost ids = template_ids(self.templates@);
        let mut i: usize = 0;
        while i < self.templates.len()
            invariant
                i <= self.templates.len(),
                ids == template_ids(self.templates@),
                forall|x: int, y: int| 0 <= x < y < i ==> ids[x] != ids[y],
            decreases self.templates.len() - i,
        {
            let mut j: usize = 0;
            while j < i
                invariant
                    j <= i < self.templates.len(),
                    ids == template_ids(self.templates@),
                    forall|x: int| 0 <= x < j ==> ids[x] != ids[i as int],
                decreases i - j,
            {
                if self.templates[j].id == self.templates[i].id {
                    assert(ids[j as int] == ids[i as int]);
                    return false;
                }
                j += 1;
            }
            i += 1;
        }
        true
    }

    /// The ids of the templates whose parent is `tid`, newest first.
    fn children_of(&self, tid: &str) -> (r: Vec<String>)
        ensures
            is_ordering(
                texts(r@),
                template_ids(self.templates@.filter(child_of(tid@))),
                age_keys(self.templates@.filter(child_of(tid@))),
                true,
            ),
    {
        let ghost all = self.templates@;
        let ghost pred = child_of(tid@);
        let mut rows: Vec<TemplateRow> = Vec::new();
        let mut i: usize = 0;
        while i < self.templates.len()
            invariant
                i <= self.templates.len(),
                all == self.templates@,
                pred == child_of(tid@),
                rows@ == all.take(i as int).filter(pred),
            decreases self.templates.len() - i,
        {
            proof {
                lemma_filter_step(all, pred, i as int);
            }
            let is_child = match &self.templates[i].parent_template_id {
                Some(p) => crate::text::str_equal(p.as_str(), tid),
                None => false,
            };
            if is_child {
                rows.push(self.templates[i].copy());
            }
            i += 1;
        }
        assert(all.take(i as int) =~= all);
        let mut keys: Vec<Vec<KeyPart>> = Vec::new();
        let mut j: usize = 0;
        while j < rows.len()
            invariant
                j <= rows.len(),
                keys.len() == j,
                forall|x: int| 0 <= x < j ==> key_view(#[trigger] keys@[x]) == seq![
                    KeyView::Text(rows@[x].created_at@),
                    KeyView::Text(rows@[x].id@),
                ],
            decreases rows.len() - j,
        {
            keys.push(recency_key_of(&rows[j].created_at, &rows[j].id));
            j += 1;
        }
        assert(keys_view(keys@) =~= age_keys(rows@));
        let order = sort_order(&keys, true);
        let mut out: Vec<String> = Vec::new();
        let mut k: usize = 0;
        while k < order.len()
            invariant
                k <= order.len(),
                order.len() == rows.len(),
                out.len() == k,
                forall|x: int| 0 <= x < order.len() ==> order@[x] < rows.len(),
                forall|x: int| 0 <= x < k ==> (#[trigger] out@[x])@ == rows@[order@[x] as int].id@,
            decreases order.len() - k,
        {
            out.push(rows[order[k]].id.clone());
            k += 1;
        }
        assert(is_sorted_order(age_keys(rows@), order@, true));
        assert(texts(out@).len() == order@.len());
        assert(forall|x: int| 0 <= x < out.len() ==> texts(out@)[x] == template_ids(rows@)[order@[x] as int]);
        out
    }

    /// The template tree under `root_id`, each template with its
    /// dependencies.  Templates are visited depth first, children oldest
    /// first.  Parent links that lead back up to the root are refused.
    #[verifier::rlimit(60)]
    pub fn collect_template_subtree(&self, root_id: &str) -> (r: Result<Vec<TaskTemplate>, WorkError>)
        requires
            self.templates_unique(),
        ensures
            match r {
                Ok(tree) => {
                    &&& self.template_at(root_id@) is Some
                &&& !leads_back(self.templates@, root_id@)
                &&& is_template_tree(self.templates@, root_id@, tree@)
                &&& tree_ids(tree@).no_duplicates()
                &&& tree_ids(tree@) == walk(self.templates@, seq![root_id@], self.templates@.len() as nat)
                    &&& forall|k: int|
                        0 <= k < tree.len() ==> self.assembled_at(#[trigger] tree@[k])
                },
                Err(e) => if self.template_at(root_id@) is None {
                    e.is_not_found(RecordKind::TaskTemplate, root_id@)
                } else {
                    &&& leads_back(self.templates@, root_id@)
                    &&& e matches WorkError::TemplateCycle { template_id } && template_id@ == root_id@
                },
            },
    {
        let ghost rows = self.templates@;
        let ghost ids = template_ids(rows);
        if self.template_position(root_id).is_none() {
            return Err(WorkError::NotFound { kind: RecordKind::TaskTemplate, id: crate::text::owned(root_id) });
        }
        if self.leads_back_to(root_id) {
            return Err(WorkError::TemplateCycle { template_id: crate::text::owned(root_id) });
        }
        proof {
            lemma_first_index_facts(ids, root_id@);
        }
        let mut ordered: Vec<TaskTemplate> = Vec::new();
        let mut stack: Vec<String> = Vec::new();
        stack.push(crate::text::owned(root_id));
        while stack.len() > 0
            invariant
                self.templates_unique(),
                rows == self.templates@,
                ids == template_ids(rows),
                self.template_at(root_id@) is Some,
                ordered.len() == 0 ==> texts(stack@) == seq![root_id@],
                ordered.len() > 0 ==> ordered@[0].id@ == root_id@,
                forall|k: int|
                    0 < k < ordered.len() ==> exists|j: int|
                        0 <= j < k && parent_is(#[trigger] ordered@[k], ordered@[j].id@),
                forall|x: int|
                    0 <= x < stack.len() && ordered.len() > 0 ==> child_of_reached(rows, ordered@, (#[trigger] stack@[x])@),
                forall|q: int, j: int|
                    #![trigger rows[q], ordered@[j]]
                    0 <= q < rows.len() && 0 <= j < ordered.len() && child_of(ordered@[j].id@)(rows[q])
                        ==> tree_ids(ordered@).contains(rows[q].id@) || texts(stack@).contains(rows[q].id@),
                forall|k: int|
                    0 <= k < ordered.len() ==> self.assembled_at(#[trigger] ordered@[k]),
                !leads_back(rows, root_id@),
                (tree_ids(ordered@) + texts(stack@)).no_duplicates(),
                forall|k: int| 0 <= k < ordered.len() ==> reaches_within(rows, (#[trigger] ordered@[k]).id@, root_id@, k),
                ordered.len() + stack.len() <= rows.len(),
                walk(rows, seq![root_id@], rows.len() as nat) == tree_ids(ordered@) + walk(
                    rows,
                    texts(stack@),
                    (rows.len() - ordered.len()) as nat,
                ),
            decreases rows.len() - ordered.len(),
        {
            let ghost before_stack = stack@;
            let tid = stack.pop().unwrap();
            proof {
                assert(before_stack =~= stack@.push(tid));
                if ordered.len() > 0 {
                    assert(before_stack[before_stack.len() - 1] == tid);
                    assert(child_of_reached(rows, ordered@, before_stack[before_stack.len() - 1]@));
                    let (j, q) = choose|j: int, q: int|
                        0 <= j < ordered.len() && 0 <= q < rows.len() && rows[q].id@
                            == before_stack[before_stack.len() - 1]@ && child_of(ordered@[j].id@)(rows[q]);
                    lemma_first_index_unique(ids, q);
                } else {
                    assert(texts(before_stack)[0] == tid@);
                }
            }
            let template = match self.get_task_template(tid.as_str()) {
                Some(t) => t,
                None => {
                    return Err(WorkError::NotFound { kind: RecordKind::TaskTemplate, id: tid });
                },
            };
            let children = self.children_of(tid.as_str());
            let ghost old_ordered = ordered@;
            ordered.push(template);
            assert(ordered@[ordered.len() - 1].id@ == tid@) by {
                lemma_first_index_facts(ids, tid@);
            }
            assert(tree_ids(ordered@) =~= tree_ids(old_ordered).push(tid@));
            assert forall|k: int|
                0 < k < ordered.len() implies exists|j: int|
                    0 <= j < k && parent_is(#[trigger] ordered@[k], ordered@[j].id@) by {
                if k < old_ordered.len() {
                    assert(ordered@[k] == old_ordered[k]);
                    let j = choose|j: int| 0 <= j < k && parent_is(#[trigger] old_ordered[k], old_ordered[j].id@);
                    assert(ordered@[j] == old_ordered[j]);
                } else {
                    assert(child_of_reached(rows, old_ordered, before_stack[before_stack.len() - 1]@));
                    let (j, q) = choose|j: int, q: int|
                        0 <= j < old_ordered.len() && 0 <= q < rows.len() && rows[q].id@
                            == before_stack[before_stack.len() - 1]@ && child_of(old_ordered[j].id@)(rows[q]);
                    lemma_first_index_unique(ids, q);
                    assert(ordered@[j] == old_ordered[j]);
                    assert(parent_is(ordered@[k], ordered@[j].id@));
                }
            }
            assert forall|k: int| 0 <= k < ordered.len() implies self.assembled_at(#[trigger] ordered@[k]) by {
                if k < old_ordered.len() {
                    assert(ordered@[k] == old_ordered[k]);
                } else {
                    lemma_first_index_facts(ids, tid@);
                    assert(ordered@[k].id@ == tid@);
                }
            }
            let ghost popped = stack@;
            crate::text::append_strings(&mut stack, &children);
            proof {
                assert(stack@ =~= popped + children@);
                lemma_visit_stack(rows, ordered@, old_ordered, before_stack, popped, children@, stack@, tid@, root_id@);
                lemma_visit_closure(rows, ordered@, old_ordered, before_stack, popped, children@, stack@, tid@);
                lemma_visit_fresh(*self, root_id@, old_ordered, ordered@, before_stack, popped, children@, stack@, tid@);
                lemma_walk_bound(*self, ordered@, stack@);
                let f = (rows.len() - old_ordered.len()) as nat;
                assert(f > 0);
                assert(texts(before_stack).last() == tid@);
                assert(texts(before_stack).drop_last() =~= texts(popped));
                lemma_child_ids(rows, tid@, texts(children@));
                assert(texts(stack@) =~= texts(popped) + texts(children@));
                assert(walk(rows, texts(before_stack), f) == seq![tid@] + walk(rows, texts(stack@), (f - 1) as nat));
                assert(tree_ids(ordered@) + walk(rows, texts(stack@), (f - 1) as nat) =~= tree_ids(old_ordered) + (seq![tid@]
                    + walk(rows, texts(stack@), (f - 1) as nat)));
            }
        }
        assert(tree_ids(ordered@) + texts(stack@) =~= tree_ids(ordered@));
        assert(tree_ids(ordered@) + walk(rows, texts(stack@), (rows.len() - ordered.len()) as nat) =~= tree_ids(ordered@));
        Ok(ordered)
    }
}



/// A reached template's children join the stack: every stacked id is the id
/// of a child of a reached template.
proof fn lemma_visit_stack(
    rows: Seq<TemplateRow>,
    ordered: Seq<TaskTemplate>,
    old_ordered: Seq<TaskTemplate>,
    before_stack: Seq<String>,
    popped: Seq<String>,
    children: Seq<String>,
    stack: Seq<String>,
    tid: Seq<char>,
    root: Seq<char>,
)
    requires
        ordered.len() == old_ordered.len() + 1,
        forall|k: int| 0 <= k < old_ordered.len() ==> ordered[k] == old_ordered[k],
        ordered[ordered.len() - 1].id@ == tid,
        before_stack.len() == popped.len() + 1,
        forall|x: int| 0 <= x < popped.len() ==> popped[x] == before_stack[x],
        old_ordered.len() == 0 ==> texts(before_stack) == seq![root],
        forall|x: int|
            0 <= x < before_stack.len() && old_ordered.len() > 0 ==> child_of_reached(rows, old_ordered, (#[trigger] before_stack[x])@),
        stack == popped + children,
        is_ordering(texts(children), template_ids(rows.filter(child_of(tid))), age_keys(rows.filter(child_of(tid))), true),
    ensures
        forall|x: int| 0 <= x < stack.len() ==> child_of_reached(rows, ordered, (#[trigger] stack[x])@),
{
    let src = rows.filter(child_of(tid));
    lemma_filter_subset(rows, child_of(tid));
    lemma_ordering_members(texts(children), template_ids(src), age_keys(src), true);
    assert forall|x: int| 0 <= x < stack.len() implies child_of_reached(rows, ordered, (#[trigger] stack[x])@) by {
        if x < popped.len() {
            assert(stack[x] == popped[x]);
            assert(popped[x] == before_stack[x]);
            assert(old_ordered.len() > 0) by {
                if old_ordered.len() == 0 {
                    assert(texts(before_stack).len() == 1);
                }
            }
            assert(child_of_reached(rows, old_ordered, before_stack[x]@));
            let (j, q) = choose|j: int, q: int|
                0 <= j < old_ordered.len() && 0 <= q < rows.len() && rows[q].id@ == before_stack[x]@
                    && child_of(old_ordered[j].id@)(rows[q]);
            assert(ordered[j] == old_ordered[j]);
        } else {
            let c = x - popped.len();
            assert(stack[x] == children[c]);
            assert(texts(children)[c] == children[c]@);
            assert(c < texts(children).len());
            assert(template_ids(src).contains(texts(children)[c]));
            let i0 = choose|i0: int| 0 <= i0 < template_ids(src).len() && template_ids(src)[i0] == texts(children)[c];
            broadcast use vstd::seq_lib::group_filter_ensures;
            assert(child_of(tid)(src[i0]));
            assert(rows.contains(src[i0]));
            let q = choose|q: int| 0 <= q < rows.len() && rows[q] == src[i0];
            assert(rows[q].id@ == stack[x]@);
            assert(child_of(ordered[ordered.len() - 1].id@)(rows[q]));
            assert(0 <= ordered.len() - 1 < ordered.len() && 0 <= q < rows.len() && rows[q].id@ == stack[x]@
                && child_of(ordered[ordered.len() - 1].id@)(rows[q]));
        }
    }
}

/// After a visit, every child of a reached template is reached or stacked.
proof fn lemma_visit_closure(
    rows: Seq<TemplateRow>,
    ordered: Seq<TaskTemplate>,
    old_ordered: Seq<TaskTemplate>,
    before_stack: Seq<String>,
    popped: Seq<String>,
    children: Seq<String>,
    stack: Seq<String>,
    tid: Seq<char>,
)
    requires
        ordered.len() == old_ordered.len() + 1,
        forall|k: int| 0 <= k < old_ordered.len() ==> ordered[k] == old_ordered[k],
        ordered[ordered.len() - 1].id@ == tid,
        tree_ids(ordered) == tree_ids(old_ordered).push(tid),
        before_stack.len() == popped.len() + 1,
        forall|x: int| 0 <= x < popped.len() ==> popped[x] == before_stack[x],
        before_stack[popped.len() as int]@ == tid,
        forall|q: int, j: int|
            #![trigger rows[q], old_ordered[j]]
            0 <= q < rows.len() && 0 <= j < old_ordered.len() && child_of(old_ordered[j].id@)(rows[q])
                ==> tree_ids(old_ordered).contains(rows[q].id@) || texts(before_stack).contains(rows[q].id@),
        stack == popped + children,
        is_ordering(texts(children), template_ids(rows.filter(child_of(tid))), age_keys(rows.filter(child_of(tid))), true),
    ensures
        forall|q: int, j: int|
            #![trigger rows[q], ordered[j]]
            0 <= q < rows.len() && 0 <= j < ordered.len() && child_of(ordered[j].id@)(rows[q])
                ==> tree_ids(ordered).contains(rows[q].id@) || texts(stack).contains(rows[q].id@),
{
    let src = template_ids(rows.filter(child_of(tid)));
    lemma_ordering_members(texts(children), src, age_keys(rows.filter(child_of(tid))), true);
    assert(texts(stack) =~= texts(popped) + texts(children));
    assert forall|q: int, j: int|
        #![trigger rows[q], ordered[j]]
        0 <= q < rows.len() && 0 <= j < ordered.len() && child_of(ordered[j].id@)(rows[q])
            implies tree_ids(ordered).contains(rows[q].id@) || texts(stack).contains(rows[q].id@) by {
        if j == ordered.len() - 1 {
            broadcast use vstd::seq_lib::group_filter_ensures;
            assert(rows.filter(child_of(tid)).contains(rows[q]));
            let w = choose|w: int| 0 <= w < rows.filter(child_of(tid)).len() && rows.filter(child_of(tid))[w] == rows[q];
            assert(src[w] == rows[q].id@);
            assert(texts(children).contains(rows[q].id@));
            let i = choose|i: int| 0 <= i < texts(children).len() && texts(children)[i] == rows[q].id@;
            assert(texts(stack)[popped.len() + i] == rows[q].id@);
        } else {
            assert(ordered[j] == old_ordered[j]);
            if tree_ids(old_ordered).contains(rows[q].id@) {
                let w = choose|w: int| 0 <= w < tree_ids(old_ordered).len() && tree_ids(old_ordered)[w] == rows[q].id@;
                assert(tree_ids(ordered)[w] == rows[q].id@);
            } else if rows[q].id@ == tid {
                assert(tree_ids(ordered)[ordered.len() - 1] == rows[q].id@);
            } else {
                assert(texts(before_stack).contains(rows[q].id@));
                let w = choose|w: int| 0 <= w < texts(before_stack).len() && texts(before_stack)[w] == rows[q].id@;
                assert(w < popped.len());
                assert(texts(stack)[w] == rows[q].id@);
            }
        }
    }
}

/// Position in the tree of the template with id `x`.
pub open spec fn tree_pos(tree: Seq<TaskTemplate>, x: Seq<char>) -> Option<int> {
    first_index(tree_ids(tree), x)
}

/// The parent of the `k`th created task: the task made from the template's
/// parent, or the requested parent for a template without one.
pub open spec fn instantiated_parent(
    tree: Seq<TaskTemplate>,
    ids: Seq<String>,
    k: int,
    params: InstantiateTaskTemplate,
) -> Option<String> {
    match tree[k].parent_template_id {
        None => params.parent_task_id,
        Some(p) => match tree_pos(tree, p@) {
            Some(j) => Some(ids[j]),
            None => None,
        },
    }
}

/// The task created from the `k`th template: a pending task with the
/// template's title, description and priority, and the request's list, goal,
/// owner and project where it names them, else the template's.
pub open spec fn instantiated_row(
    tree: Seq<TaskTemplate>,
    ids: Seq<String>,
    k: int,
    params: InstantiateTaskTemplate,
    now: String,
) -> TaskRow {
    TaskRow {
        id: ids[k],
        list_key: keep_first(params.list_key, tree[k].list_key),
        title: tree[k].title,
        description: tree[k].description,
        status: TaskStatus::Pending,
        priority: tree[k].priority,
        goal_id: keep_first(params.goal_id, tree[k].goal_id),
        parent_task_id: instantiated_parent(tree, ids, k, params),
        owner: keep_first(params.owner, tree[k].owner),
        project_id: keep_first(params.project_id, tree[k].project_id),
        session_key: None,
        claimed_at: None,
        created_at: now,
        updated_at: now,
    }
}

pub open spec fn instantiated_rows(
    tree: Seq<TaskTemplate>,
    ids: Seq<String>,
    params: InstantiateTaskTemplate,
    now: String,
) -> Seq<TaskRow> {
    Seq::new(tree.len(), |k: int| instantiated_row(tree, ids, k, params, now))
}

/// The dependencies of the task made from the `k`th template: on the tasks
/// made from the templates it depends on.
pub open spec fn instantiated_deps_of(tree: Seq<TaskTemplate>, ids: Seq<String>, k: int) -> Seq<Dependency> {
    tree[k].blocked_by@.map_values(
        |d: String| Dependency {
            from_id: ids[k],
            to_id: match tree_pos(tree, d@) {
                Some(j) => ids[j],
                None => ids[k],
            },
        },
    )
}

/// The dependencies of the tasks made from the first `n` templates.
pub open spec fn instantiated_deps(tree: Seq<TaskTemplate>, ids: Seq<String>, n: int) -> Seq<Dependency>
    decreases n,
{
    if n <= 0 {
        Seq::empty()
    } else {
        instantiated_deps(tree, ids, n - 1) + instantiated_deps_of(tree, ids, n - 1)
    }
}

/// Every dependency of the tree's templates is a template of the tree.
pub open spec fn deps_inside(tree: Seq<TaskTemplate>) -> bool {
    forall|k: int, d: int|
        0 <= k < tree.len() && 0 <= d < tree[k].blocked_by.len() ==> tree_pos(
            tree,
            (#[trigger] tree[k].blocked_by@[d])@,
        ) is Some
}

/// The tree with these templates is what the store holds under `root`.
pub open spec fn is_stored_tree(store: WorkStore, root: Seq<char>, tree: Seq<TaskTemplate>) -> bool {
    &&& is_template_tree(store.templates@, root, tree)
    &&& tree_ids(tree) == walk(store.templates@, seq![root], store.templates@.len() as nat)
    &&& forall|k: int| 0 <= k < tree.len() ==> store.assembled_at(#[trigger] tree[k])
}

fn tree_position(tree: &Vec<TaskTemplate>, x: &str) -> (r: Option<usize>)
    ensures
        r matches Some(j) ==> tree_pos(tree@, x@) == Some(j as int) && j < tree.len(),
        r is None ==> tree_pos(tree@, x@) is None,
{
    let ghost ids = tree_ids(tree@);
    let mut i: usize = 0;
    while i < tree.len()
        invariant
            i <= tree.len(),
            ids == tree_ids(tree@),
            forall|j: int| 0 <= j < i ==> ids[j] != x@,
        decreases tree.len() - i,
    {
        if crate::text::str_equal(tree[i].id.as_str(), x) {
            proof {
                lemma_first_index(ids, x@, i as int);
            }
            return Some(i);
        }
        i += 1;
    }
    proof {
        lemma_first_index(ids, x@, i as int);
    }
    None
}

/// The new task ids are distinct and name no task yet.
pub open spec fn ids_fresh(store: WorkStore, ids: Seq<String>) -> bool {
    &&& texts(ids).no_duplicates()
    &&& forall|k: int| 0 <= k < ids.len() ==> store.task_at(#[trigger] ids[k]@) is None
}

/// What instantiating the template tree `tree` with the task ids `ids` does:
/// a root template with a parent, a taken or repeated id, or a dependency
/// outside the tree is refused, in that order, with nothing written;
/// otherwise one new task per template and the dependencies between them.
pub open spec fn tree_instantiated(
    before: WorkStore,
    after: WorkStore,
    params: InstantiateTaskTemplate,
    tree: Seq<TaskTemplate>,
    ids: Seq<String>,
    now: String,
    r: Result<TemplateInstantiationResult, WorkError>,
) -> bool {
    if tree[0].parent_template_id is Some {
        &&& r matches Err(WorkError::MissingParentTemplate { template_id, parent_template_id })
            && template_id == tree[0].id && tree[0].parent_template_id == Some(parent_template_id)
        &&& after == before
    } else if !ids_fresh(before, ids) {
        &&& r matches Err(e) && exists|k: int|
            0 <= k < ids.len() && #[trigger] e.is_duplicate(RecordKind::Task, ids[k]@) && (before.task_at(ids[k]@) is Some
                || exists|j: int| 0 <= j < k && ids[j]@ == ids[k]@)
        &&& after == before
    } else if !deps_inside(tree) {
        // the first template, in tree order, with a dependency outside the
        // tree, and its first such dependency
        &&& r matches Err(WorkError::DependencyOutsideTree { template_id, dependency_id }) && exists|k: int, d: int|
            #![trigger tree[k].blocked_by@[d]]
            0 <= k < tree.len() && 0 <= d < tree[k].blocked_by.len() && tree[k].id@ == template_id@
                && tree[k].blocked_by@[d]@ == dependency_id@ && tree_pos(tree, dependency_id@) is None
                && (forall|a: int, e: int|
                0 <= a < k && 0 <= e < tree[a].blocked_by.len() ==> tree_pos(tree, (#[trigger] tree[a].blocked_by@[e])@) is Some)
                && (forall|e: int| 0 <= e < d ==> tree_pos(tree, (#[trigger] tree[k].blocked_by@[e])@) is Some)
        &&& after == before
    } else {
        &&& r matches Ok(res)
        &&& res.task_ids@ == ids
        &&& res.count == tree.len()
        &&& res.template_id == params.template_id
        &&& res.root_task_id == ids[0]
        &&& after.tasks@ == before.tasks@ + instantiated_rows(tree, ids, params, now)
        &&& after.task_dependencies@ == before.task_dependencies@ + instantiated_deps(tree, ids, tree.len() as int)
        &&& only_tasks_changed(before, after)
    }
}

/// What instantiating the template tree under `params.template_id` does:
/// a missing template, or parent links that lead back to it, are refused
/// with nothing written; otherwise the tree is instantiated with some task
/// ids, one per template.
pub open spec fn instantiation_outcome(
    before: WorkStore,
    after: WorkStore,
    params: InstantiateTaskTemplate,
    now: String,
    r: Result<TemplateInstantiationResult, WorkError>,
) -> bool {
    let root = params.template_id@;
    if before.template_at(root) is None {
        r matches Err(e) && e.is_not_found(RecordKind::TaskTemplate, root) && after == before
    } else if leads_back(before.templates@, root) {
        r matches Err(WorkError::TemplateCycle { template_id }) && template_id@ == root && after == before
    } else {
        exists|tree: Seq<TaskTemplate>, ids: Seq<String>|
            #![trigger tree_instantiated(before, after, params, tree, ids, now, r)]
            is_stored_tree(before, root, tree) && ids.len() == tree.len() && tree_instantiated(
                before,
                after,
                params,
                tree,
                ids,
                now,
                r,
            )
    }
}

impl WorkStore {
    /// Creates one pending task per template of the tree under the request's
    /// template, linked as the templates are: each task's parent is the task
    /// of its template's parent, and each dependency between templates
    /// becomes one between their tasks.  Nothing is written unless every
    /// task and dependency can be.  Draws a fresh id for each task.
    pub fn instantiate_task_template_at(&mut self, params: InstantiateTaskTemplate, now: String) -> (r: Result<TemplateInstantiationResult, WorkError>)
        requires
            old(self).templates_unique(),
        ensures
            instantiation_outcome(*old(self), *final(self), params, now, r),
    {
        let tree = match self.collect_template_subtree(params.template_id.as_str()) {
            Ok(t) => t,
            Err(e) => return Err(e),
        };
        let mut ids: Vec<String> = Vec::new();
        while ids.len() < tree.len()
            invariant
                ids.len() <= tree.len(),
            decreases tree.len() - ids.len(),
        {
            ids.push(crate::clock::new_id());
        }
        let ghost before = *self;
        let ghost p = params;
        let ghost ids_v = ids@;
        let r = self.instantiate_tree_with_ids(params, &tree, ids, now);
        assert(tree_instantiated(before, *self, p, tree@, ids_v, now, r));
        r
    }

    /// Instantiates the stored template tree `tree` under the request's
    /// template, with `ids[k]` as the id of the task made from `tree[k]`.
    pub fn instantiate_tree_with_ids(
        &mut self,
        params: InstantiateTaskTemplate,
        tree: &Vec<TaskTemplate>,
        ids: Vec<String>,
        now: String,
    ) -> (r: Result<TemplateInstantiationResult, WorkError>)
        requires
            is_stored_tree(*old(self), params.template_id@, tree@),
            ids.len() == tree.len(),
        ensures
            tree_instantiated(*old(self), *final(self), params, tree@, ids@, now, r),
    {
        let ghost t = tree@;
        match &tree[0].parent_template_id {
            Some(p) => {
                return Err(WorkError::MissingParentTemplate { template_id: tree[0].id.clone(), parent_template_id: p.clone() });
            },
            None => {},
        }
        let mut k: usize = 0;
        while k < ids.len()
            invariant
                *self == *old(self),
                k <= ids.len(),
                texts(ids@.take(k as int)).no_duplicates(),
                tree@.len() > 0,
                tree@[0].parent_template_id is None,
                forall|x: int| 0 <= x < k ==> self.task_at(#[trigger] ids@[x]@) is None,
            decreases ids.len() - k,
        {
            if self.task_position(ids[k].as_str()).is_some() {
                let e = WorkError::DuplicateId { kind: RecordKind::Task, id: ids[k].clone() };
                assert(e.is_duplicate(RecordKind::Task, ids@[k as int]@));
                assert(old(self).task_at(ids@[k as int]@) is Some);
                return Err(e);
            }
            let mut x: usize = 0;
            while x < k
                invariant
                    x <= k < ids.len(),
                    forall|y: int| 0 <= y < x ==> ids@[y]@ != ids@[k as int]@,
                    *self == *old(self),
                    tree@.len() > 0,
                    tree@[0].parent_template_id is None,
                decreases k - x,
            {
                if ids[x] == ids[k] {
                    let e = WorkError::DuplicateId { kind: RecordKind::Task, id: ids[k].clone() };
                    assert(e.is_duplicate(RecordKind::Task, ids@[k as int]@));
                    assert(ids@[x as int]@ == ids@[k as int]@);
                    assert(texts(ids@)[x as int] == texts(ids@)[k as int]);
                    return Err(e);
                }
                x += 1;
            }
            proof {
                let pre = texts(ids@.take(k as int));
                let post = texts(ids@.take(k as int + 1));
                assert forall|a: int, b: int| 0 <= a < b < post.len() implies post[a] != post[b] by {
                    assert(post[a] == ids@[a]@);
                    assert(post[b] == ids@[b]@);
                    if b < k {
                        assert(pre[a] == ids@[a]@);
                        assert(pre[b] == ids@[b]@);
                    }
                }
            }
            k += 1;
        }
        assert(ids@.take(k as int) =~= ids@);
        let mut rows: Vec<TaskRow> = Vec::new();
        let mut k: usize = 0;
        while k < tree.len()
            invariant
                t == tree@,
                is_stored_tree(*old(self), params.template_id@, t),
                *self == *old(self),
                texts(ids@).no_duplicates(),
                forall|x: int| 0 <= x < ids.len() ==> old(self).task_at(#[trigger] ids@[x]@) is None,
                ids.len() == tree.len(),
                k <= tree.len(),
                rows@ == instantiated_rows(t, ids@, params, now).take(k as int),
                t[0].parent_template_id is None,
            decreases tree.len() - k,
        {
            let parent = match &tree[k].parent_template_id {
                Some(p) => match tree_position(tree, p.as_str()) {
                    Some(j) => Some(ids[j].clone()),
                    None => {
                        proof {
                            assert(k > 0);
                            let j = choose|j: int| 0 <= j < k && parent_is(#[trigger] t[k as int], t[j].id@);
                            lemma_first_index_facts(tree_ids(t), p@);
                            assert(tree_ids(t)[j] == p@);
                        }
                        return Err(WorkError::MissingParentTemplate { template_id: tree[k].id.clone(), parent_template_id: p.clone() });
                    },
                },
                None => clone_opt_field(&params.parent_task_id),
            };
            rows.push(TaskRow {
                id: ids[k].clone(),
                list_key: or_else_keep(clone_opt_field(&params.list_key), clone_opt_field(&tree[k].list_key)),
                title: tree[k].title.clone(),
                description: clone_opt_field(&tree[k].description),
                status: TaskStatus::Pending,
                priority: tree[k].priority,
                goal_id: or_else_keep(clone_opt_field(&params.goal_id), clone_opt_field(&tree[k].goal_id)),
                parent_task_id: parent,
                owner: or_else_keep(clone_opt_field(&params.owner), clone_opt_field(&tree[k].owner)),
                project_id: or_else_keep(clone_opt_field(&params.project_id), clone_opt_field(&tree[k].project_id)),
                session_key: None,
                claimed_at: None,
                created_at: now.clone(),
                updated_at: now.clone(),
            });
            k += 1;
            assert(rows@ =~= instantiated_rows(t, ids@, params, now).take(k as int));
        }
        assert(instantiated_rows(t, ids@, params, now).take(k as int) =~= instantiated_rows(t, ids@, params, now));
        let mut deps: Vec<Dependency> = Vec::new();
        let mut k: usize = 0;
        while k < tree.len()
            invariant
                t == tree@,
                is_stored_tree(*old(self), params.template_id@, t),
                *self == *old(self),
                texts(ids@).no_duplicates(),
                forall|x: int| 0 <= x < ids.len() ==> old(self).task_at(#[trigger] ids@[x]@) is None,
                rows@ == instantiated_rows(t, ids@, params, now),
                ids.len() == tree.len(),
                k <= tree.len(),
                deps@ == instantiated_deps(t, ids@, k as int),
                t[0].parent_template_id is None,
                forall|a: int, d: int|
                    0 <= a < k && 0 <= d < t[a].blocked_by.len() ==> tree_pos(t, (#[trigger] t[a].blocked_by@[d])@) is Some,
            decreases tree.len() - k,
        {
            let ghost before = deps@;
            let mut d: usize = 0;
            while d < tree[k].blocked_by.len()
                invariant
                    t == tree@,
                    is_stored_tree(*old(self), params.template_id@, t),
                    *self == *old(self),
                    ids.len() == tree.len(),
                    k < tree.len(),
                    d <= tree[k as int].blocked_by.len(),
                    deps@ == before + instantiated_deps_of(t, ids@, k as int).take(d as int),
                    t[0].parent_template_id is None,
                    texts(ids@).no_duplicates(),
                    forall|x: int| 0 <= x < ids.len() ==> old(self).task_at(#[trigger] ids@[x]@) is None,
                    forall|e: int| 0 <= e < d ==> tree_pos(t, (#[trigger] t[k as int].blocked_by@[e])@) is Some,
                    forall|a: int, e: int|
                        0 <= a < k && 0 <= e < t[a].blocked_by.len() ==> tree_pos(t, (#[trigger] t[a].blocked_by@[e])@) is Some,
                decreases tree[k as int].blocked_by.len() - d,
            {
                match tree_position(tree, tree[k].blocked_by[d].as_str()) {
                    Some(j) => {
                        deps.push(Dependency { from_id: ids[k].clone(), to_id: ids[j].clone() });
                    },
                    None => {
                        let err = WorkError::DependencyOutsideTree { template_id: tree[k].id.clone(), dependency_id: tree[k].blocked_by[d].clone() };
                        assert(is_stored_tree(*old(self), params.template_id@, t) && 0 <= k < t.len() && 0 <= d < t[k as int].blocked_by.len()
                            && t[k as int].blocked_by@[d as int]@ == tree[k as int].blocked_by@[d as int]@);
                        assert(tree_pos(t, t[k as int].blocked_by@[d as int]@) is None);
                        assert(!deps_inside(t));
                        assert(ids_fresh(*old(self), ids@));
                        return Err(err);
                    },
                }
                d += 1;
                assert(deps@ =~= before + instantiated_deps_of(t, ids@, k as int).take(d as int));
            }
            assert(instantiated_deps_of(t, ids@, k as int).take(d as int) =~= instantiated_deps_of(t, ids@, k as int));
            k += 1;
        }
        let count = tree.len();
        let root_task_id = ids[0].clone();
        let mut r: usize = 0;
        while r < rows.len()
            invariant
                r <= rows.len(),
                self.tasks@ == old(self).tasks@ + rows@.take(r as int),
                self.task_dependencies@ == old(self).task_dependencies@,
                self.task_dependencies == old(self).task_dependencies,
                only_tasks_changed(*old(self), *self),
            decreases rows.len() - r,
        {
            self.tasks.push(rows[r].copy());
            r += 1;
            assert(self.tasks@ =~= old(self).tasks@ + rows@.take(r as int));
        }
        assert(rows@.take(r as int) =~= rows@);
        let mut r: usize = 0;
        while r < deps.len()
            invariant
                r <= deps.len(),
                self.task_dependencies@ == old(self).task_dependencies@ + deps@.take(r as int),
                self.tasks@ == old(self).tasks@ + rows@,
                only_tasks_changed(*old(self), *self),
            decreases deps.len() - r,
        {
            self.task_dependencies.push(deps[r].copy());
            r += 1;
            assert(self.task_dependencies@ =~= old(self).task_dependencies@ + deps@.take(r as int));
        }
        assert(deps@.take(r as int) =~= deps@);
        assert(is_stored_tree(*old(self), params.template_id@, t));
        Ok(TemplateInstantiationResult { template_id: params.template_id, root_task_id, task_ids: ids, count })
    }
}

/// A copy of an optional string field.
fn clone_opt_field(o: &Option<String>) -> (r: Option<String>)
    ensures
        r == *o,
{
    crate::text::clone_opt(o)
}

} // verus!
