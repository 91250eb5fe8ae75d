//! Goal planning: a preset turns a goal into a tree of task templates.

use vstd::prelude::*;

use crate::error::{RecordKind, WorkError};
use crate::records::{
    Goal, GoalPlanRequest, GoalPlanResult, InstantiateTaskTemplate, NewTaskTemplate, TaskTemplate,
};
use crate::store::{or_keep, WorkStore};
use crate::templates::{instantiation_outcome, only_templates_changed};
use crate::text::{
    ascii_lower, chars_of, is_ascii_alnum, is_ascii_alphanumeric, owned, pop_trailing, string_from_chars,
    strip_trailing, texts, to_ascii_lowercase,
};
use crate::types::{GoalPlanPreset, TaskPriority};

verus! {

/// Lowered ASCII letters and digits of the text, with one dash for each run
/// of other characters that follows a letter or digit.
pub open spec fn slug_body(s: Seq<char>) -> Seq<char>
    decreases s.len(),
{
    if s.len() == 0 {
        Seq::empty()
    } else {
        let prev = slug_body(s.drop_last());
        let c = s.last();
        if is_ascii_alnum(c) {
            prev.push(ascii_lower(c))
        } else if prev.len() > 0 && prev.last() != '-' {
            prev.push('-')
        } else {
            prev
        }
    }
}

/// The slug of a goal title: its slug body without a trailing dash, or
/// `goal` when nothing is left.
pub open spec fn goal_slug(s: Seq<char>) -> Seq<char> {
    let t = strip_trailing(slug_body(s), '-');
    if t.len() == 0 {
        "goal"@
    } else {
        t
    }
}

/// The slug of a goal title, used to name the templates planned for it.
pub fn slugify(value: &str) -> (r: String)
    ensures
        r@ == goal_slug(value@),
{
    let chars = chars_of(value);
    let mut slug: Vec<char> = Vec::new();
    let mut prev_dash = false;
    let mut i: usize = 0;
    while i < chars.len()
        invariant
            i <= chars.len(),
            slug@ == slug_body(chars@.take(i as int)),
            prev_dash == (slug.len() > 0 && slug@.last() == '-'),
        decreases chars.len() - i,
    {
        let ch = chars[i];
        assert(chars@.take(i as int + 1).drop_last() =~= chars@.take(i as int));
        if is_ascii_alphanumeric(ch) {
            slug.push(to_ascii_lowercase(ch));
            prev_dash = false;
            assert(ascii_lower(ch) != '-');
        } else if !prev_dash && slug.len() > 0 {
            slug.push('-');
            prev_dash = true;
        }
        i += 1;
    }
    assert(chars@.take(i as int) =~= chars@);
    pop_trailing(&mut slug, '-');
    if slug.len() == 0 {
        owned("goal")
    } else {
        string_from_chars(&slug)
    }
}

/// A template that a preset plans for a goal.
#[derive(Debug, Clone)]
pub struct GoalPlanTemplateSeed {
    pub slug_suffix: String,
    pub title: String,
    pub description: String,
    pub priority: TaskPriority,
    pub blocked_by_suffixes: Vec<String>,
}

/// The `i`th step of a preset: slug suffix, title before the goal's title,
/// description and priority.  Each step after the first is blocked by the
/// step before it.
pub open spec fn plan_step(preset: GoalPlanPreset, i: int) -> (Seq<char>, Seq<char>, Seq<char>, TaskPriority) {
    match preset {
        GoalPlanPreset::Delivery => if i == 0 {
            ("scope"@, "Define scope for "@, "Capture success criteria, interfaces, risks, and delivery boundaries."@, TaskPriority::High)
        } else if i == 1 {
            ("implement"@, "Implement "@, "Execute the main delivery work for this goal."@, TaskPriority::High)
        } else if i == 2 {
            ("verify"@, "Verify "@, "Run the relevant tests, acceptance checks, and regressions."@, TaskPriority::High)
        } else {
            ("rollout"@, "Roll out "@, "Handle release notes, rollout steps, and post-ship follow-up."@, TaskPriority::Medium)
        },
        GoalPlanPreset::Investigation => if i == 0 {
            ("gather"@, "Gather evidence for "@, "Collect logs, reports, and existing context before changing code."@, TaskPriority::High)
        } else if i == 1 {
            ("analyze"@, "Analyze failure modes for "@, "Reproduce the issue and narrow the plausible root-cause set."@, TaskPriority::High)
        } else if i == 2 {
            ("synthesize"@, "Synthesize findings for "@, "Summarize the evidence trail, root cause, and important unknowns."@, TaskPriority::Medium)
        } else {
            ("next-steps"@, "Recommend next steps for "@, "Translate the investigation into concrete follow-up work."@, TaskPriority::Medium)
        },
        GoalPlanPreset::Maintenance => if i == 0 {
            ("audit"@, "Audit current state for "@, "Inspect the existing surface area and identify required maintenance."@, TaskPriority::Medium)
        } else if i == 1 {
            ("apply"@, "Apply maintenance changes for "@, "Execute the concrete upkeep work and clean up stale edges."@, TaskPriority::High)
        } else if i == 2 {
            ("validate"@, "Validate maintenance changes for "@, "Confirm the maintenance work did not introduce regressions."@, TaskPriority::High)
        } else {
            ("follow-up"@, "Close follow-ups for "@, "Track any leftovers, docs updates, and future cleanup items."@, TaskPriority::Low)
        },
    }
}

/// The seed is step `i` of the preset for a goal titled `title`.
pub open spec fn is_plan_seed(seed: GoalPlanTemplateSeed, preset: GoalPlanPreset, i: int, title: Seq<char>) -> bool {
    let (suffix, prefix, description, priority) = plan_step(preset, i);
    &&& seed.slug_suffix@ == suffix
    &&& seed.title@ == prefix + title
    &&& seed.description@ == description
    &&& seed.priority == priority
    &&& texts(seed.blocked_by_suffixes@) == if i == 0 {
        Seq::<Seq<char>>::empty()
    } else {
        seq![plan_step(preset, i - 1).0]
    }
}

fn make_seed(
    suffix: &str,
    prefix: &str,
    title: &String,
    description: &str,
    priority: TaskPriority,
    blocked_by: Option<&str>,
) -> (s: GoalPlanTemplateSeed)
    ensures
        s.slug_suffix@ == suffix@,
        s.title@ == prefix@ + title@,
        s.description@ == description@,
        s.priority == priority,
        texts(s.blocked_by_suffixes@) == match blocked_by {
            Some(b) => seq![b@],
            None => Seq::<Seq<char>>::empty(),
        },
{
    let mut t = owned(prefix);
    t.append(title.as_str());
    let mut blocked: Vec<String> = Vec::new();
    match blocked_by {
        Some(b) => {
            blocked.push(owned(b));
            assert(texts(blocked@) =~= seq![b@]);
        },
        None => {
            assert(texts(blocked@) =~= Seq::<Seq<char>>::empty());
        },
    }
    GoalPlanTemplateSeed {
        slug_suffix: owned(suffix),
        title: t,
        description: owned(description),
        priority,
        blocked_by_suffixes: blocked,
    }
}

/// The four templates a preset plans for a goal, each blocked by the one
/// before it.
pub fn goal_plan_blueprint(goal: &Goal, preset: GoalPlanPreset) -> (r: Vec<GoalPlanTemplateSeed>)
    ensures
        r.len() == 4,
        forall|i: int| 0 <= i < 4 ==> is_plan_seed(#[trigger] r@[i], preset, i, goal.title@),
{
    let mut r: Vec<GoalPlanTemplateSeed> = Vec::new();
    let title = &goal.title;
    match preset {
        GoalPlanPreset::Delivery => {
            r.push(make_seed("scope", "Define scope for ", title, "Capture success criteria, interfaces, risks, and delivery boundaries.", TaskPriority::High, None));
            r.push(make_seed("implement", "Implement ", title, "Execute the main delivery work for this goal.", TaskPriority::High, Some("scope")));
            r.push(make_seed("verify", "Verify ", title, "Run the relevant tests, acceptance checks, and regressions.", TaskPriority::High, Some("implement")));
            r.push(make_seed("rollout", "Roll out ", title, "Handle release notes, rollout steps, and post-ship follow-up.", TaskPriority::Medium, Some("verify")));
        },
        GoalPlanPreset::Investigation => {
            r.push(make_seed("gather", "Gather evidence for ", title, "Collect logs, reports, and existing context before changing code.", TaskPriority::High, None));
            r.push(make_seed("analyze", "Analyze failure modes for ", title, "Reproduce the issue and narrow the plausible root-cause set.", TaskPriority::High, Some("gather")));
            r.push(make_seed("synthesize", "Synthesize findings for ", title, "Summarize the evidence trail, root cause, and important unknowns.", TaskPriority::Medium, Some("analyze")));
            r.push(make_seed("next-steps", "Recommend next steps for ", title, "Translate the investigation into concrete follow-up work.", TaskPriority::Medium, Some("synthesize")));
        },
        GoalPlanPreset::Maintenance => {
            r.push(make_seed("audit", "Audit current state for ", title, "Inspect the existing surface area and identify required maintenance.", TaskPriority::Medium, None));
            r.push(make_seed("apply", "Apply maintenance changes for ", title, "Execute the concrete upkeep work and clean up stale edges.", TaskPriority::High, Some("audit")));
            r.push(make_seed("validate", "Validate maintenance changes for ", title, "Confirm the maintenance work did not introduce regressions.", TaskPriority::High, Some("apply")));
            r.push(make_seed("follow-up", "Close follow-ups for ", title, "Track any leftovers, docs updates, and future cleanup items.", TaskPriority::Low, Some("validate")));
        },
    }
    r
}


/// The slug the plan's templates are named after.
pub open spec fn plan_base_slug(goal: Goal) -> Seq<char> {
    match goal.slug {
        Some(s) => s@,
        None => goal_slug(goal.title@),
    }
}

/// The project of the plan: the request's, else the goal's.
pub open spec fn plan_project(goal: Goal, request: GoalPlanRequest) -> Option<String> {
    or_keep(request.project_id, goal.project_id)
}

/// The root template of a plan: the goal itself as a high-priority template.
pub open spec fn is_plan_root(t: TaskTemplate, goal: Goal, request: GoalPlanRequest, now: String) -> bool {
    &&& t.slug matches Some(sl) && sl@ == plan_base_slug(goal) + "-plan"@
    &&& t.title == goal.title
    &&& t.description == goal.description
    &&& t.priority == TaskPriority::High
    &&& t.list_key == request.list_key
    &&& t.goal_id == Some(goal.id)
    &&& t.parent_template_id is None
    &&& t.owner == request.owner
    &&& t.project_id == plan_project(goal, request)
    &&& t.created_at == now
    &&& t.updated_at == now
    &&& t.blocked_by@.len() == 0
}

/// The template of step `i` of a plan, under the root `root_id`, blocked by
/// the template of the step before (`prev_id`).
pub open spec fn is_plan_step(
    t: TaskTemplate,
    goal: Goal,
    request: GoalPlanRequest,
    now: String,
    i: int,
    root_id: String,
    prev_id: Seq<char>,
) -> bool {
    let (suffix, prefix, description, priority) = plan_step(request.preset, i);
    &&& t.slug matches Some(sl) && sl@ == plan_base_slug(goal) + "-"@ + suffix
    &&& t.title@ == prefix + goal.title@
    &&& t.description matches Some(d) && d@ == description
    &&& t.priority == priority
    &&& t.list_key == request.list_key
    &&& t.goal_id == Some(goal.id)
    &&& t.parent_template_id == Some(root_id)
    &&& t.owner == request.owner
    &&& t.project_id == plan_project(goal, request)
    &&& t.created_at == now
    &&& t.updated_at == now
    &&& texts(t.blocked_by@) == if i == 0 {
        Seq::<Seq<char>>::empty()
    } else {
        seq![prev_id]
    }
}

/// What instantiating a plan asks for.
pub open spec fn plan_instantiation(goal: Goal, request: GoalPlanRequest, root_id: String) -> InstantiateTaskTemplate {
    InstantiateTaskTemplate {
        template_id: root_id,
        list_key: request.list_key,
        goal_id: Some(goal.id),
        parent_task_id: None,
        owner: request.owner,
        project_id: plan_project(goal, request),
    }
}

/// The templates `ts` of a plan, its root first, were added to `before`,
/// giving `mid`.
pub open spec fn plan_templates_added(
    before: WorkStore,
    mid: WorkStore,
    goal: Goal,
    request: GoalPlanRequest,
    now: String,
    ts: Seq<TaskTemplate>,
) -> bool {
    &&& ts.len() == 5
    &&& is_plan_root(ts[0], goal, request, now)
    &&& forall|i: int| 0 <= i < 4 ==> is_plan_step(#[trigger] ts[i + 1], goal, request, now, i, ts[0].id, ts[i].id@)
    &&& mid.templates@ == before.templates@ + ts.map_values(|t: TaskTemplate| t.row())
    &&& forall|k: int| 0 <= k < 5 ==> #[trigger] before.template_at(ts[k].id@) is None
    &&& forall|k: int| 0 <= k < 5 ==> #[trigger] mid.template_deps(ts[k].id@) == texts(ts[k].blocked_by@)
    &&& forall|x: Seq<char>| (forall|k: int| 0 <= k < 5 ==> ts[k].id@ != x) ==> #[trigger] mid.template_deps(x) == before.template_deps(x)
    &&& only_templates_changed(before, mid)
}

/// The template ids are distinct and name no template yet.
pub open spec fn template_ids_fresh(store: WorkStore, ids: Seq<String>) -> bool {
    &&& texts(ids).no_duplicates()
    &&& forall|k: int| 0 <= k < ids.len() ==> store.template_at(#[trigger] ids[k]@) is None
}

/// What planning a goal does with the template ids `ids`, root first: a
/// missing goal, or a taken or repeated template id, is refused with
/// nothing written; otherwise the plan's templates are added (giving `mid`)
/// and, when asked, instantiated, and the plan fails only where that
/// instantiation fails.
pub open spec fn goal_planned(
    before: WorkStore,
    after: WorkStore,
    request: GoalPlanRequest,
    ids: Seq<String>,
    now: String,
    r: Result<GoalPlanResult, WorkError>,
) -> bool {
    match before.goal_at(request.goal_id@) {
        None => r matches Err(e) && e.is_not_found(RecordKind::Goal, request.goal_id@) && after == before,
        Some(gi) => {
            let goal = before.goals@[gi];
            if !template_ids_fresh(before, ids) {
                &&& r matches Err(e) && exists|k: int|
                    0 <= k < ids.len() && #[trigger] e.is_duplicate(RecordKind::TaskTemplate, ids[k]@) && (
                    before.template_at(ids[k]@) is Some || exists|j: int| 0 <= j < k && ids[j]@ == ids[k]@)
                &&& after == before
            } else {
                exists|mid: WorkStore, ts: Seq<TaskTemplate>| #![trigger plan_templates_added(before, mid, goal, request, now, ts)] {
                    &&& plan_templates_added(before, mid, goal, request, now, ts)
                    &&& forall|k: int| 0 <= k < 5 ==> #[trigger] ts[k].id == ids[k]
                    &&& match r {
                        Ok(res) => {
                            &&& res.goal_id == goal.id
                            &&& res.preset == request.preset
                            &&& res.templates@ == ts
                            &&& res.root_template.row() == ts[0].row()
                            &&& res.root_template.blocked_by@ == ts[0].blocked_by@
                            &&& if request.instantiate {
                                res.instantiated matches Some(inst) && instantiation_outcome(
                                    mid,
                                    after,
                                    plan_instantiation(goal, request, ts[0].id),
                                    now,
                                    Ok(inst),
                                )
                            } else {
                                res.instantiated is None && after == mid
                            }
                        },
                        Err(e) => request.instantiate && instantiation_outcome(
                            mid,
                            after,
                            plan_instantiation(goal, request, ts[0].id),
                            now,
                            Err(e),
                        ),
                    }
                }
            }
        },
    }
}

/// The ordered suffixes of each preset are distinct.
proof fn lemma_plan_suffixes_distinct(preset: GoalPlanPreset, i: int, j: int)
    requires
        0 <= i < j < 4,
    ensures
        plan_step(preset, i).0 != plan_step(preset, j).0,
{
    reveal_strlit("scope");
    reveal_strlit("implement");
    reveal_strlit("verify");
    reveal_strlit("rollout");
    reveal_strlit("gather");
    reveal_strlit("analyze");
    reveal_strlit("synthesize");
    reveal_strlit("next-steps");
    reveal_strlit("audit");
    reveal_strlit("apply");
    reveal_strlit("validate");
    reveal_strlit("follow-up");
    let a = plan_step(preset, i).0;
    let b = plan_step(preset, j).0;
    if a == b {
        assert(a.len() == b.len());
        assert(a[0] == b[0]);
        assert(a[1] == b[1]);
    }
}


/// A sequence of at most one item is its own ordering.
proof fn lemma_short_ordering(out: Seq<Seq<char>>, src: Seq<Seq<char>>)
    requires
        crate::order::is_ordering(out, src, crate::order::by_text(src), false),
        src.len() <= 1,
    ensures
        out == src,
{
    crate::order::lemma_ordering_members(out, src, crate::order::by_text(src), false);
    if src.len() == 1 {
        assert(src.contains(out[0]));
        assert(out =~= src);
    } else {
        assert(out =~= src);
    }
}

/// Adding a row with a new id keeps template ids unique.
proof fn lemma_unique_push(store: WorkStore, after: WorkStore, row: crate::store::TemplateRow)
    requires
        store.templates_unique(),
        store.template_at(row.id@) is None,
        after.templates@ == store.templates@.push(row),
    ensures
        after.templates_unique(),
{
    let ids = crate::templates::template_ids(store.templates@);
    crate::text::lemma_first_index_facts(ids, row.id@);
    let ids2 = crate::templates::template_ids(after.templates@);
    assert(ids2 =~= ids.push(row.id@));
    assert forall|a: int, b: int| 0 <= a < b < ids2.len() implies ids2[a] != ids2[b] by {
        if b == ids2.len() - 1 {
            assert(ids2[a] == ids[a]);
        } else {
            assert(ids2[a] == ids[a]);
            assert(ids2[b] == ids[b]);
        }
    }
}

/// The template id recorded for a step suffix, if any.
fn suffix_lookup(pairs: &Vec<(String, String)>, key: &String) -> (r: Option<String>)
    ensures
        match r {
            Some(v) => exists|i: int| 0 <= i < pairs.len() && pairs@[i].0@ == key@ && pairs@[i].1 == v && forall|j: int| 0 <= j < i ==> pairs@[j].0@ != key@,
            None => forall|i: int| 0 <= i < pairs.len() ==> pairs@[i].0@ != key@,
        },
{
    let mut i: usize = 0;
    while i < pairs.len()
        invariant
            i <= pairs.len(),
            forall|j: int| 0 <= j < i ==> pairs@[j].0@ != key@,
        decreases pairs.len() - i,
    {
        if pairs[i].0 == *key {
            return Some(pairs[i].1.clone());
        }
        i += 1;
    }
    None
}

impl WorkStore {
    /// Plans a goal from a preset: a root template for the goal and one
    /// template per step of the preset under it, each step blocked by the one
    /// before; with `instantiate`, the tree also becomes tasks.
    pub fn plan_goal_at(&mut self, request: GoalPlanRequest, template_ids: Vec<String>, now: String) -> (r: Result<GoalPlanResult, WorkError>)
        requires
            old(self).templates_unique(),
            template_ids.len() == 5,
        ensures
            goal_planned(*old(self), *final(self), request, template_ids@, now, r),
    {
        let goal = match self.get_goal(request.goal_id.as_str()) {
            Some(g) => g,
            None => {
                return Err(WorkError::NotFound { kind: RecordKind::Goal, id: request.goal_id });
            },
        };
        let mut c: usize = 0;
        while c < 5
            invariant
                c <= 5,
                template_ids.len() == 5,
                *self == *old(self),
                old(self).goal_at(request.goal_id@) is Some,
                texts(template_ids@.take(c as int)).no_duplicates(),
                forall|x: int| 0 <= x < c ==> self.template_at(#[trigger] template_ids@[x]@) is None,
            decreases 5 - c,
        {
            if self.template_position(template_ids[c].as_str()).is_some() {
                let e = WorkError::DuplicateId { kind: RecordKind::TaskTemplate, id: template_ids[c].clone() };
                assert(e.is_duplicate(RecordKind::TaskTemplate, template_ids@[c as int]@));
                assert(old(self).template_at(template_ids@[c as int]@) is Some);
                return Err(e);
            }
            let mut x: usize = 0;
            while x < c
                invariant
                    x <= c < 5,
                    template_ids.len() == 5,
                    *self == *old(self),
                    old(self).goal_at(request.goal_id@) is Some,
                    forall|y: int| 0 <= y < x ==> template_ids@[y]@ != template_ids@[c as int]@,
                decreases c - x,
            {
                if template_ids[x] == template_ids[c] {
                    let e = WorkError::DuplicateId { kind: RecordKind::TaskTemplate, id: template_ids[c].clone() };
                    assert(e.is_duplicate(RecordKind::TaskTemplate, template_ids@[c as int]@));
                    assert(texts(template_ids@)[x as int] == texts(template_ids@)[c as int]);
                    return Err(e);
                }
                x += 1;
            }
            proof {
                let pre = texts(template_ids@.take(c as int));
                let post = texts(template_ids@.take(c as int + 1));
                assert forall|a: int, b: int| 0 <= a < post.len() && 0 <= b < post.len() && a != b implies post[a] != post[b] by {
                    assert(post[a] == template_ids@[a]@);
                    assert(post[b] == template_ids@[b]@);
                    if a < c && b < c {
                        assert(pre[a] == template_ids@[a]@);
                        assert(pre[b] == template_ids@[b]@);
                    }
                }
            }
            c += 1;
        }
        assert(template_ids@.take(5) =~= template_ids@);
        assert(template_ids_fresh(*old(self), template_ids@));
        let project_id = or_else_keep_plan(crate::text::clone_opt(&request.project_id), crate::text::clone_opt(&goal.project_id));
        let base_slug = match &goal.slug {
            Some(sl) => sl.clone(),
            None => slugify(goal.title.as_str()),
        };
        let mut root_slug = base_slug.clone();
        root_slug.append("-plan");
        let root_request = NewTaskTemplate {
            slug: Some(root_slug),
            title: goal.title.clone(),
            description: crate::text::clone_opt(&goal.description),
            priority: TaskPriority::High,
            list_key: crate::text::clone_opt(&request.list_key),
            goal_id: Some(goal.id.clone()),
            parent_template_id: None,
            owner: crate::text::clone_opt(&request.owner),
            project_id: crate::text::clone_opt(&project_id),
            blocked_by: Vec::new(),
        };
        let ghost rb = root_request.blocked_by@;
        assert(texts(rb) =~= Seq::<Seq<char>>::empty());
        let root = match self.create_task_template_at(root_request, template_ids[0].clone(), now.clone()) {
            Ok(t) => t,
            Err(e) => return Err(e),
        };
        proof {
            lemma_unique_push(*old(self), *self, root.row());
            assert(texts(root.blocked_by@).len() == 0) by {
                crate::order::lemma_ordering_len(texts(root.blocked_by@), texts(rb), crate::order::by_text(texts(rb)), false);
            }
            assert forall|x: Seq<char>| x != root.id@ implies #[trigger] self.template_deps(x) == old(self).template_deps(x) by {
                crate::store::lemma_deps_replaced(old(self).template_dependencies@, root.id, Seq::<String>::empty(), x);
            }
            crate::store::lemma_deps_replaced(old(self).template_dependencies@, root.id, Seq::<String>::empty(), root.id@);
            assert(texts(Seq::<String>::empty()) =~= Seq::<Seq<char>>::empty());
        }
        let seeds = goal_plan_blueprint(&goal, request.preset);
        let mut created: Vec<TaskTemplate> = Vec::new();
        created.push(root.copy_template());
        let mut pairs: Vec<(String, String)> = Vec::new();
        let mut k: usize = 0;
        while k < 4
            invariant
                k <= 4,
                seeds.len() == 4,
                forall|i: int| 0 <= i < 4 ==> is_plan_seed(#[trigger] seeds@[i], request.preset, i, goal.title@),
                old(self).goal_at(request.goal_id@) matches Some(gi) && old(self).goals@[gi] == goal,
                created.len() == k + 1,
                pairs.len() == k,
                forall|i: int| 0 <= i < k ==> (#[trigger] pairs@[i]).0@ == plan_step(request.preset, i).0 && pairs@[i].1 == created@[i + 1].id,
                created@[0].row() == root.row(),
                created@[0].blocked_by@ == root.blocked_by@,
                is_plan_root(root, goal, request, now),
                project_id == plan_project(goal, request),
                base_slug@ == plan_base_slug(goal),
                forall|i: int| 0 <= i < k ==> is_plan_step(#[trigger] created@[i + 1], goal, request, now, i, root.id, created@[i].id@),
                self.templates@ == old(self).templates@ + created@.map_values(|t: TaskTemplate| t.row()),
                forall|c: int| 0 <= c <= k ==> #[trigger] old(self).template_at(created@[c].id@) is None,
                forall|c: int| 0 <= c <= k ==> #[trigger] self.template_deps(created@[c].id@) == texts(created@[c].blocked_by@),
                forall|x: Seq<char>| (forall|c: int| 0 <= c <= k ==> created@[c].id@ != x) ==> #[trigger] self.template_deps(x) == old(self).template_deps(x),
                only_templates_changed(*old(self), *self),
                self.templates_unique(),
                template_ids.len() == 5,
                template_ids_fresh(*old(self), template_ids@),
                forall|c: int| 0 <= c <= k ==> #[trigger] created@[c].id == template_ids@[c],
            decreases 4 - k,
        {
            let seed = &seeds[k];
            assert(is_plan_seed(seeds@[k as int], request.preset, k as int, goal.title@));
            assert(seed.blocked_by_suffixes@.len() == texts(seed.blocked_by_suffixes@).len());
            let mut blocked: Vec<String> = Vec::new();
            let mut b: usize = 0;
            while b < seed.blocked_by_suffixes.len()
                invariant
                    b <= seed.blocked_by_suffixes.len(),
                    seed.blocked_by_suffixes.len() <= 1,
                    k < 4,
                    pairs.len() == k,
                    created.len() == k + 1,
                    seed == seeds@[k as int],
                    is_plan_seed(*seed, request.preset, k as int, goal.title@),
                    forall|i: int| 0 <= i < k ==> (#[trigger] pairs@[i]).0@ == plan_step(request.preset, i).0 && pairs@[i].1 == created@[i + 1].id,
                    texts(blocked@) == if b == 0 { Seq::<Seq<char>>::empty() } else { seq![created@[k as int].id@] },
                decreases seed.blocked_by_suffixes.len() - b,
            {
                proof {
                    assert(k > 0);
                    assert(b == 0);
                    assert(texts(seed.blocked_by_suffixes@) == seq![plan_step(request.preset, k - 1).0]);
                    assert(texts(seed.blocked_by_suffixes@)[b as int] == plan_step(request.preset, k - 1).0);
                    assert forall|j: int| 0 <= j < k - 1 implies pairs@[j].0@ != plan_step(request.preset, k - 1).0 by {
                        lemma_plan_suffixes_distinct(request.preset, j, k - 1);
                    }
                }
                let found = suffix_lookup(&pairs, &seed.blocked_by_suffixes[b]);
                proof {
                    assert(pairs@[k - 1].0@ == seed.blocked_by_suffixes@[b as int]@);
                    if found is Some {
                        let v = found->0;
                        {
                            let i = choose|i: int| 0 <= i < pairs.len() && pairs@[i].0@ == seed.blocked_by_suffixes@[b as int]@ && pairs@[i].1 == v && forall|j: int| 0 <= j < i ==> pairs@[j].0@ != seed.blocked_by_suffixes@[b as int]@;
                            if i < k - 1 {
                                lemma_plan_suffixes_distinct(request.preset, i, k - 1);
                            }
                            assert(i == k - 1);
                        }
                    } else {
                        assert(false);
                    }
                }
                match found {
                    Some(id) => {
                        blocked.push(id);
                    },
                    None => {},
                }
                b += 1;
                assert(texts(blocked@) =~= seq![created@[k as int].id@]);
            }
            let mut slug = base_slug.clone();
            slug.append("-");
            slug.append(seed.slug_suffix.as_str());
            let step_request = NewTaskTemplate {
                slug: Some(slug),
                title: seed.title.clone(),
                description: Some(seed.description.clone()),
                priority: seed.priority,
                list_key: crate::text::clone_opt(&request.list_key),
                goal_id: Some(goal.id.clone()),
                parent_template_id: Some(root.id.clone()),
                owner: crate::text::clone_opt(&request.owner),
                project_id: crate::text::clone_opt(&project_id),
                blocked_by: crate::text::clone_strings(&blocked),
            };
            let ghost before = *self;
            proof {
                let all = crate::templates::template_ids(self.templates@);
                let old_ids = crate::templates::template_ids(old(self).templates@);
                let nid = template_ids@[k as int + 1]@;
                crate::text::lemma_first_index_facts(old_ids, nid);
                assert forall|j: int| 0 <= j < all.len() implies all[j] != nid by {
                    if j < old_ids.len() {
                        assert(all[j] == old_ids[j]);
                    } else {
                        let c = j - old_ids.len();
                        assert(self.templates@[j] == created@[c].row());
                        assert(created@[c].id == template_ids@[c]);
                        assert(texts(template_ids@)[c] != texts(template_ids@)[k + 1]);
                    }
                }
                crate::text::lemma_first_index(all, nid, all.len() as int);
            }
            let template = match self.create_task_template_at(step_request, template_ids[k + 1].clone(), now.clone()) {
                Ok(t) => t,
                Err(e) => return Err(e),
            };
            proof {
                lemma_unique_push(before, *self, template.row());
                lemma_short_ordering(texts(template.blocked_by@), texts(blocked@));
                crate::store::lemma_deps_replaced(before.template_dependencies@, template.id, blocked@, template.id@);
                assert forall|x: Seq<char>| x != template.id@ implies #[trigger] self.template_deps(x) == before.template_deps(x) by {
                    crate::store::lemma_deps_replaced(before.template_dependencies@, template.id, blocked@, x);
                }
            }
            let ghost old_created = created@;
            proof {
                let ids = crate::templates::template_ids(before.templates@);
                crate::text::lemma_first_index_facts(ids, template.id@);
                assert forall|c: int| 0 <= c <= k implies old_created[c].id@ != template.id@ by {
                    assert(before.templates@[old(self).templates.len() + c] == old_created[c].row());
                    assert(ids[old(self).templates.len() + c] == old_created[c].id@);
                }
            }
            pairs.push((seed.slug_suffix.clone(), template.id.clone()));
            created.push(template);
            proof {
                let ids = crate::templates::template_ids(before.templates@);
                let old_ids = crate::templates::template_ids(old(self).templates@);
                assert forall|j: int| 0 <= j < old_ids.len() implies old_ids[j] != template.id@ by {
                    assert(ids[j] == old_ids[j]);
                }
                crate::text::lemma_first_index(old_ids, template.id@, old_ids.len() as int);
                assert forall|c: int| 0 <= c <= k + 1 implies #[trigger] old(self).template_at(created@[c].id@) is None by {
                    if c <= k {
                        assert(created@[c] == old_created[c]);
                    }
                }
                assert forall|c: int| 0 <= c <= k + 1 implies #[trigger] self.template_deps(created@[c].id@) == texts(created@[c].blocked_by@) by {
                    if c <= k {
                        assert(created@[c] == old_created[c]);
                    }
                }
                assert(self.templates@ =~= old(self).templates@ + created@.map_values(|t: TaskTemplate| t.row()));
                assert forall|x: Seq<char>| (forall|c: int| 0 <= c <= k + 1 ==> created@[c].id@ != x) implies #[trigger] self.template_deps(x) == old(self).template_deps(x) by {
                    assert(created@[k + 1].id@ != x);
                    assert forall|c: int| 0 <= c <= k implies old_created[c].id@ != x by {
                        assert(created@[c] == old_created[c]);
                    }
                }
            }
            k += 1;
        }
        let templates = created;
        let ghost mid = *self;
        let ghost res_templates = templates@;
        assert(plan_templates_added(*old(self), mid, goal, request, now, res_templates));
        let instantiated = if request.instantiate {
            let params = InstantiateTaskTemplate {
                template_id: root.id.clone(),
                list_key: crate::text::clone_opt(&request.list_key),
                goal_id: Some(goal.id.clone()),
                parent_task_id: None,
                owner: crate::text::clone_opt(&request.owner),
                project_id,
            };
            match self.instantiate_task_template_at(params, now) {
                Ok(res) => Some(res),
                Err(e) => return Err(e),
            }
        } else {
            None
        };
        let res = GoalPlanResult { goal_id: goal.id, preset: request.preset, root_template: root, templates, instantiated };
        Ok(res)
    }
}

fn or_else_keep_plan(first: Option<String>, second: Option<String>) -> (r: Option<String>)
    ensures
        r == or_keep(first, second),
{
    crate::text::or_else_keep(first, second)
}

impl TaskTemplate {
    /// A copy with the same row and dependencies.
    pub fn copy_template(&self) -> (r: TaskTemplate)
        ensures
            r.row() == self.row(),
            r.blocked_by@ == self.blocked_by@,
    {
        TaskTemplate {
            id: self.id.clone(),
            slug: crate::text::clone_opt(&self.slug),
            title: self.title.clone(),
            description: crate::text::clone_opt(&self.description),
            priority: self.priority,
            list_key: crate::text::clone_opt(&self.list_key),
            goal_id: crate::text::clone_opt(&self.goal_id),
            parent_template_id: crate::text::clone_opt(&self.parent_template_id),
            owner: crate::text::clone_opt(&self.owner),
            project_id: crate::text::clone_opt(&self.project_id),
            created_at: self.created_at.clone(),
            updated_at: self.updated_at.clone(),
            blocked_by: crate::text::clone_strings(&self.blocked_by),
        }
    }
}

} // verus!
