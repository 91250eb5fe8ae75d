//! Properties of the work graph that span operations.

use vstd::prelude::*;

use crate::budget::override_of;
use crate::overview::{opt_text_lt, status_is, task_in};
use crate::budget::opt_view;
use crate::records::{BudgetStatus, ProjectWorkSummary, ExternalTaskLink, NewTask, Task, TaskApproval, TaskPatch, TrackerImportRequest};
use crate::tracker::link_keys;
use crate::store::{
    claim_patch, deps_replaced, lemma_deps_replaced, lemma_filter_step, new_task_row, patched_task_row, task_ids,
    TaskRow, WorkStore,
};
use crate::portability::{imported_task_row, dashed, package_slug_spec, after_open, frontmatter_close, frontmatter_open, markdown_spec, occurs_at, opens_frontmatter};
use crate::text::{first_at, lemma_first_at, strip_leading, strip_trailing, is_space, lemma_first_index, lemma_first_index_facts, texts, trim, trim_end, trim_start};
use crate::types::{ApprovalStatus, TaskStatus};
use crate::goals::imported_goal;
use crate::package_import::{
    budgets_differ_in_update_times, entry_scopes, goal_record_ids, goals_differ_in_update_times, lemma_budgets_hold_entries,
    lemma_budgets_reimport, lemma_goals_hold_records, lemma_goals_reimport, lemma_tasks_hold_records, lemma_tasks_reimport,
    package_imported, task_record_ids, tasks_differ_in_update_times, GoalRecord, PackageImportCounts, TaskRecord,
};
use crate::store::dep_targets;
use crate::budget::budget_enforced;
use crate::records::BudgetCheck;
use crate::order::is_ordering;
use crate::budget::{budget_filter, budget_key, budget_saved, budget_scopes};
use crate::records::{NewWorkBudget, WorkBudget};
use crate::tracker::tracker_imported;
use crate::records::TrackerImportResult;
use crate::error::WorkError;
use crate::records::Goal;
use crate::budget::{budget_status_spec, counts_against, statuses_of, token_sum, UsdTally};
use crate::records::{RecurringTask, TaskCostAttribution, TaskRun};
use crate::recurring::{due_keys, is_due};
use crate::tracker::remote_status;
use crate::text::lower_ascii;
use crate::overview::{dashboard_run, in_project, run_keys};
use crate::types::{BudgetScope, RunStatus};

verus! {

/// A task that was just created is what a read of its id gives back: the
/// row the request describes, with exactly the requested dependencies.
pub proof fn law_created_task_is_read_back(before: WorkStore, after: WorkStore, task: NewTask, id: String, now: String)
    requires
        before.task_at(id@) is None,
        after.tasks@ == before.tasks@.push(new_task_row(task, id, now)),
        after.task_dependencies@ == deps_replaced(before.task_dependencies@, id, task.blocked_by@),
    ensures
        after.task_at(id@) == Some(before.tasks@.len() as int),
        after.tasks@[before.tasks@.len() as int] == new_task_row(task, id, now),
        after.task_deps(id@) == texts(task.blocked_by@),
{
    let n = before.tasks@.len() as int;
    lemma_first_index_facts(task_ids(before.tasks@), id@);
    assert forall|j: int| 0 <= j < n implies task_ids(after.tasks@)[j] != id@ by {
        assert(task_ids(after.tasks@)[j] == task_ids(before.tasks@)[j]);
    }
    assert(task_ids(after.tasks@)[n] == id@);
    lemma_first_index(task_ids(after.tasks@), id@, n);
    lemma_deps_replaced(before.task_dependencies@, id, task.blocked_by@, id@);
}

/// The patch that changes nothing.
pub open spec fn empty_task_patch() -> TaskPatch {
    TaskPatch {
        list_key: None,
        title: None,
        description: None,
        status: None,
        priority: None,
        goal_id: None,
        parent_task_id: None,
        owner: None,
        project_id: None,
        session_key: None,
        blocked_by: None,
    }
}

/// A task whose claim time agrees with its status: a task in progress for a
/// session has one, a completed or cancelled task has none.
pub open spec fn claim_consistent(row: TaskRow) -> bool {
    &&& (row.status == TaskStatus::InProgress && row.session_key is Some ==> row.claimed_at is Some)
    &&& (row.status == TaskStatus::Completed || row.status == TaskStatus::Cancelled ==> row.claimed_at is None)
}

/// An update that changes no field leaves a task as it was, but for its
/// update time.
pub proof fn law_empty_patch_keeps_task(row: TaskRow, now: String)
    requires
        claim_consistent(row),
    ensures
        patched_task_row(row, empty_task_patch(), now) == (TaskRow { updated_at: now, ..row }),
{
}

/// A claim puts the task in progress, bound to the claiming session and to
/// the named owner (or its previous one), with a claim time.
pub proof fn law_claim_binds_session(row: TaskRow, owner: Option<String>, session_key: String, now: String)
    ensures
        ({
            let claimed = patched_task_row(row, claim_patch(owner, Some(session_key)), now);
            &&& claimed.status == TaskStatus::InProgress
            &&& claimed.session_key == Some(session_key)
            &&& claimed.owner == (if owner is Some { owner } else { row.owner })
            &&& claimed.claimed_at is Some
            &&& claimed.id == row.id && claimed.created_at == row.created_at
        }),
{
}

/// Once a task waits on a new override request, the next budget check finds
/// that request pending, so it does not ask again.
pub proof fn law_override_request_is_found(before: Seq<TaskApproval>, request: TaskApproval, task_id: Seq<char>)
    requires
        request.task_id matches Some(t) && t@ == task_id,
        request.kind@ == "budget_override"@,
        request.status == ApprovalStatus::Pending,
    ensures
        before.push(request).filter(override_of(task_id, ApprovalStatus::Pending)).len() > 0,
{
    let after = before.push(request);
    lemma_filter_step(after, override_of(task_id, ApprovalStatus::Pending), before.len() as int);
    assert(after.take(before.len() as int + 1) =~= after);
}

/// Splitting tasks by status loses none and counts none twice: the five
/// parts together are as many as the tasks.
pub proof fn law_status_parts_cover(all: Seq<Task>)
    ensures
        all.filter(status_is(TaskStatus::Pending)).len() + all.filter(status_is(TaskStatus::InProgress)).len()
            + all.filter(status_is(TaskStatus::Blocked)).len() + all.filter(status_is(TaskStatus::Completed)).len()
            + all.filter(status_is(TaskStatus::Cancelled)).len() == all.len(),
    decreases all.len(),
{
    reveal(Seq::filter);
    if all.len() > 0 {
        law_status_parts_cover(all.drop_last());
    }
}


proof fn lemma_trim_start_push(s: Seq<char>, c: char)
    ensures
        trim_start(s.push(c)) == (if trim_start(s).len() == 0 && is_space(c) {
            Seq::<char>::empty()
        } else {
            trim_start(s).push(c)
        }),
    decreases s.len(),
{
    if s.len() == 0 {
        assert(s.push(c)[0] == c);
        assert(s.push(c).drop_first() =~= Seq::<char>::empty());
        assert(trim_start(Seq::<char>::empty()) == Seq::<char>::empty());
        assert(s =~= Seq::<char>::empty());
    } else if is_space(s[0]) {
        assert(s.push(c).drop_first() =~= s.drop_first().push(c));
        assert(s.push(c)[0] == s[0]);
        lemma_trim_start_push(s.drop_first(), c);
    } else {
        assert(s.push(c)[0] == s[0]);
    }
}

proof fn lemma_trim_end_push_space(s: Seq<char>, c: char)
    requires
        is_space(c),
    ensures
        trim_end(s.push(c)) == trim_end(s),
{
    assert(s.push(c).drop_last() =~= s);
}

/// A trailing white-space character does not change a trimmed text.
proof fn lemma_trim_push_space(s: Seq<char>, c: char)
    requires
        is_space(c),
    ensures
        trim(s.push(c)) == trim(s),
{
    lemma_trim_start_push(s, c);
    if trim_start(s).len() > 0 {
        lemma_trim_end_push_space(trim_start(s), c);
    }
}

proof fn lemma_trim_start_first(s: Seq<char>)
    ensures
        trim_start(s).len() > 0 ==> !is_space(trim_start(s)[0]),
        trim_start(s).len() <= s.len(),
        trim_start(s) == s.skip(s.len() - trim_start(s).len()),
    decreases s.len(),
{
    if s.len() > 0 && is_space(s[0]) {
        lemma_trim_start_first(s.drop_first());
        assert(s.drop_first().skip(s.drop_first().len() - trim_start(s.drop_first()).len()) =~= s.skip(
            s.len() - trim_start(s).len(),
        ));
    } else {
        assert(s.skip(0) =~= s);
    }
}

proof fn lemma_trim_end_last(s: Seq<char>)
    ensures
        trim_end(s).len() > 0 ==> !is_space(trim_end(s).last()),
        trim_end(s) == s.take(trim_end(s).len() as int),
        trim_end(s).len() <= s.len(),
    decreases s.len(),
{
    if s.len() > 0 && is_space(s.last()) {
        lemma_trim_end_last(s.drop_last());
        assert(s.drop_last().take(trim_end(s.drop_last()).len() as int) =~= s.take(trim_end(s).len() as int));
    } else {
        assert(s.take(s.len() as int) =~= s);
    }
}

/// A trimmed text neither starts nor ends with white space.
proof fn lemma_trim_ends(s: Seq<char>)
    ensures
        trim(s).len() > 0 ==> !is_space(trim(s)[0]) && !is_space(trim(s).last()),
{
    lemma_trim_start_first(s);
    lemma_trim_end_last(trim_start(s));
    if trim(s).len() > 0 {
        assert(trim(s)[0] == trim_start(s)[0]);
    }
}

/// A text that neither starts nor ends with white space is its own trim,
/// also when wrapped in newlines.
proof fn lemma_trim_wrapped(b: Seq<char>)
    requires
        b.len() > 0,
        !is_space(b[0]),
        !is_space(b.last()),
    ensures
        trim(seq!['\n'] + b + seq!['\n']) == b,
{
    let w = seq!['\n'] + b + seq!['\n'];
    assert(w.drop_first() =~= b.push('\n'));
    assert(trim_start(b.push('\n')) == b.push('\n'));
    assert(trim_start(w) == b.push('\n'));
    lemma_trim_end_push_space(b, '\n');
}

/// Splitting a framed markdown file gives back the frontmatter and body
/// that were framed, each trimmed, when the frontmatter (as a serializer
/// writes it) ends with a newline and holds no closing line of its own.
pub proof fn law_frontmatter_round_trip(fm: Seq<char>, body: Option<Seq<char>>)
    requires
        fm.len() > 0,
        fm.last() == '\n',
        forall|p: int| 0 <= p < fm.len() - 1 ==> !occurs_at(fm + "---\n"@, frontmatter_close(), p),
    ensures
        opens_frontmatter(markdown_spec(fm, body)),
        occurs_at(after_open(markdown_spec(fm, body)), frontmatter_close(), fm.len() - 1),
        forall|q: int| 0 <= q < fm.len() - 1 ==> !occurs_at(after_open(markdown_spec(fm, body)), frontmatter_close(), q),
        trim(after_open(markdown_spec(fm, body)).take(fm.len() - 1)) == trim(fm),
        trim(after_open(markdown_spec(fm, body)).skip(fm.len() as int + 4)) == match body {
            Some(b) => trim(b),
            None => Seq::<char>::empty(),
        },
{
    reveal_strlit("---\n");
    reveal_strlit("---\n\n");
    reveal_strlit("\n");
    reveal_strlit("\n---\n");
    let md = markdown_spec(fm, body);
    let b = match body {
        Some(x) => trim(x),
        None => Seq::<char>::empty(),
    };
    let tail = if b.len() == 0 {
        Seq::<char>::empty()
    } else {
        seq!['\n'] + b + seq!['\n']
    };
    let head = fm + "---\n"@;
    assert(md =~= "---\n"@ + head + tail);
    assert(md[0] == '-');
    assert(trim_start(md) == md);
    assert(md.take(4) =~= frontmatter_open());
    assert(after_open(md) =~= head + tail);
    let n = fm.len() as int;
    assert(after_open(md).subrange(n - 1, n + 4) =~= frontmatter_close());
    assert forall|q: int| 0 <= q < n - 1 implies !occurs_at(after_open(md), frontmatter_close(), q) by {
        assert(after_open(md).subrange(q, q + 5) =~= head.subrange(q, q + 5));
        assert(!occurs_at(head, frontmatter_close(), q));
    }
    assert(after_open(md).take(n - 1) =~= fm.drop_last());
    assert(fm =~= fm.drop_last().push('\n'));
    lemma_trim_push_space(fm.drop_last(), '\n');
    assert(after_open(md).skip(n + 4) =~= tail);
    if b.len() > 0 {
        match body {
            Some(x) => lemma_trim_ends(x),
            None => {},
        }
        lemma_trim_wrapped(b);
    }
}


/// A character a slug may hold: a lowercase ASCII letter, a digit or a dash.
pub open spec fn slug_char(c: char) -> bool {
    ('a' <= c && c <= 'z') || ('0' <= c && c <= '9') || c == '-'
}

proof fn lemma_strip_leading(s: Seq<char>, c: char)
    ensures
        strip_leading(s, c).len() <= s.len(),
        strip_leading(s, c) == s.skip(s.len() - strip_leading(s, c).len()),
        strip_leading(s, c).len() > 0 ==> strip_leading(s, c)[0] != c,
    decreases s.len(),
{
    if s.len() > 0 && s[0] == c {
        lemma_strip_leading(s.drop_first(), c);
        assert(s.drop_first().skip(s.drop_first().len() - strip_leading(s.drop_first(), c).len()) =~= s.skip(
            s.len() - strip_leading(s, c).len(),
        ));
    } else {
        assert(s.skip(0) =~= s);
    }
}

proof fn lemma_strip_trailing(s: Seq<char>, c: char)
    ensures
        strip_trailing(s, c).len() <= s.len(),
        strip_trailing(s, c) == s.take(strip_trailing(s, c).len() as int),
        strip_trailing(s, c).len() > 0 ==> strip_trailing(s, c).last() != c,
    decreases s.len(),
{
    if s.len() > 0 && s.last() == c {
        lemma_strip_trailing(s.drop_last(), c);
        assert(s.drop_last().take(strip_trailing(s.drop_last(), c).len() as int) =~= s.take(
            strip_trailing(s, c).len() as int,
        ));
    } else {
        assert(s.take(s.len() as int) =~= s);
    }
}

proof fn lemma_dashed_chars(s: Seq<char>)
    ensures
        forall|i: int| 0 <= i < dashed(s).len() ==> slug_char(#[trigger] dashed(s)[i]),
{
    assert forall|i: int| 0 <= i < dashed(s).len() implies slug_char(#[trigger] dashed(s)[i]) by {
        let c = s[i];
        if 'A' <= c && c <= 'Z' {
            let u = (c as u32) + 32;
            assert(97 <= u <= 122) by {
                vstd::utf8::char_u32_cast(c, c as u32);
            }
        }
    }
}

/// A package file slug is never empty, holds only lowercase letters, digits
/// and dashes, and neither starts nor ends with a dash.
pub proof fn law_package_slug_shape(s: Seq<char>)
    ensures
        package_slug_spec(s).len() > 0,
        package_slug_spec(s)[0] != '-',
        package_slug_spec(s).last() != '-',
        forall|i: int| 0 <= i < package_slug_spec(s).len() ==> slug_char(#[trigger] package_slug_spec(s)[i]),
{
    reveal_strlit("item");
    let d = dashed(s);
    let a = strip_leading(d, '-');
    let t = strip_trailing(a, '-');
    lemma_dashed_chars(s);
    lemma_strip_leading(d, '-');
    lemma_strip_trailing(a, '-');
    if t.len() > 0 {
        assert(t[0] == a[0]);
        assert forall|i: int| 0 <= i < t.len() implies slug_char(#[trigger] t[i]) by {
            assert(t[i] == a[i]);
            assert(a[i] == d[i + (d.len() - a.len())]);
        }
    }
}


proof fn lemma_first_at_facts<T>(s: Seq<T>, k: T)
    ensures
        first_at(s, k) matches Some(i) ==> 0 <= i < s.len() && s[i] == k && forall|j: int| 0 <= j < i ==> s[j] != k,
        first_at(s, k) is None ==> forall|j: int| 0 <= j < s.len() ==> s[j] != k,
    decreases s.len(),
{
    if s.len() > 0 {
        lemma_first_at_facts(s.drop_first(), k);
        assert forall|j: int| 1 <= j < s.len() implies s[j] == s.drop_first()[j - 1] by {}
    }
}

/// After an import, the tracker record's link is found again and names the
/// task the import wrote, so a later import of the same record, without a
/// task id, goes to that task.
pub proof fn law_tracker_record_stays_linked(
    before: WorkStore,
    after: WorkStore,
    request: TrackerImportRequest,
    task_id: String,
    link: ExternalTaskLink,
)
    requires
        link.provider == request.provider,
        link.remote_id == request.remote_id,
        link.task_id == task_id,
        match before.record_link_at(request.provider@, request.remote_id@) {
            Some(j) => after.links@ == before.links@.update(j, link),
            None => after.links@ == before.links@.push(link),
        },
    ensures
        after.record_link_at(request.provider@, request.remote_id@) matches Some(j) && after.links@[j].task_id
            == task_id,
        request.task_id is None ==> after.tracker_task_id(request) == Some(task_id@),
{
    let k = (request.provider@, request.remote_id@);
    let kb = link_keys(before.links@);
    let ka = link_keys(after.links@);
    lemma_first_at_facts(kb, k);
    match before.record_link_at(request.provider@, request.remote_id@) {
        Some(j) => {
            assert forall|i: int| 0 <= i < j implies ka[i] != k by {
                assert(ka[i] == kb[i]);
            }
            assert(ka[j] == k);
            lemma_first_at(ka, k, j);
        },
        None => {
            let n = before.links@.len() as int;
            assert forall|i: int| 0 <= i < n implies ka[i] != k by {
                assert(ka[i] == kb[i]);
            }
            assert(ka[n] == k);
            lemma_first_at(ka, k, n);
        },
    }
}


/// Creating a task keeps task ids unique: the store refuses an id it
/// already holds, so a table without repeated ids never gets one.
pub proof fn law_task_ids_stay_unique(before: WorkStore, after: WorkStore, task: NewTask, id: String, now: String)
    requires
        task_ids(before.tasks@).no_duplicates(),
        before.task_at(id@) is None,
        after.tasks@ == before.tasks@.push(new_task_row(task, id, now)),
    ensures
        task_ids(after.tasks@).no_duplicates(),
{
    let n = before.tasks@.len() as int;
    lemma_first_index_facts(task_ids(before.tasks@), id@);
    assert forall|i: int, j: int|
        0 <= i < task_ids(after.tasks@).len() && 0 <= j < task_ids(after.tasks@).len() && i != j implies task_ids(
        after.tasks@,
    )[i] != task_ids(after.tasks@)[j] by {
        if i < n && j < n {
            assert(task_ids(after.tasks@)[i] == task_ids(before.tasks@)[i]);
            assert(task_ids(after.tasks@)[j] == task_ids(before.tasks@)[j]);
        } else if i < n {
            assert(task_ids(after.tasks@)[i] == task_ids(before.tasks@)[i]);
        } else {
            assert(task_ids(after.tasks@)[j] == task_ids(before.tasks@)[j]);
        }
    }
}


/// Tasks of a project, whatever their status.
pub open spec fn of_project(k: Option<Seq<char>>) -> spec_fn(TaskRow) -> bool {
    |t: TaskRow| opt_view(t.project_id) == k
}

/// The tasks a summary counts, over all statuses.
pub open spec fn summary_tasks(s: ProjectWorkSummary) -> int {
    s.task_counts.pending + s.task_counts.in_progress + s.task_counts.blocked + s.task_counts.completed
        + s.task_counts.cancelled
}

/// The tasks the summaries count, together.
pub open spec fn summaries_tasks(ps: Seq<ProjectWorkSummary>) -> int
    decreases ps.len(),
{
    if ps.len() == 0 {
        0
    } else {
        summaries_tasks(ps.drop_last()) + summary_tasks(ps.last())
    }
}

/// The tasks of each of the projects `ks`, together.
pub open spec fn tasks_of_projects(t: Seq<TaskRow>, ks: Seq<Option<Seq<char>>>) -> int
    decreases ks.len(),
{
    if ks.len() == 0 {
        0
    } else {
        tasks_of_projects(t, ks.drop_last()) + t.filter(of_project(ks.last())).len()
    }
}

/// How many of the projects `ks` are `k`.
pub open spec fn times_listed(ks: Seq<Option<Seq<char>>>, k: Option<Seq<char>>) -> int
    decreases ks.len(),
{
    if ks.len() == 0 {
        0
    } else {
        times_listed(ks.drop_last(), k) + if ks.last() == k {
            1int
        } else {
            0int
        }
    }
}

proof fn lemma_status_split(t: Seq<TaskRow>, k: Option<Seq<char>>)
    ensures
        t.filter(task_in(k, TaskStatus::Pending)).len() + t.filter(task_in(k, TaskStatus::InProgress)).len() + t.filter(
            task_in(k, TaskStatus::Blocked),
        ).len() + t.filter(task_in(k, TaskStatus::Completed)).len() + t.filter(task_in(k, TaskStatus::Cancelled)).len()
            == t.filter(of_project(k)).len(),
    decreases t.len(),
{
    reveal(Seq::filter);
    if t.len() > 0 {
        lemma_status_split(t.drop_last(), k);
    }
}

proof fn lemma_tasks_of_projects_step(t: Seq<TaskRow>, x: TaskRow, ks: Seq<Option<Seq<char>>>)
    ensures
        tasks_of_projects(t.push(x), ks) == tasks_of_projects(t, ks) + times_listed(ks, opt_view(x.project_id)),
    decreases ks.len(),
{
    if ks.len() > 0 {
        lemma_tasks_of_projects_step(t, x, ks.drop_last());
        reveal(Seq::filter);
        assert(t.push(x).drop_last() =~= t);
    }
}

proof fn lemma_listed_once(ks: Seq<Option<Seq<char>>>, k: Option<Seq<char>>)
    requires
        ks.no_duplicates(),
        ks.contains(k),
    ensures
        times_listed(ks, k) == 1,
    decreases ks.len(),
{
    if ks.last() == k {
        lemma_listed_never(ks.drop_last(), k);
    } else {
        let j = choose|j: int| 0 <= j < ks.len() && ks[j] == k;
        assert(ks.drop_last()[j] == k);
        lemma_listed_once(ks.drop_last(), k);
    }
}

proof fn lemma_listed_never(ks: Seq<Option<Seq<char>>>, k: Option<Seq<char>>)
    requires
        ks.len() > 0 ==> forall|j: int| 0 <= j < ks.len() ==> ks[j] != k,
    ensures
        times_listed(ks, k) == 0,
    decreases ks.len(),
{
    if ks.len() > 0 {
        lemma_listed_never(ks.drop_last(), k);
    }
}

proof fn lemma_projects_cover_tasks(t: Seq<TaskRow>, ks: Seq<Option<Seq<char>>>)
    requires
        ks.no_duplicates(),
        forall|i: int| 0 <= i < t.len() ==> ks.contains(opt_view((#[trigger] t[i]).project_id)),
    ensures
        tasks_of_projects(t, ks) == t.len(),
    decreases t.len(),
{
    if t.len() == 0 {
        lemma_tasks_of_empty(t, ks);
    } else {
        let rest = t.drop_last();
        assert forall|i: int| 0 <= i < rest.len() implies ks.contains(opt_view((#[trigger] rest[i]).project_id)) by {
            assert(rest[i] == t[i]);
        }
        lemma_projects_cover_tasks(rest, ks);
        lemma_tasks_of_projects_step(rest, t.last(), ks);
        assert(rest.push(t.last()) =~= t);
        assert(ks.contains(opt_view(t[t.len() - 1].project_id)));
        lemma_listed_once(ks, opt_view(t.last().project_id));
    }
}

proof fn lemma_tasks_of_empty(t: Seq<TaskRow>, ks: Seq<Option<Seq<char>>>)
    requires
        t.len() == 0,
    ensures
        tasks_of_projects(t, ks) == 0,
    decreases ks.len(),
{
    reveal(Seq::filter);
    if ks.len() > 0 {
        lemma_tasks_of_empty(t, ks.drop_last());
    }
}

proof fn lemma_summaries_count_projects(store: WorkStore, ps: Seq<ProjectWorkSummary>, statuses: Seq<BudgetStatus>)
    requires
        forall|i: int| 0 <= i < ps.len() ==> store.summary_matches(#[trigger] ps[i], statuses),
    ensures
        summaries_tasks(ps) == tasks_of_projects(
            store.tasks@,
            ps.map_values(|p: ProjectWorkSummary| opt_view(p.project_id)),
        ),
    decreases ps.len(),
{
    let ks = ps.map_values(|p: ProjectWorkSummary| opt_view(p.project_id));
    if ps.len() > 0 {
        let rest = ps.drop_last();
        assert forall|i: int| 0 <= i < rest.len() implies store.summary_matches(#[trigger] rest[i], statuses) by {
            assert(rest[i] == ps[i]);
        }
        lemma_summaries_count_projects(store, rest, statuses);
        assert(rest.map_values(|p: ProjectWorkSummary| opt_view(p.project_id)) =~= ks.drop_last());
        assert(store.summary_matches(ps[ps.len() - 1], statuses));
        lemma_status_split(store.tasks@, opt_view(ps.last().project_id));
    }
}

/// The portfolio counts every task once: its project summaries, together,
/// count as many tasks as the store holds.
pub proof fn law_portfolio_counts_every_task(store: WorkStore, ps: Seq<ProjectWorkSummary>, statuses: Seq<BudgetStatus>)
    requires
        store.projects_listed(ps, statuses),
    ensures
        summaries_tasks(ps) == store.tasks@.len(),
{
    let ks = ps.map_values(|p: ProjectWorkSummary| opt_view(p.project_id));
    lemma_summaries_count_projects(store, ps, statuses);
    assert forall|i: int, j: int| 0 <= i < ks.len() && 0 <= j < ks.len() && i != j implies ks[i] != ks[j] by {
        if i < j {
            assert(opt_text_lt(opt_view(ps[i].project_id), opt_view(ps[j].project_id)));
            lemma_opt_text_lt_irrefl(ks[i]);
        } else {
            assert(opt_text_lt(opt_view(ps[j].project_id), opt_view(ps[i].project_id)));
            lemma_opt_text_lt_irrefl(ks[j]);
        }
    }
    assert forall|i: int| 0 <= i < store.tasks@.len() implies ks.contains(opt_view((#[trigger] store.tasks@[i]).project_id)) by {
        let k = opt_view(store.tasks@[i].project_id);
        assert(store.has_activity(k, statuses));
        let a = choose|a: int| 0 <= a < ps.len() && opt_view((#[trigger] ps[a]).project_id) == k;
        assert(ks[a] == k);
    }
    lemma_projects_cover_tasks(store.tasks@, ks);
}

proof fn lemma_opt_text_lt_irrefl(a: Option<Seq<char>>)
    ensures
        !opt_text_lt(a, a),
{
    if let Some(x) = a {
        crate::order::lemma_text_lt_asym(x, x);
    }
}


/// A task exported to a package and imported into a store that lacks it
/// comes back with every exported field; only its session and claim, which
/// a package does not carry, are dropped, and it is new as of the import.
pub proof fn law_imported_task_matches_export(t: TaskRow, now: String)
    ensures
        imported_task_row(
            None,
            t.id,
            t.list_key,
            t.title,
            t.description,
            t.status,
            t.priority,
            t.goal_id,
            t.parent_task_id,
            t.owner,
            t.project_id,
            now,
        ) == (TaskRow { session_key: None, claimed_at: None, created_at: now, updated_at: now, ..t }),
{
}

/// Importing the same task record a second time changes nothing but the
/// task's update time.
pub proof fn law_task_reimport_changes_only_update_time(prev: Option<TaskRow>, t: TaskRow, first: String, second: String)
    ensures
        ({
            let once = imported_task_row(prev, t.id, t.list_key, t.title, t.description, t.status, t.priority, t.goal_id, t.parent_task_id, t.owner, t.project_id, first);
            imported_task_row(Some(once), t.id, t.list_key, t.title, t.description, t.status, t.priority, t.goal_id, t.parent_task_id, t.owner, t.project_id, second)
                == TaskRow { updated_at: second, ..once }
        }),
{
}

/// Importing the same goal record a second time changes nothing but the
/// goal's update time.
pub proof fn law_goal_reimport_changes_only_update_time(prev: Option<Goal>, g: Goal, first: String, second: String)
    ensures
        ({
            let once = imported_goal(prev, g.id, g.slug, g.title, g.description, g.status, g.project_id, g.parent_goal_id, first);
            imported_goal(Some(once), g.id, g.slug, g.title, g.description, g.status, g.project_id, g.parent_goal_id, second)
                == Goal { updated_at: second, ..once }
        }),
{
}

/// Re-importing a record that is already linked to an existing task
/// succeeds whatever ids were drawn, and adds neither a task nor a link.
pub proof fn law_linked_reimport_adds_nothing(
    before: WorkStore,
    after: WorkStore,
    request: TrackerImportRequest,
    task_id: String,
    link_id: String,
    now: String,
    r: Result<TrackerImportResult, WorkError>,
)
    requires
        tracker_imported(before, after, request, task_id, link_id, now, r),
        request.task_id is None,
        before.record_link_at(request.provider@, request.remote_id@) matches Some(j)
            && before.task_at(before.links@[j].task_id@) is Some,
    ensures
        r is Ok,
        !r->Ok_0.created_task,
        after.tasks@.len() == before.tasks@.len(),
        after.links@.len() == before.links@.len(),
{
    let j = before.record_link_at(request.provider@, request.remote_id@)->0;
    let tid = before.links@[j].task_id@;
    assert(before.tracker_task_id(request) == Some(tid));
    crate::text::lemma_first_at_facts(link_keys(before.links@), (request.provider@, request.remote_id@));
    lemma_first_index_facts(crate::store::task_ids(before.tasks@), tid);
}

/// After a tracker record is imported into a store where each record has
/// at most one link, the record has exactly one link: the imported one,
/// pointing at the imported task, under the old link's id and creation
/// time when there was one.
pub proof fn law_imported_record_has_one_link(
    before: WorkStore,
    after: WorkStore,
    request: TrackerImportRequest,
    task_id: String,
    link_id: String,
    now: String,
    r: Result<TrackerImportResult, WorkError>,
)
    requires
        before.links_one_per_record(),
        tracker_imported(before, after, request, task_id, link_id, now, r),
        r is Ok,
    ensures
        after.links_one_per_record(),
        after.record_link_at(request.provider@, request.remote_id@) matches Some(j) && after.links@[j] == r->Ok_0.link,
        forall|x: int|
            0 <= x < after.links@.len() && #[trigger] link_keys(after.links@)[x] == (request.provider@, request.remote_id@)
                ==> after.links@[x] == r->Ok_0.link,
        r->Ok_0.link.task_id == r->Ok_0.task.id,
        before.record_link_at(request.provider@, request.remote_id@) matches Some(j0) ==> r->Ok_0.link.id == before.links@[j0].id
            && r->Ok_0.link.created_at == before.links@[j0].created_at,
{
    let key = (request.provider@, request.remote_id@);
    let res = r->Ok_0;
    let bk = link_keys(before.links@);
    let ak = link_keys(after.links@);
    crate::text::lemma_first_at_facts(bk, key);
    match before.record_link_at(request.provider@, request.remote_id@) {
        Some(j0) => {
            assert(after.links@ == before.links@.update(j0, res.link));
            assert(ak =~= bk);
            assert forall|x: int| 0 <= x < after.links@.len() && #[trigger] ak[x] == key implies after.links@[x] == res.link by {
                if x != j0 {
                    assert(bk[x] == bk[j0]);
                }
            }
            assert forall|x: int| 0 <= x < j0 implies ak[x] != key by {
                assert(bk[x] != bk[j0]);
            }
            lemma_first_at(ak, key, j0);
        },
        None => {
            assert(after.links@ == before.links@.push(res.link));
            assert(ak =~= bk.push(key));
            assert forall|x: int, y: int| 0 <= x < ak.len() && 0 <= y < ak.len() && x != y implies ak[x] != ak[y] by {
                if x < bk.len() && y < bk.len() {
                } else if x < bk.len() {
                    assert(bk[x] != key);
                } else {
                    assert(bk[y] != key);
                }
            }
            assert forall|x: int| 0 <= x < after.links@.len() && #[trigger] ak[x] == key implies after.links@[x] == res.link by {
                if x < bk.len() {
                    assert(bk[x] == ak[x]);
                }
            }
            lemma_first_at(ak, key, bk.len() as int);
        },
    }
}

/// Keeping only the items that pass a test, when exactly one does, leaves
/// that one.
proof fn lemma_filter_single<A>(s: Seq<A>, p: spec_fn(A) -> bool, i: int)
    requires
        0 <= i < s.len(),
        p(s[i]),
        forall|j: int| 0 <= j < s.len() && j != i ==> !p(#[trigger] s[j]),
    ensures
        s.filter(p) == seq![s[i]],
    decreases s.len(),
{
    reveal(Seq::filter);
    let rest = s.drop_last();
    if i == s.len() - 1 {
        assert forall|j: int| 0 <= j < rest.len() implies !p(#[trigger] rest[j]) by {
            assert(rest[j] == s[j]);
        }
        crate::store::lemma_filter_none(rest, p);
        assert(s.filter(p) =~= seq![s[i]]);
    } else {
        assert(!p(s[s.len() - 1]));
        assert forall|j: int| 0 <= j < rest.len() && j != i implies !p(#[trigger] rest[j]) by {
            assert(rest[j] == s[j]);
        }
        lemma_filter_single(rest, p, i);
        assert(rest[i] == s[i]);
    }
}

/// Once a scope's limits are saved into a store with at most one budget
/// per scope, the scope's budget listing holds just the saved budget, with
/// the saved limits, and every scope still has at most one budget.
pub proof fn law_saved_budget_is_the_scope_budget(
    before: WorkStore,
    after: WorkStore,
    budget: NewWorkBudget,
    id: String,
    now: String,
    r: Result<WorkBudget, WorkError>,
    listed: Seq<WorkBudget>,
)
    requires
        before.budgets_one_per_scope(),
        budget_saved(before, after, budget, id, now, r),
        r is Ok,
        is_ordering(
            listed,
            after.budgets@.filter(budget_filter(Some(budget.scope), Some(budget.scope_id@))),
            after.budgets@.filter(budget_filter(Some(budget.scope), Some(budget.scope_id@))).map_values(|b: WorkBudget| budget_key(b)),
            false,
        ),
    ensures
        after.budgets_one_per_scope(),
        listed == seq![r->Ok_0],
        r->Ok_0.scope == budget.scope && r->Ok_0.scope_id == budget.scope_id,
        r->Ok_0.soft_limit_tokens == budget.soft_limit_tokens && r->Ok_0.hard_limit_tokens == budget.hard_limit_tokens,
        r->Ok_0.soft_limit_usd_bits == budget.soft_limit_usd_bits && r->Ok_0.hard_limit_usd_bits == budget.hard_limit_usd_bits,
        r->Ok_0.note == budget.note,
{
    let key = (budget.scope, budget.scope_id@);
    let w = r->Ok_0;
    let p = budget_filter(Some(budget.scope), Some(budget.scope_id@));
    let bk = budget_scopes(before.budgets@);
    let ak = budget_scopes(after.budgets@);
    crate::text::lemma_first_at_facts(bk, key);
    let i = match before.scope_budget_at(budget.scope, budget.scope_id@) {
        Some(i) => {
            assert(after.budgets@ == before.budgets@.update(i, w));
            assert(ak =~= bk);
            i
        },
        None => {
            assert(after.budgets@ == before.budgets@.push(w));
            assert(ak =~= bk.push(key));
            assert forall|x: int, y: int| 0 <= x < ak.len() && 0 <= y < ak.len() && x != y implies ak[x] != ak[y] by {
                if x < bk.len() && y < bk.len() {
                } else if x < bk.len() {
                    assert(bk[x] != key);
                } else {
                    assert(bk[y] != key);
                }
            }
            bk.len() as int
        },
    };
    assert(after.budgets@[i] == w);
    assert forall|j: int| 0 <= j < after.budgets@.len() && j != i implies !p(#[trigger] after.budgets@[j]) by {
        assert(ak[j] == (after.budgets@[j].scope, after.budgets@[j].scope_id@));
        assert(ak[i] == key);
    }
    lemma_filter_single(after.budgets@, p, i);
    let src = after.budgets@.filter(p);
    crate::order::lemma_ordering_members(listed, src, src.map_values(|b: WorkBudget| budget_key(b)), false);
    assert(src[0] == w);
    assert(src.contains(listed[0]));
    assert(listed =~= seq![w]);
}

/// Keeping the items that pass a test, after one more item: the kept items
/// before, and the new one if it passes.
proof fn lemma_filter_push<A>(s: Seq<A>, x: A, p: spec_fn(A) -> bool)
    ensures
        s.push(x).filter(p) == (if p(x) { s.filter(p).push(x) } else { s.filter(p) }),
{
    reveal(Seq::filter);
    assert(s.push(x).drop_last() =~= s);
}

/// When a budget check makes a task wait on a new override request, a
/// second check of the same statuses finds that request pending: it waits
/// on the same request and writes nothing.
pub proof fn law_second_check_reuses_the_request(
    s0: WorkStore,
    s1: WorkStore,
    s2: WorkStore,
    task_id: Seq<char>,
    scopes: Seq<BudgetStatus>,
    first_id: String,
    first_now: String,
    c1: BudgetCheck,
    second_id: String,
    second_now: String,
    r2: Result<BudgetCheck, WorkError>,
)
    requires
        budget_enforced(s0, s1, task_id, scopes, first_id, first_now, Ok(c1)),
        !c1.allowed,
        s0.approvals@.filter(override_of(task_id, ApprovalStatus::Pending)).len() == 0,
        budget_enforced(s1, s2, task_id, scopes, second_id, second_now, r2),
    ensures
        c1.pending_approval_id == Some(first_id),
        s1.approvals@.filter(override_of(task_id, ApprovalStatus::Pending)) == seq![s1.approvals@.last()],
        s1.approvals@.last().id == first_id,
        r2 matches Ok(c2) && !c2.allowed && c2.requires_approval && c2.pending_approval_id == c1.pending_approval_id,
        s2 == s1,
{
    let x = s1.approvals@.last();
    assert(s1.approvals@ == s0.approvals@.push(x));
    lemma_filter_push(s0.approvals@, x, override_of(task_id, ApprovalStatus::Pending));
    lemma_filter_push(s0.approvals@, x, override_of(task_id, ApprovalStatus::Approved));
    assert(s0.approvals@.filter(override_of(task_id, ApprovalStatus::Pending)) =~= Seq::<TaskApproval>::empty());
    let pending = s1.approvals@.filter(override_of(task_id, ApprovalStatus::Pending));
    assert(pending =~= seq![x]);
    let c2 = r2->Ok_0;
    let pid = c2.pending_approval_id->0;
    let full = choose|full: Seq<TaskApproval>| {
        &&& #[trigger] crate::order::is_ordering(full, pending, crate::budget::approval_recency_keys(pending), true)
        &&& full.len() > 0
        &&& full[0].id == pid
    };
    crate::order::lemma_ordering_members(full, pending, crate::budget::approval_recency_keys(pending), true);
    assert(pending.contains(full[0]));
}

/// A store without budgets or links has at most one budget per scope and at
/// most one link per tracker record; saving budgets and importing tracker
/// records keep both, and no other operation writes those tables, so every
/// store built up from an empty one keeps them.
pub proof fn law_empty_store_keys_unique(s: WorkStore)
    requires
        s.budgets@.len() == 0,
        s.links@.len() == 0,
    ensures
        s.budgets_one_per_scope(),
        s.links_one_per_record(),
{
}

/// Importing the same package a second time, when its goal records and its
/// task records each have distinct ids and its budget entries distinct
/// scopes, reads as many records and changes nothing but update times: no
/// record is added, ids and creation times are kept, every task keeps its
/// dependencies, and none of the budget ids drawn the second time is used.
pub proof fn law_package_reimport_changes_only_update_times(
    s0: WorkStore,
    s1: WorkStore,
    s2: WorkStore,
    goals: Seq<GoalRecord>,
    tasks: Seq<TaskRecord>,
    budgets: Seq<NewWorkBudget>,
    first_ids: Seq<String>,
    second_ids: Seq<String>,
    first_now: String,
    second_now: String,
    r1: Result<PackageImportCounts, WorkError>,
    r2: Result<PackageImportCounts, WorkError>,
)
    requires
        goal_record_ids(goals).no_duplicates(),
        task_record_ids(tasks).no_duplicates(),
        entry_scopes(budgets).no_duplicates(),
        package_imported(s0, s1, goals, tasks, budgets, first_ids, first_now, r1),
        r1 is Ok,
        package_imported(s1, s2, goals, tasks, budgets, second_ids, second_now, r2),
    ensures
        r2 matches Ok(c2) && c2.goals_imported == r1->Ok_0.goals_imported && c2.tasks_imported == r1->Ok_0.tasks_imported
            && c2.budgets_imported == r1->Ok_0.budgets_imported,
        goals_differ_in_update_times(s2.goals@, s1.goals@),
        tasks_differ_in_update_times(s2.tasks@, s1.tasks@),
        forall|x: Seq<char>| #[trigger] dep_targets(s2.task_dependencies@, x) == dep_targets(s1.task_dependencies@, x),
        budgets_differ_in_update_times(s2.budgets@, s1.budgets@),
        s2.templates == s1.templates && s2.template_dependencies == s1.template_dependencies && s2.comments == s1.comments,
        s2.links == s1.links && s2.runs == s1.runs && s2.approvals == s1.approvals && s2.costs == s1.costs,
        s2.recurring == s1.recurring && s2.materializations == s1.materializations,
{
    lemma_goals_hold_records(s0.goals@, goals, goals.len() as int, first_now);
    assert(goals_differ_in_update_times(s1.goals@, s1.goals@));
    lemma_goals_reimport(s1.goals@, s1.goals@, goals, goals.len() as int, second_now);
    lemma_tasks_hold_records(s0.tasks@, s0.task_dependencies@, tasks, tasks.len() as int, first_now);
    assert(tasks_differ_in_update_times(s1.tasks@, s1.tasks@));
    lemma_tasks_reimport(
        s1.tasks@,
        s1.tasks@,
        s1.task_dependencies@,
        s1.task_dependencies@,
        tasks,
        tasks.len() as int,
        second_now,
    );
    lemma_budgets_hold_entries(s0.budgets@, budgets, first_ids, budgets.len() as int, first_now);
    assert(budgets_differ_in_update_times(s1.budgets@, s1.budgets@));
    lemma_budgets_reimport(s1.budgets@, s1.budgets@, budgets, second_ids, budgets.len() as int, second_now);
    if r2 is Err {
        let k = choose|k: int|
            0 <= k < budgets.len() && #[trigger] crate::package_import::budgets_after(s1.budgets@, budgets, second_ids, k, second_now)
                == Some(s2.budgets@) && crate::package_import::budget_upsert(s2.budgets@, budgets[k], second_ids[k], second_now) is None
                && r2->Err_0.is_duplicate(crate::error::RecordKind::Budget, second_ids[k]@);
        lemma_budgets_reimport(s1.budgets@, s1.budgets@, budgets, second_ids, k + 1, second_now);
        assert(false);
    }
}

/// A budget's status is over its hard limit exactly when the budget has a
/// hard token limit that the counted total reaches, or the caller's dollar
/// tally says its hard dollar limit is reached; over its soft limit exactly
/// when the same holds of the soft limits.  The soft limit has no bearing on
/// the hard flag, nor the hard limit on the soft flag.
pub proof fn law_budget_status_flags(
    b: WorkBudget,
    total: int,
    usd: UsdTally,
    other_soft: Option<u64>,
    other_hard: Option<u64>,
)
    ensures
        budget_status_spec(b, total, usd).hard_exceeded == ((b.hard_limit_tokens is Some && total >= b.hard_limit_tokens->0)
            || usd.hard_exceeded),
        budget_status_spec(b, total, usd).soft_exceeded == ((b.soft_limit_tokens is Some && total >= b.soft_limit_tokens->0)
            || usd.soft_exceeded),
        budget_status_spec(WorkBudget { soft_limit_tokens: other_soft, ..b }, total, usd).hard_exceeded
            == budget_status_spec(b, total, usd).hard_exceeded,
        budget_status_spec(WorkBudget { hard_limit_tokens: other_hard, ..b }, total, usd).soft_exceeded
            == budget_status_spec(b, total, usd).soft_exceeded,
        budget_status_spec(b, total, usd).budget == b,
        budget_status_spec(b, total, usd).estimated_cost_usd_bits == usd.total_bits,
        0 <= total <= u64::MAX ==> budget_status_spec(b, total, usd).total_tokens == total,
{
}

/// Token totals add up: the entries of two lists count what each list
/// counts.
pub proof fn law_token_sum_adds(a: Seq<TaskCostAttribution>, b: Seq<TaskCostAttribution>)
    ensures
        token_sum(a + b) == token_sum(a) + token_sum(b),
        token_sum(Seq::<TaskCostAttribution>::empty()) == 0,
        token_sum(seq![b.last()]) == b.last().total_tokens,
    decreases b.len(),
{
    assert(seq![b.last()].drop_last() =~= Seq::<TaskCostAttribution>::empty());
    if b.len() > 0 {
        law_token_sum_adds(a, b.drop_last());
        assert((a + b).drop_last() =~= a + b.drop_last());
        assert((a + b).last() == b.last());
    } else {
        assert(a + b =~= a);
    }
}

/// A cost entry counts against a task budget exactly when it was recorded
/// for that task, against a goal budget when it carries that goal, and
/// against a project budget when it carries that project.
pub proof fn law_cost_counts_against_its_scope(b: WorkBudget, c: TaskCostAttribution)
    ensures
        b.scope == BudgetScope::Task ==> (counts_against(b)(c) <==> c.task_id@ == b.scope_id@),
        b.scope == BudgetScope::Goal ==> (counts_against(b)(c) <==> (c.goal_id is Some && c.goal_id->0@ == b.scope_id@)),
        b.scope == BudgetScope::Project ==> (counts_against(b)(c) <==> (c.project_id is Some && c.project_id->0@
            == b.scope_id@)),
{
}

/// The `i`th status of a budget listing belongs to the `i`th budget, counts
/// the tokens of the cost entries that count against it, and is over its
/// hard limit exactly when that total reaches the budget's hard token limit
/// or the `i`th dollar tally says so.
pub proof fn law_budget_statuses_follow_the_budgets(
    costs: Seq<TaskCostAttribution>,
    budgets: Seq<WorkBudget>,
    usd: Seq<UsdTally>,
    i: int,
)
    requires
        0 <= i < budgets.len(),
    ensures
        statuses_of(costs, budgets, usd).len() == budgets.len(),
        statuses_of(costs, budgets, usd)[i].budget == budgets[i],
        statuses_of(costs, budgets, usd)[i].hard_exceeded == ((budgets[i].hard_limit_tokens is Some && token_sum(
            costs.filter(counts_against(budgets[i])),
        ) >= budgets[i].hard_limit_tokens->0) || (i < usd.len() && usd[i].hard_exceeded)),
        statuses_of(costs, budgets, usd)[i].soft_exceeded == ((budgets[i].soft_limit_tokens is Some && token_sum(
            costs.filter(counts_against(budgets[i])),
        ) >= budgets[i].soft_limit_tokens->0) || (i < usd.len() && usd[i].soft_exceeded)),
{
}

/// A tracker's status text, read without surrounding white space and ASCII
/// case, maps to a completed task for completed, complete, done, closed and
/// resolved; to one in progress for in_progress, in progress, doing and
/// active; to a blocked one for blocked; to a cancelled one for cancelled
/// and canceled; and to a pending one for anything else.
pub proof fn law_remote_status_words(s: Seq<char>)
    ensures
        ({
            let n = lower_ascii(trim(s));
            &&& (remote_status(s) == TaskStatus::Completed) <==> (n == "completed"@ || n == "complete"@ || n == "done"@
                || n == "closed"@ || n == "resolved"@)
            &&& (remote_status(s) == TaskStatus::InProgress) <==> (n == "in_progress"@ || n == "in progress"@ || n
                == "doing"@ || n == "active"@)
            &&& (remote_status(s) == TaskStatus::Blocked) <==> n == "blocked"@
            &&& (remote_status(s) == TaskStatus::Cancelled) <==> (n == "cancelled"@ || n == "canceled"@)
        }),
{
    reveal_strlit("completed");
    reveal_strlit("complete");
    reveal_strlit("done");
    reveal_strlit("closed");
    reveal_strlit("resolved");
    reveal_strlit("in_progress");
    reveal_strlit("in progress");
    reveal_strlit("doing");
    reveal_strlit("active");
    reveal_strlit("blocked");
    reveal_strlit("cancelled");
    reveal_strlit("canceled");
    let n = lower_ascii(trim(s));
    let words = seq![
        "in_progress"@, "in progress"@, "doing"@, "active"@, "blocked"@, "completed"@, "complete"@, "done"@, "closed"@,
        "resolved"@, "cancelled"@, "canceled"@
    ];
    assert forall|a: int, b: int| 0 <= a < b < 12 implies words[a] != words[b] by {
        if words[a].len() == words[b].len() {
            assert(words[a][0] != words[b][0] || words[a][1] != words[b][1] || words[a][2] != words[b][2] || words[a][3]
                != words[b][3] || words[a][4] != words[b][4] || words[a][5] != words[b][5] || words[a][6]
                != words[b][6] || words[a][7] != words[b][7] || words[a][8] != words[b][8]);
        }
    }
    assert(words[0] == "in_progress"@ && words[1] == "in progress"@ && words[2] == "doing"@ && words[3] == "active"@);
    assert(words[4] == "blocked"@ && words[5] == "completed"@ && words[6] == "complete"@ && words[7] == "done"@);
    assert(words[8] == "closed"@ && words[9] == "resolved"@ && words[10] == "cancelled"@ && words[11] == "canceled"@);
}

/// The due listing holds exactly the recurring tasks that are enabled, are
/// the one asked for (if one is), and, unless forced, have a next run no
/// later than the evaluation time.
pub proof fn law_due_listing_holds_the_due_tasks(
    rows: Seq<RecurringTask>,
    id: Option<Seq<char>>,
    force: bool,
    at: u64,
    full: Seq<RecurringTask>,
    x: RecurringTask,
)
    requires
        is_ordering(full, rows.filter(is_due(id, force, at)), due_keys(rows.filter(is_due(id, force, at))), false),
    ensures
        full.contains(x) <==> (rows.contains(x) && x.enabled && (id is None || x.id@ == id->0) && (force || (
        x.next_run_at_ms is Some && x.next_run_at_ms->0 <= at))),
{
    let src = rows.filter(is_due(id, force, at));
    crate::order::lemma_ordering_members(full, src, due_keys(src), false);
    broadcast use vstd::seq_lib::group_filter_ensures;
    crate::store::lemma_filter_subset(rows, is_due(id, force, at));
    if full.contains(x) {
        let i = choose|i: int| 0 <= i < full.len() && full[i] == x;
        assert(src.contains(full[i]));
        let w = choose|w: int| 0 <= w < src.len() && src[w] == x;
        assert(rows.contains(src[w]));
        assert(is_due(id, force, at)(src[w]));
    }
    if rows.contains(x) && is_due(id, force, at)(x) {
        let q = choose|q: int| 0 <= q < rows.len() && rows[q] == x;
        assert(src.contains(x));
        let w = choose|w: int| 0 <= w < src.len() && src[w] == x;
        assert(full.contains(src[w]));
    }
}

/// The due listing comes earliest next run first: a task listed before
/// another has no later next run, and tasks without a next run come first.
pub proof fn law_due_listing_earliest_first(
    rows: Seq<RecurringTask>,
    id: Option<Seq<char>>,
    force: bool,
    at: u64,
    full: Seq<RecurringTask>,
    i: int,
    j: int,
)
    requires
        is_ordering(full, rows.filter(is_due(id, force, at)), due_keys(rows.filter(is_due(id, force, at))), false),
        0 <= i < j < full.len(),
    ensures
        full[j].next_run_at_ms is None ==> full[i].next_run_at_ms is None,
        full[i].next_run_at_ms is Some && full[j].next_run_at_ms is Some ==> full[i].next_run_at_ms->0
            <= full[j].next_run_at_ms->0,
{
    let src = rows.filter(is_due(id, force, at));
    let keys = due_keys(src);
    let order = choose|order: Seq<usize>|
        #[trigger] crate::order::is_sorted_order(keys, order, false) && full.len() == order.len() && forall|k: int|
            0 <= k < full.len() ==> full[k] == src[order[k] as int];
    assert(!crate::order::comes_before(keys[order[j] as int], keys[order[i] as int], false));
    let ki = keys[order[i] as int];
    let kj = keys[order[j] as int];
    assert(ki == crate::recurring::due_key(full[i]));
    assert(kj == crate::recurring::due_key(full[j]));
    assert(!crate::order::key_lt(kj, ki));
}

/// The dashboard's unfinished runs are exactly the runs that are pending or
/// running and belong to a task of the project (of any project without
/// one), whatever order the runs were listed in.
pub proof fn law_dashboard_runs_are_the_unfinished_ones(
    tasks: Seq<TaskRow>,
    project: Option<Seq<char>>,
    all_runs: Seq<TaskRun>,
    runs: Seq<TaskRun>,
    x: TaskRun,
)
    requires
        is_ordering(runs, all_runs, run_keys(all_runs), true),
    ensures
        runs.filter(dashboard_run(tasks.filter(in_project(project)))).contains(x) <==> (all_runs.contains(x) && (x.status
            == RunStatus::Pending || x.status == RunStatus::Running) && exists|t: TaskRow|
            #![trigger tasks.contains(t)]
            tasks.contains(t) && t.id@ == x.task_id@ && (project is None || (t.project_id is Some && t.project_id->0@
                == project->0))),
{
    let rows = tasks.filter(in_project(project));
    let p = dashboard_run(rows);
    crate::order::lemma_ordering_members(runs, all_runs, run_keys(all_runs), true);
    broadcast use vstd::seq_lib::group_filter_ensures;
    crate::store::lemma_filter_subset(runs, p);
    crate::store::lemma_filter_subset(tasks, in_project(project));
    if runs.filter(p).contains(x) {
        let i = choose|i: int| 0 <= i < runs.filter(p).len() && runs.filter(p)[i] == x;
        assert(p(runs.filter(p)[i]));
        assert(runs.contains(runs.filter(p)[i]));
        assert(runs.contains(x));
        let k = choose|k: int| 0 <= k < runs.len() && runs[k] == x;
        assert(all_runs.contains(runs[k]));
        let j = choose|j: int| 0 <= j < rows.len() && (#[trigger] rows[j]).id@ == x.task_id@;
        assert(tasks.contains(rows[j]));
        assert(in_project(project)(rows[j]));
        assert(in_project(project)(rows[j]));
    }
    if all_runs.contains(x) && (x.status == RunStatus::Pending || x.status == RunStatus::Running) && exists|t: TaskRow|
        #![trigger tasks.contains(t)]
        tasks.contains(t) && t.id@ == x.task_id@ && (project is None || (t.project_id is Some && t.project_id->0@
            == project->0)) {
        let t = choose|t: TaskRow|
            #![trigger tasks.contains(t)]
            tasks.contains(t) && t.id@ == x.task_id@ && (project is None || (t.project_id is Some && t.project_id->0@
                == project->0));
        let q = choose|q: int| 0 <= q < tasks.len() && tasks[q] == t;
        assert(in_project(project)(tasks[q]));
        assert(rows.contains(t));
        let j = choose|j: int| 0 <= j < rows.len() && rows[j] == t;
        assert(crate::overview::has_task_id(rows, x.task_id@));
        let w = choose|w: int| 0 <= w < all_runs.len() && all_runs[w] == x;
        assert(runs.contains(all_runs[w]));
        let k = choose|k: int| 0 <= k < runs.len() && runs[k] == x;
        assert(runs.filter(p).contains(runs[k]));
    }
}

/// An update takes each field the patch names and keeps each field it
/// does not; it keeps the id and creation time and is dated `now`.  A task
/// that ends in progress with a session is claimed (keeping an earlier
/// claim), one that ends completed or cancelled is unclaimed, and any other
/// keeps its claim.
pub proof fn law_update_takes_the_patch(existing: TaskRow, patch: TaskPatch, now: String)
    ensures
        ({
            let row = crate::store::patched_task_row(existing, patch, now);
            let status = if patch.status is Some { patch.status->0 } else { existing.status };
            let session = if patch.session_key is Some { patch.session_key } else { existing.session_key };
            &&& row.id == existing.id && row.created_at == existing.created_at && row.updated_at == now
            &&& row.title == (if patch.title is Some { patch.title->0 } else { existing.title })
            &&& row.priority == (if patch.priority is Some { patch.priority->0 } else { existing.priority })
            &&& row.status == status
            &&& row.list_key == (if patch.list_key is Some { patch.list_key } else { existing.list_key })
            &&& row.description == (if patch.description is Some { patch.description } else { existing.description })
            &&& row.goal_id == (if patch.goal_id is Some { patch.goal_id } else { existing.goal_id })
            &&& row.parent_task_id == (if patch.parent_task_id is Some { patch.parent_task_id } else {
                existing.parent_task_id
            })
            &&& row.owner == (if patch.owner is Some { patch.owner } else { existing.owner })
            &&& row.project_id == (if patch.project_id is Some { patch.project_id } else { existing.project_id })
            &&& row.session_key == session
            &&& row.claimed_at == (if status == TaskStatus::InProgress && session is Some {
                if existing.claimed_at is Some { existing.claimed_at } else { Some(now) }
            } else if status == TaskStatus::Completed || status == TaskStatus::Cancelled {
                None
            } else {
                existing.claimed_at
            })
        }),
{
}

proof fn lemma_trim_prepend_space(s: Seq<char>, c: char)
    requires
        is_space(c),
    ensures
        trim(seq![c] + s) == trim(s),
{
    assert((seq![c] + s).drop_first() =~= s);
}

/// Surrounding white space does not change what a tracker status text
/// stands for: one more white-space character before or after it leaves
/// the task status as it was.
pub proof fn law_remote_status_ignores_padding(s: Seq<char>, c: char)
    requires
        is_space(c),
    ensures
        remote_status(seq![c] + s) == remote_status(s),
        remote_status(s.push(c)) == remote_status(s),
{
    lemma_trim_prepend_space(s, c);
    lemma_trim_push_space(s, c);
}

proof fn lemma_lower_char(c: char)
    ensures
        is_space(crate::text::ascii_lower(c)) == is_space(c),
        crate::text::ascii_lower(crate::text::ascii_lower(c)) == crate::text::ascii_lower(c),
{
}

proof fn lemma_trim_start_lower(s: Seq<char>)
    ensures
        trim_start(lower_ascii(s)) == lower_ascii(trim_start(s)),
    decreases s.len(),
{
    if s.len() > 0 {
        lemma_lower_char(s[0]);
        assert(lower_ascii(s).drop_first() =~= lower_ascii(s.drop_first()));
        if is_space(s[0]) {
            lemma_trim_start_lower(s.drop_first());
        }
    }
}

proof fn lemma_trim_end_lower(s: Seq<char>)
    ensures
        trim_end(lower_ascii(s)) == lower_ascii(trim_end(s)),
    decreases s.len(),
{
    if s.len() > 0 {
        lemma_lower_char(s.last());
        assert(lower_ascii(s).drop_last() =~= lower_ascii(s.drop_last()));
        if is_space(s.last()) {
            lemma_trim_end_lower(s.drop_last());
        }
    }
}

/// ASCII case does not change what a tracker status text stands for: the
/// text lowered maps to the same task status as the text itself.
pub proof fn law_remote_status_ignores_case(s: Seq<char>)
    ensures
        remote_status(lower_ascii(s)) == remote_status(s),
{
    lemma_trim_start_lower(s);
    lemma_trim_end_lower(trim_start(s));
    let t = trim(s);
    assert forall|i: int| 0 <= i < t.len() implies #[trigger] lower_ascii(lower_ascii(t))[i] == lower_ascii(t)[i] by {
        lemma_lower_char(t[i]);
    }
    assert(lower_ascii(lower_ascii(t)) =~= lower_ascii(t));
}

} // verus!
