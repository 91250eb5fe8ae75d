//! Work packages: goals and tasks as markdown files with YAML frontmatter,
//! and budgets in a manifest.  This module frames and splits the files,
//! names them, chooses what a package holds and writes what an import
//! reads; turning frontmatter into values, and files into bytes, is the
//! caller's part.

use vstd::prelude::*;

use crate::budget::budget_filter;
use crate::error::WorkError;
use crate::goals::goal_recency_keys;
use crate::order::is_ordering;
use crate::overview::{budget_keys, has_task_id, in_project};
use crate::records::{Goal, Task, TaskFilter, WorkBudget};
use crate::order::sort_strings;
use crate::store::{
    deps_replaced, lemma_deps_replaced, only_tasks_changed, task_from_row,
    lemma_filter_all, lemma_filter_step, task_assembled, task_filter, task_recency_keys, task_rows, TaskRow, WorkStore,
};
use crate::text::{clone_opt, opt_str_view, texts};
use crate::types::{BudgetScope, TaskPriority, TaskStatus};
use crate::text::{
    ascii_lower, chars_of, is_ascii_alnum, is_ascii_alphanumeric, string_from_chars, strip_leading, strip_trailing,
    to_ascii_lowercase, trim, trim_chars, trim_start, trim_start_chars,
};

verus! {

/// Every ASCII letter or digit lowercased, every other character a dash.
pub open spec fn dashed(s: Seq<char>) -> Seq<char> {
    s.map_values(|c: char| if is_ascii_alnum(c) { ascii_lower(c) } else { '-' })
}

/// The file-name slug of a title: dashed, without dashes at either end,
/// and `item` when nothing is left.
pub open spec fn package_slug_spec(s: Seq<char>) -> Seq<char> {
    let t = strip_trailing(strip_leading(dashed(s), '-'), '-');
    if t.len() == 0 {
        "item"@
    } else {
        t
    }
}

fn skip_leading(v: &Vec<char>, c: char) -> (r: Vec<char>)
    ensures
        r@ == strip_leading(v@, c),
{
    let mut i: usize = 0;
    assert(v@.skip(0) =~= v@);
    while i < v.len() && v[i] == c
        invariant
            i <= v.len(),
            strip_leading(v@.skip(i as int), c) == strip_leading(v@, c),
        decreases v.len() - i,
    {
        assert(v@.skip(i as int).drop_first() =~= v@.skip(i as int + 1));
        i += 1;
    }
    slice_chars(v, i, v.len())
}

/// The characters from `a` up to `b`.
pub fn slice_chars(v: &Vec<char>, a: usize, b: usize) -> (r: Vec<char>)
    requires
        a <= b <= v.len(),
    ensures
        r@ == v@.subrange(a as int, b as int),
{
    let mut r: Vec<char> = Vec::new();
    let mut i: usize = a;
    while i < b
        invariant
            a <= i <= b,
            b <= v.len(),
            r@ == v@.subrange(a as int, i as int),
        decreases b - i,
    {
        r.push(v[i]);
        i += 1;
        assert(r@ =~= v@.subrange(a as int, i as int));
    }
    r
}

/// The slug a package file is named by.
pub fn package_slug(value: &str) -> (r: String)
    ensures
        r@ == package_slug_spec(value@),
{
    let chars = chars_of(value);
    let mut mapped: Vec<char> = Vec::new();
    let mut i: usize = 0;
    while i < chars.len()
        invariant
            i <= chars.len(),
            chars@ == value@,
            mapped@ == dashed(chars@.take(i as int)),
        decreases chars.len() - i,
    {
        let c = chars[i];
        if is_ascii_alphanumeric(c) {
            mapped.push(to_ascii_lowercase(c));
        } else {
            mapped.push('-');
        }
        i += 1;
        assert(mapped@ =~= dashed(chars@.take(i as int)));
    }
    assert(chars@.take(i as int) =~= chars@);
    let mut slug = skip_leading(&mapped, '-');
    crate::text::pop_trailing(&mut slug, '-');
    if slug.len() == 0 {
        crate::text::owned("item")
    } else {
        string_from_chars(slug.as_slice())
    }
}

/// `pat` occurs in `s` at `p`.
pub open spec fn occurs_at(s: Seq<char>, pat: Seq<char>, p: int) -> bool {
    0 <= p && p + pat.len() <= s.len() && s.subrange(p, p + pat.len()) == pat
}

/// The frontmatter must open the file.
pub open spec fn frontmatter_open() -> Seq<char> {
    "---\n"@
}

/// The line that closes the frontmatter.
pub open spec fn frontmatter_close() -> Seq<char> {
    "\n---\n"@
}

/// What follows the opening delimiter of a file whose text, after leading
/// white space, starts with it.
pub open spec fn after_open(content: Seq<char>) -> Seq<char> {
    trim_start(content).skip(4)
}

/// The file, after leading white space, starts with the opening delimiter.
pub open spec fn opens_frontmatter(content: Seq<char>) -> bool {
    trim_start(content).len() >= 4 && trim_start(content).take(4) == frontmatter_open()
}

fn closes_at(v: &Vec<char>, p: usize) -> (r: bool)
    requires
        p + 5 <= v.len(),
    ensures
        r == occurs_at(v@, frontmatter_close(), p as int),
{
    proof {
        reveal_strlit("\n---\n");
    }
    let r = v[p] == '\n' && v[p + 1] == '-' && v[p + 2] == '-' && v[p + 3] == '-' && v[p + 4] == '\n';
    if r {
        assert(v@.subrange(p as int, p as int + 5) =~= frontmatter_close());
    } else {
        proof {
            if v@.subrange(p as int, p as int + 5) == frontmatter_close() {
            assert(v@[p as int] == v@.subrange(p as int, p as int + 5)[0]);
            assert(v@[p as int + 1] == v@.subrange(p as int, p as int + 5)[1]);
            assert(v@[p as int + 2] == v@.subrange(p as int, p as int + 5)[2]);
            assert(v@[p as int + 3] == v@.subrange(p as int, p as int + 5)[3]);
            assert(v@[p as int + 4] == v@.subrange(p as int, p as int + 5)[4]);
            }
        }
    }
    r
}

/// Splits a markdown file into its trimmed frontmatter and trimmed body.
/// After leading white space the file must start with `---` and a newline;
/// the frontmatter runs to the first line that is `---`.
pub fn split_frontmatter(content: &str) -> (r: Result<(String, String), WorkError>)
    ensures
        !opens_frontmatter(content@) ==> (r matches Err(e) && e is MissingFrontmatter),
        opens_frontmatter(content@) ==> match r {
            Err(e) => e is MissingFrontmatterEnd && forall|p: int| !occurs_at(after_open(content@), frontmatter_close(), p),
            Ok((fm, body)) => exists|p: int| {
                &&& #[trigger] occurs_at(after_open(content@), frontmatter_close(), p)
                &&& forall|q: int| 0 <= q < p ==> !occurs_at(after_open(content@), frontmatter_close(), q)
                &&& fm@ == trim(after_open(content@).take(p))
                &&& body@ == trim(after_open(content@).skip(p + 5))
            },
        },
{
    proof {
        reveal_strlit("---\n");
        reveal_strlit("\n---\n");
    }
    let all = chars_of(content);
    let t = trim_start_chars(&all);
    if !(t.len() >= 4 && t[0] == '-' && t[1] == '-' && t[2] == '-' && t[3] == '\n') {
        proof {
            if opens_frontmatter(content@) {
                assert(t@[0] == t@.take(4)[0]);
                assert(t@[1] == t@.take(4)[1]);
                assert(t@[2] == t@.take(4)[2]);
                assert(t@[3] == t@.take(4)[3]);
            }
        }
        return Err(WorkError::MissingFrontmatter);
    }
    assert(t@.take(4) =~= frontmatter_open());
    let rest = slice_chars(&t, 4, t.len());
    assert(rest@ =~= after_open(content@));
    let mut p: usize = 0;
    while rest.len() >= 5 && p <= rest.len() - 5 && !closes_at(&rest, p)
        invariant
            p <= rest.len(),
            rest@ == after_open(content@),
            forall|q: int| 0 <= q < p ==> !occurs_at(rest@, frontmatter_close(), q),
        decreases rest.len() - p,
    {
        p += 1;
    }
    if rest.len() < 5 || p > rest.len() - 5 {
        assert forall|q: int| !occurs_at(rest@, frontmatter_close(), q) by {
            if 0 <= q < p {
            }
        }
        return Err(WorkError::MissingFrontmatterEnd);
    }
    let head = slice_chars(&rest, 0, p);
    let tail = slice_chars(&rest, p + 5, rest.len());
    assert(head@ =~= rest@.take(p as int));
    assert(tail@ =~= rest@.skip(p as int + 5));
    let fm = string_from_chars(trim_chars(&head).as_slice());
    let body = string_from_chars(trim_chars(&tail).as_slice());
    assert(occurs_at(after_open(content@), frontmatter_close(), p as int));
    Ok((fm, body))
}

/// A markdown file: the frontmatter between `---` lines, then the trimmed
/// body after a blank line when there is one.
pub open spec fn markdown_spec(frontmatter: Seq<char>, body: Option<Seq<char>>) -> Seq<char> {
    let b = match body {
        Some(x) => trim(x),
        None => Seq::empty(),
    };
    if b.len() == 0 {
        "---\n"@ + frontmatter + "---\n"@
    } else {
        "---\n"@ + frontmatter + "---\n\n"@ + b + "\n"@
    }
}

/// Frames serialized frontmatter (which ends with a newline) and a body as a
/// markdown file.
pub fn markdown_with_frontmatter(frontmatter: &str, body: Option<&str>) -> (r: String)
    ensures
        r@ == markdown_spec(frontmatter@, crate::text::opt_str_view(body)),
{
    proof {
        reveal_strlit("---\n");
        reveal_strlit("---\n\n");
        reveal_strlit("\n");
    }
    let b = match body {
        Some(x) => trim_chars(&chars_of(x)),
        None => Vec::new(),
    };
    let mut out: Vec<char> = Vec::new();
    out.push('-');
    out.push('-');
    out.push('-');
    out.push('\n');
    let fm = chars_of(frontmatter);
    let mut i: usize = 0;
    while i < fm.len()
        invariant
            i <= fm.len(),
            out@ == "---\n"@ + fm@.take(i as int),
        decreases fm.len() - i,
    {
        out.push(fm[i]);
        i += 1;
        assert(out@ =~= "---\n"@ + fm@.take(i as int));
    }
    assert(fm@.take(i as int) =~= frontmatter@);
    out.push('-');
    out.push('-');
    out.push('-');
    out.push('\n');
    if b.len() == 0 {
        assert(out@ =~= "---\n"@ + frontmatter@ + "---\n"@);
        return string_from_chars(out.as_slice());
    }
    out.push('\n');
    let ghost prefix = out@;
    assert(prefix =~= "---\n"@ + frontmatter@ + "---\n\n"@);
    let mut j: usize = 0;
    while j < b.len()
        invariant
            j <= b.len(),
            out@ == prefix + b@.take(j as int),
        decreases b.len() - j,
    {
        out.push(b[j]);
        j += 1;
        assert(out@ =~= prefix + b@.take(j as int));
    }
    assert(b@.take(j as int) =~= b@);
    out.push('\n');
    assert(out@ =~= "---\n"@ + frontmatter@ + "---\n\n"@ + b@ + "\n"@);
    string_from_chars(out.as_slice())
}


/// The number of bytes of a character in UTF-8.
pub open spec fn utf8_width(c: char) -> int {
    if (c as u32) < 0x80 {
        1
    } else if (c as u32) < 0x800 {
        2
    } else if (c as u32) < 0x10000 {
        3
    } else {
        4
    }
}

/// How many leading characters of `s` fit in `n` bytes.
pub open spec fn chars_within(s: Seq<char>, n: int) -> int
    decreases s.len(),
{
    if s.len() == 0 || utf8_width(s[0]) > n {
        0
    } else {
        1 + chars_within(s.drop_first(), n - utf8_width(s[0]))
    }
}

/// Cutting `s` after its first `n` bytes (or at its end, when shorter)
/// falls between two characters.
pub open spec fn cut_on_boundary(s: Seq<char>, n: int) -> bool
    decreases s.len(),
{
    if s.len() == 0 || n <= 0 {
        true
    } else if utf8_width(s[0]) > n {
        false
    } else {
        cut_on_boundary(s.drop_first(), n - utf8_width(s[0]))
    }
}

fn char_width(c: char) -> (w: usize)
    ensures
        w == utf8_width(c),
{
    let u = c as u32;
    if u < 0x80 {
        1
    } else if u < 0x800 {
        2
    } else if u < 0x10000 {
        3
    } else {
        4
    }
}

/// The name of a package file: the slug of `base`, a dash, the first eight
/// bytes of the id (all of a shorter id) and `.md`.
pub open spec fn file_name_spec(base: Seq<char>, id: Seq<char>) -> Seq<char> {
    package_slug_spec(base) + "-"@ + id.take(chars_within(id, 8)) + ".md"@
}

/// Names a package file after a title or slug and an id whose eighth byte
/// ends a character (or which is shorter).
pub fn package_file_name(base: &str, id: &str) -> (r: String)
    requires
        cut_on_boundary(id@, 8),
    ensures
        r@ == file_name_spec(base@, id@),
{
    proof {
        reveal_strlit("-");
        reveal_strlit(".md");
    }
    let slug = chars_of(package_slug(base).as_str());
    let idc = chars_of(id);
    let mut left: usize = 8;
    let mut n: usize = 0;
    assert(idc@.skip(0) =~= idc@);
    while n < idc.len() && char_width(idc[n]) <= left
        invariant
            n <= idc.len(),
            left <= 8,
            idc@ == id@,
            chars_within(id@, 8) == n + chars_within(idc@.skip(n as int), left as int),
        decreases idc.len() - n,
    {
        assert(idc@.skip(n as int).drop_first() =~= idc@.skip(n as int + 1));
        left = left - char_width(idc[n]);
        n += 1;
    }
    let mut out: Vec<char> = Vec::new();
    let mut i: usize = 0;
    while i < slug.len()
        invariant
            i <= slug.len(),
            out@ == slug@.take(i as int),
        decreases slug.len() - i,
    {
        out.push(slug[i]);
        i += 1;
        assert(out@ =~= slug@.take(i as int));
    }
    assert(slug@.take(i as int) =~= slug@);
    out.push('-');
    let ghost head = out@;
    let mut j: usize = 0;
    while j < n
        invariant
            j <= n,
            n <= idc.len(),
            out@ == head + idc@.take(j as int),
        decreases n - j,
    {
        out.push(idc[j]);
        j += 1;
        assert(out@ =~= head + idc@.take(j as int));
    }
    out.push('.');
    out.push('m');
    out.push('d');
    assert(out@ =~= file_name_spec(base@, id@));
    string_from_chars(out.as_slice())
}

/// The file a goal is exported to: named after its slug, or its title when
/// it has none.
pub fn goal_file_name(goal: &Goal) -> (r: String)
    requires
        cut_on_boundary(goal.id@, 8),
    ensures
        r@ == file_name_spec(
            match goal.slug {
                Some(s) => s@,
                None => goal.title@,
            },
            goal.id@,
        ),
{
    match &goal.slug {
        Some(s) => package_file_name(s.as_str(), goal.id.as_str()),
        None => package_file_name(goal.title.as_str(), goal.id.as_str()),
    }
}

/// The file a task is exported to, named after its title.
pub fn task_file_name(task: &Task) -> (r: String)
    requires
        cut_on_boundary(task.id@, 8),
    ensures
        r@ == file_name_spec(task.title@, task.id@),
{
    package_file_name(task.title.as_str(), task.id.as_str())
}

/// The description an imported body gives: none for an empty body.
pub fn package_description(body: String) -> (r: Option<String>)
    ensures
        r == (if body@.len() == 0 { None } else { Some(body) }),
{
    if chars_of(body.as_str()).len() == 0 {
        None
    } else {
        Some(body)
    }
}


/// What an export of a project (or of all work) writes.
#[derive(Debug, Clone)]
pub struct WorkPackageContents {
    pub goals: Vec<Goal>,
    pub tasks: Vec<Task>,
    pub budgets: Vec<WorkBudget>,
}

/// The task belongs to the goal with this id.
pub open spec fn of_goal(t: TaskRow, goal_id: Seq<char>) -> bool {
    t.goal_id matches Some(g) && g@ == goal_id
}

/// Goals an export keeps: those of the project, and those a kept task
/// belongs to.
pub open spec fn goal_kept(p: Option<Seq<char>>, rows: Seq<TaskRow>) -> spec_fn(Goal) -> bool {
    |g: Goal|
        (p matches Some(x) && g.project_id matches Some(q) && q@ == x) || exists|j: int|
            0 <= j < rows.len() && of_goal(#[trigger] rows[j], g.id@)
}

/// Budgets an export keeps: those of a kept task, of a kept goal, or of the
/// project (of any project when the export is of all work).
pub open spec fn budget_kept(p: Option<Seq<char>>, rows: Seq<TaskRow>, goals: Seq<Goal>) -> spec_fn(WorkBudget) -> bool {
    |b: WorkBudget| match b.scope {
        BudgetScope::Task => has_task_id(rows, b.scope_id@),
        BudgetScope::Goal => exists|i: int|
            0 <= i < goals.len() && (#[trigger] goals[i]).id@ == b.scope_id@ && goal_kept(p, rows)(goals[i]),
        BudgetScope::Project => match p {
            None => true,
            Some(x) => b.scope_id@ == x,
        },
    }
}

impl WorkStore {
    fn project_has_goal_task(&self, p: Option<&str>, goal_id: &str) -> (r: bool)
        ensures
            r == exists|j: int|
                0 <= j < self.tasks@.filter(in_project(opt_str_view(p))).len() && of_goal(
                    #[trigger] self.tasks@.filter(in_project(opt_str_view(p)))[j],
                    goal_id@,
                ),
    {
        let ghost pred = in_project(opt_str_view(p));
        let ghost all = self.tasks@;
        let mut i: usize = 0;
        while i < self.tasks.len()
            invariant
                i <= self.tasks.len(),
                pred == in_project(opt_str_view(p)),
                all == self.tasks@,
                forall|j: int|
                    0 <= j < all.take(i as int).filter(pred).len() ==> !of_goal(
                        #[trigger] all.take(i as int).filter(pred)[j],
                        goal_id@,
                    ),
            decreases self.tasks.len() - i,
        {
            proof {
                lemma_filter_step(all, pred, i as int);
            }
            let t = &self.tasks[i];
            let inside = match p {
                None => true,
                Some(x) => match &t.project_id {
                    Some(q) => crate::text::str_equal(q.as_str(), x),
                    None => false,
                },
            };
            let same_goal = match &t.goal_id {
                Some(g) => crate::text::str_equal(g.as_str(), goal_id),
                None => false,
            };
            let ghost before = all.take(i as int).filter(pred);
            if inside && same_goal {
                proof {
                    crate::overview::lemma_filter_prefix(all, pred, i as int + 1);
                    assert(all.take(i as int + 1).filter(pred) == before.push(all[i as int]));
                    let w = before.len() as int;
                    assert(all.filter(pred)[w] == all[i as int]);
                }
                return true;
            }
            i += 1;
            proof {
                assert forall|j: int| 0 <= j < all.take(i as int).filter(pred).len() implies !of_goal(
                    #[trigger] all.take(i as int).filter(pred)[j],
                    goal_id@,
                ) by {
                    if inside {
                        assert(all.take(i as int).filter(pred) == before.push(all[i - 1]));
                        if j < before.len() {
                            assert(before[j] == all.take(i as int).filter(pred)[j]);
                        }
                    }
                }
            }
        }
        assert(all.take(i as int) =~= all);
        false
    }

    fn goal_is_kept(&self, p: Option<&str>, g: &Goal) -> (r: bool)
        ensures
            r == goal_kept(opt_str_view(p), self.tasks@.filter(in_project(opt_str_view(p))))(*g),
    {
        let of_project = match p {
            Some(x) => match &g.project_id {
                Some(q) => crate::text::str_equal(q.as_str(), x),
                None => false,
            },
            None => false,
        };
        of_project || self.project_has_goal_task(p, g.id.as_str())
    }

    fn kept_goal_id(&self, p: Option<&str>, id: &str) -> (r: bool)
        ensures
            r == exists|i: int|
                0 <= i < self.goals@.len() && (#[trigger] self.goals@[i]).id@ == id@ && goal_kept(
                    opt_str_view(p),
                    self.tasks@.filter(in_project(opt_str_view(p))),
                )(self.goals@[i]),
    {
        let ghost keep = goal_kept(opt_str_view(p), self.tasks@.filter(in_project(opt_str_view(p))));
        let mut i: usize = 0;
        while i < self.goals.len()
            invariant
                i <= self.goals.len(),
                keep == goal_kept(opt_str_view(p), self.tasks@.filter(in_project(opt_str_view(p)))),
                forall|j: int| 0 <= j < i ==> !((#[trigger] self.goals@[j]).id@ == id@ && keep(self.goals@[j])),
            decreases self.goals.len() - i,
        {
            if crate::text::str_equal(self.goals[i].id.as_str(), id) && self.goal_is_kept(p, &self.goals[i]) {
                return true;
            }
            i += 1;
        }
        false
    }

    /// What an export of a project (or of all work) holds: its tasks, most
    /// recently updated first; the goals of the project or of those tasks,
    /// most recently updated first; and the budgets of those tasks, of those
    /// goals and of the project, by scope and scope id.
    pub fn package_contents(&self, project_id: Option<&str>) -> (r: WorkPackageContents)
        ensures
            ({
                let pv = opt_str_view(project_id);
                let rows = self.tasks@.filter(in_project(pv));
                &&& exists|all: Seq<Task>|
                    #[trigger] is_ordering(task_rows(all), rows, task_recency_keys(rows), true) && (forall|k: int|
                        0 <= k < all.len() ==> task_assembled(#[trigger] all[k], all[k].row(), self.task_deps(all[k].id@)))
                        && r.tasks@ == all
                &&& exists|goals: Seq<Goal>|
                    #[trigger] is_ordering(goals, self.goals@, goal_recency_keys(self.goals@), true) && r.goals@ == goals.filter(
                        goal_kept(pv, rows),
                    )
                &&& exists|bl: Seq<WorkBudget>|
                    #[trigger] is_ordering(bl, self.budgets@, budget_keys(self.budgets@), false) && r.budgets@ == bl.filter(
                        budget_kept(pv, rows, self.goals@),
                    )
            }),
    {
        let ghost pv = opt_str_view(project_id);
        let ghost rows = self.tasks@.filter(in_project(pv));
        let filter = TaskFilter {
            list_key: None,
            goal_id: None,
            project_id: match project_id {
                Some(x) => Some(crate::text::owned(x)),
                None => None,
            },
            session_key: None,
            owner: None,
            status: None,
        };
        assert(task_filter(filter) =~= in_project(pv));
        let tasks = self.list_tasks(&filter);
        let listed_goals = self.list_goals();
        let ghost gpred = goal_kept(pv, rows);
        let mut goals: Vec<Goal> = Vec::new();
        let mut i: usize = 0;
        while i < listed_goals.len()
            invariant
                i <= listed_goals.len(),
                gpred == goal_kept(pv, rows),
                rows == self.tasks@.filter(in_project(pv)),
                pv == opt_str_view(project_id),
                goals@ == listed_goals@.take(i as int).filter(gpred),
            decreases listed_goals.len() - i,
        {
            proof {
                lemma_filter_step(listed_goals@, gpred, i as int);
            }
            if self.goal_is_kept(project_id, &listed_goals[i]) {
                goals.push(listed_goals[i].copy());
            }
            i += 1;
        }
        assert(listed_goals@.take(i as int) =~= listed_goals@);
        let all_budgets = self.list_budgets(None, None);
        proof {
            lemma_filter_all(self.budgets@, budget_filter(None, None));
        }
        let ghost bpred = budget_kept(pv, rows, self.goals@);
        let mut budgets: Vec<WorkBudget> = Vec::new();
        let mut j: usize = 0;
        while j < all_budgets.len()
            invariant
                j <= all_budgets.len(),
                bpred == budget_kept(pv, rows, self.goals@),
                rows == self.tasks@.filter(in_project(pv)),
                pv == opt_str_view(project_id),
                budgets@ == all_budgets@.take(j as int).filter(bpred),
            decreases all_budgets.len() - j,
        {
            proof {
                lemma_filter_step(all_budgets@, bpred, j as int);
            }
            let b = &all_budgets[j];
            let keep = match b.scope {
                BudgetScope::Task => self.project_has_task(project_id, b.scope_id.as_str()),
                BudgetScope::Goal => self.kept_goal_id(project_id, b.scope_id.as_str()),
                BudgetScope::Project => match project_id {
                    None => true,
                    Some(x) => crate::text::str_equal(b.scope_id.as_str(), x),
                },
            };
            if keep {
                budgets.push(b.copy());
            }
            j += 1;
        }
        assert(all_budgets@.take(j as int) =~= all_budgets@);
        let r = WorkPackageContents { goals, tasks, budgets };
        assert(is_ordering(listed_goals@, self.goals@, goal_recency_keys(self.goals@), true));
        assert(is_ordering(all_budgets@, self.budgets@, budget_keys(self.budgets@), false));
        r
    }
}


/// The row an imported task is stored as: the imported fields, keeping the
/// session, claim time and creation time of a stored task with the same id.
pub open spec fn imported_task_row(
    existing: Option<TaskRow>,
    id: String,
    list_key: Option<String>,
    title: String,
    description: Option<String>,
    status: TaskStatus,
    priority: TaskPriority,
    goal_id: Option<String>,
    parent_task_id: Option<String>,
    owner: Option<String>,
    project_id: Option<String>,
    now: String,
) -> TaskRow {
    TaskRow {
        id: id,
        list_key: list_key,
        title: title,
        description: description,
        status: status,
        priority: priority,
        goal_id: goal_id,
        parent_task_id: parent_task_id,
        owner: owner,
        project_id: project_id,
        session_key: match existing {
            Some(t) => t.session_key,
            None => None,
        },
        claimed_at: match existing {
            Some(t) => t.claimed_at,
            None => None,
        },
        created_at: match existing {
            Some(t) => t.created_at,
            None => now,
        },
        updated_at: now,
    }
}

impl WorkStore {
    /// Writes an imported task and replaces its dependencies: a stored task
    /// with the same id takes the imported fields; otherwise the task is
    /// added.
    pub fn import_task_record_at(
        &mut self,
        id: String,
        list_key: Option<String>,
        title: String,
        description: Option<String>,
        status: TaskStatus,
        priority: TaskPriority,
        goal_id: Option<String>,
        parent_task_id: Option<String>,
        owner: Option<String>,
        project_id: Option<String>,
        blocked_by: Vec<String>,
        now: String,
    ) -> (r: Task)
        ensures
            match old(self).task_at(id@) {
                Some(i) => {
                    let row = imported_task_row(Some(old(self).tasks@[i]), id, list_key, title, description, status, priority, goal_id, parent_task_id, owner, project_id, now);
                    &&& final(self).tasks@ == old(self).tasks@.update(i, row)
                    &&& task_assembled(r, row, texts(blocked_by@))
                },
                None => {
                    let row = imported_task_row(None, id, list_key, title, description, status, priority, goal_id, parent_task_id, owner, project_id, now);
                    &&& final(self).tasks@ == old(self).tasks@.push(row)
                    &&& task_assembled(r, row, texts(blocked_by@))
                },
            },
            final(self).task_dependencies@ == deps_replaced(old(self).task_dependencies@, id, blocked_by@),
            only_tasks_changed(*old(self), *final(self)),
    {
        let row = match self.task_position(id.as_str()) {
            Some(i) => {
                let existing = &self.tasks[i];
                let row = TaskRow {
                    id: id.clone(),
                    list_key,
                    title,
                    description,
                    status,
                    priority,
                    goal_id,
                    parent_task_id,
                    owner,
                    project_id,
                    session_key: clone_opt(&existing.session_key),
                    claimed_at: clone_opt(&existing.claimed_at),
                    created_at: existing.created_at.clone(),
                    updated_at: now,
                };
                self.tasks.set(i, row.copy());
                row
            },
            None => {
                let row = TaskRow {
                    id: id.clone(),
                    list_key,
                    title,
                    description,
                    status,
                    priority,
                    goal_id,
                    parent_task_id,
                    owner,
                    project_id,
                    session_key: None,
                    claimed_at: None,
                    created_at: now.clone(),
                    updated_at: now,
                };
                self.tasks.push(row.copy());
                row
            },
        };
        self.replace_dependencies(&id, &blocked_by);
        proof {
            lemma_deps_replaced(old(self).task_dependencies@, id, blocked_by@, id@);
        }
        let deps = sort_strings(&blocked_by);
        task_from_row(row, deps)
    }
}

} // verus!
