//! Parent links between templates: ancestors, and the cycles they can form.

use vstd::prelude::*;

use crate::order::{comes_before, is_ordering, key_lt, lemma_ordering_determined, lemma_ordering_members, lemma_text_lt_total, KeyView};
use crate::records::TaskTemplate;
use crate::store::{TemplateRow, WorkStore};
use crate::templates::{age_keys, child_of, child_of_reached, parent_is, template_ids, tree_ids};
use crate::text::{first_index, lemma_first_index_facts, lemma_first_index_unique, texts};

verus! {

/// The parent of the stored template with id `x`, if it has one.
pub open spec fn parent_of(rows: Seq<TemplateRow>, x: Seq<char>) -> Option<Seq<char>> {
    match first_index(template_ids(rows), x) {
        Some(q) => match rows[q].parent_template_id {
            Some(p) => Some(p@),
            None => None,
        },
        None => None,
    }
}

/// The template `n` parent links above `x`.
pub open spec fn ancestor(rows: Seq<TemplateRow>, x: Seq<char>, n: nat) -> Option<Seq<char>>
    decreases n,
{
    if n == 0 {
        Some(x)
    } else {
        match parent_of(rows, x) {
            Some(p) => ancestor(rows, p, (n - 1) as nat),
            None => None,
        }
    }
}

/// Following parent links up from `root` leads back to it.
pub open spec fn leads_back(rows: Seq<TemplateRow>, root: Seq<char>) -> bool {
    exists|n: nat| 1 <= n <= rows.len() && #[trigger] ancestor(rows, root, n) == Some(root)
}

/// `root` is at most `bound` parent links above `x`.
pub open spec fn reaches_within(rows: Seq<TemplateRow>, x: Seq<char>, root: Seq<char>, bound: int) -> bool {
    exists|d: nat| d <= bound && #[trigger] ancestor(rows, x, d) == Some(root)
}

/// One more link up from the `n`th ancestor.
pub proof fn lemma_ancestor_step(rows: Seq<TemplateRow>, x: Seq<char>, n: nat)
    ensures
        ancestor(rows, x, n + 1) == match ancestor(rows, x, n) {
            Some(a) => parent_of(rows, a),
            None => None,
        },
    decreases n,
{
    if n > 0 {
        match parent_of(rows, x) {
            Some(p) => lemma_ancestor_step(rows, p, (n - 1) as nat),
            None => {},
        }
    } else {
        match parent_of(rows, x) {
            Some(p) => {
                assert(ancestor(rows, p, 0) == Some(p));
            },
            None => {},
        }
    }
}

/// Past a template without a parent there are no more ancestors.
pub proof fn lemma_ancestor_stays_none(rows: Seq<TemplateRow>, x: Seq<char>, m: nat, n: nat)
    requires
        m <= n,
        ancestor(rows, x, m) is None,
    ensures
        ancestor(rows, x, n) is None,
    decreases n - m,
{
    if m < n {
        lemma_ancestor_step(rows, x, m);
        lemma_ancestor_stays_none(rows, x, m + 1, n);
    }
}

/// A template that is its own parent is each of its ancestors.
pub proof fn lemma_ancestor_self_loop(rows: Seq<TemplateRow>, x: Seq<char>, n: nat)
    requires
        parent_of(rows, x) == Some(x),
    ensures
        ancestor(rows, x, n) == Some(x),
    decreases n,
{
    if n > 0 {
        lemma_ancestor_self_loop(rows, x, (n - 1) as nat);
    }
}

/// The ids of the children of `t`, oldest first: the order in which a walk
/// visits them (it stacks them newest first).
pub open spec fn child_ids(rows: Seq<TemplateRow>, t: Seq<char>) -> Seq<Seq<char>> {
    choose|c: Seq<Seq<char>>|
        is_ordering(c, template_ids(rows.filter(child_of(t))), age_keys(rows.filter(child_of(t))), true)
}

/// The ids that a depth-first walk visits, at most `fuel` of them, from the
/// stack `stack` (its top last): each visit pops a template and stacks its
/// children.
pub open spec fn walk(rows: Seq<TemplateRow>, stack: Seq<Seq<char>>, fuel: nat) -> Seq<Seq<char>>
    decreases fuel,
{
    if fuel == 0 || stack.len() == 0 {
        Seq::empty()
    } else {
        seq![stack.last()] + walk(rows, stack.drop_last() + child_ids(rows, stack.last()), (fuel - 1) as nat)
    }
}

/// Templates with different ids never tie on their age keys.
proof fn lemma_age_keys_total(rows: Seq<TemplateRow>)
    requires
        template_ids(rows).no_duplicates(),
    ensures
        forall|a: int, b: int|
            0 <= a < age_keys(rows).len() && 0 <= b < age_keys(rows).len() && a != b ==> comes_before(
                #[trigger] age_keys(rows)[a],
                #[trigger] age_keys(rows)[b],
                true,
            ) || comes_before(age_keys(rows)[b], age_keys(rows)[a], true),
{
    assert forall|a: int, b: int|
        0 <= a < age_keys(rows).len() && 0 <= b < age_keys(rows).len() && a != b implies comes_before(
            #[trigger] age_keys(rows)[a],
            #[trigger] age_keys(rows)[b],
            true,
        ) || comes_before(age_keys(rows)[b], age_keys(rows)[a], true) by {
        let ka = age_keys(rows)[a];
        let kb = age_keys(rows)[b];
        assert(template_ids(rows)[a] == rows[a].id@ && template_ids(rows)[b] == rows[b].id@);
        assert(rows[a].id@ != rows[b].id@);
        lemma_text_lt_total(rows[a].created_at@, rows[b].created_at@);
        lemma_text_lt_total(rows[a].id@, rows[b].id@);
        assert(ka.drop_first() =~= seq![KeyView::Text(rows[a].id@)]);
        assert(kb.drop_first() =~= seq![KeyView::Text(rows[b].id@)]);
        assert(ka.drop_first().drop_first() =~= Seq::<KeyView>::empty());
        assert(kb.drop_first().drop_first() =~= Seq::<KeyView>::empty());
        if rows[a].created_at@ == rows[b].created_at@ {
            assert(key_lt(ka, kb) == key_lt(ka.drop_first(), kb.drop_first()));
            assert(key_lt(kb, ka) == key_lt(kb.drop_first(), ka.drop_first()));
        }
    }
}

/// The children a walk stacks are the ones `children` lists, when it is an
/// ordering of them.
pub proof fn lemma_child_ids(rows: Seq<TemplateRow>, t: Seq<char>, children: Seq<Seq<char>>)
    requires
        template_ids(rows).no_duplicates(),
        is_ordering(children, template_ids(rows.filter(child_of(t))), age_keys(rows.filter(child_of(t))), true),
    ensures
        child_ids(rows, t) == children,
{
    let f = rows.filter(child_of(t));
    lemma_filter_ids_unique(rows, child_of(t));
    lemma_age_keys_total(f);
    assert(age_keys(f).len() == template_ids(f).len());
    let c = child_ids(rows, t);
    assert(is_ordering(c, template_ids(f), age_keys(f), true));
    lemma_ordering_determined(c, children, template_ids(f), age_keys(f), true);
}

/// Two sequences together repeat nothing when neither does and they share
/// nothing.
pub proof fn lemma_concat_no_dups<T>(a: Seq<T>, b: Seq<T>)
    ensures
        (a + b).no_duplicates() <==> (a.no_duplicates() && b.no_duplicates() && a.disjoint(b)),
{
    let ab = a + b;
    if ab.no_duplicates() {
        assert forall|i: int, j: int| 0 <= i < a.len() && 0 <= j < a.len() && i != j implies a[i] != a[j] by {
            assert(ab[i] == a[i] && ab[j] == a[j]);
        }
        assert forall|i: int, j: int| 0 <= i < b.len() && 0 <= j < b.len() && i != j implies b[i] != b[j] by {
            assert(ab[a.len() + i] == b[i] && ab[a.len() + j] == b[j]);
        }
        assert forall|i: int, j: int| 0 <= i < a.len() && 0 <= j < b.len() implies a[i] != b[j] by {
            assert(ab[i] == a[i] && ab[a.len() + j] == b[j]);
        }
    }
    if a.no_duplicates() && b.no_duplicates() && a.disjoint(b) {
        assert forall|i: int, j: int| 0 <= i < ab.len() && 0 <= j < ab.len() && i != j implies ab[i] != ab[j] by {
            if i < a.len() && j < a.len() {
            } else if i >= a.len() && j >= a.len() {
                assert(ab[i] == b[i - a.len()] && ab[j] == b[j - a.len()]);
            } else if i < a.len() {
                assert(ab[j] == b[j - a.len()]);
            } else {
                assert(ab[i] == b[i - a.len()]);
            }
        }
    }
}

/// A sequence without repeats whose items all occur in `all` is no longer
/// than `all`.
pub proof fn lemma_unique_within<T>(s: Seq<T>, all: Seq<T>)
    requires
        s.no_duplicates(),
        forall|i: int| 0 <= i < s.len() ==> all.contains(#[trigger] s[i]),
    ensures
        s.len() <= all.len(),
{
    s.unique_seq_to_set();
    all.lemma_cardinality_of_set();
    vstd::seq_lib::seq_to_set_is_finite(all);
    assert(s.to_set().subset_of(all.to_set())) by {
        assert forall|x: T| s.to_set().contains(x) implies all.to_set().contains(x) by {
            let i = choose|i: int| 0 <= i < s.len() && s[i] == x;
        }
    }
    vstd::set_lib::lemma_len_subset(s.to_set(), all.to_set());
}

/// The ids of some of the rows of a table without repeated ids repeat
/// nothing.
pub proof fn lemma_filter_ids_unique(rows: Seq<TemplateRow>, p: spec_fn(TemplateRow) -> bool)
    requires
        template_ids(rows).no_duplicates(),
    ensures
        template_ids(rows.filter(p)).no_duplicates(),
    decreases rows.len(),
{
    reveal(Seq::filter);
    if rows.len() > 0 {
        let rest = rows.drop_last();
        assert(template_ids(rest) =~= template_ids(rows).drop_last());
        lemma_filter_ids_unique(rest, p);
        crate::store::lemma_filter_subset(rest, p);
        if p(rows.last()) {
            let f = rest.filter(p);
            let fi = template_ids(f);
            let gi = template_ids(f.push(rows.last()));
            assert forall|i: int, j: int| 0 <= i < gi.len() && 0 <= j < gi.len() && i != j implies gi[i] != gi[j] by {
                if i < fi.len() && j < fi.len() {
                    assert(gi[i] == fi[i] && gi[j] == fi[j]);
                } else {
                    let k = if i < fi.len() { i } else { j };
                    assert(k < fi.len());
                    assert(rest.contains(f[k]));
                    let q = choose|q: int| 0 <= q < rest.len() && rest[q] == f[k];
                    assert(template_ids(rows)[q] == f[k].id@);
                    assert(template_ids(rows)[rows.len() - 1] == rows.last().id@);
                }
            }
        }
    }
}

/// An ordering of items that repeat nothing repeats nothing.
pub proof fn lemma_ordering_unique<T>(out: Seq<T>, src: Seq<T>, keys: Seq<Seq<crate::order::KeyView>>, descending: bool)
    requires
        is_ordering(out, src, keys, descending),
        keys.len() == src.len(),
        src.no_duplicates(),
    ensures
        out.no_duplicates(),
{
    let order = choose|order: Seq<usize>|
        #[trigger] crate::order::is_sorted_order(keys, order, descending) && out.len() == order.len() && forall|i: int|
            0 <= i < out.len() ==> out[i] == src[order[i] as int];
    assert forall|i: int, j: int| 0 <= i < out.len() && 0 <= j < out.len() && i != j implies out[i] != out[j] by {
        assert(order[i] != order[j]);
    }
}

/// The parent of a stored row, found by its id.
pub proof fn lemma_parent_of_row(rows: Seq<TemplateRow>, q: int)
    requires
        template_ids(rows).no_duplicates(),
        0 <= q < rows.len(),
    ensures
        parent_of(rows, rows[q].id@) == match rows[q].parent_template_id {
            Some(p) => Some(p@),
            None => None::<Seq<char>>,
        },
{
    assert(template_ids(rows)[q] == rows[q].id@);
    lemma_first_index_unique(template_ids(rows), q);
}

/// The parent of a stored template, found by its id.
pub proof fn lemma_parent_of_assembled(s: WorkStore, t: TaskTemplate)
    requires
        s.templates_unique(),
        s.assembled_at(t),
    ensures
        parent_of(s.templates@, t.id@) == match t.parent_template_id {
            Some(p) => Some(p@),
            None => None::<Seq<char>>,
        },
{
    let q = s.template_at(t.id@)->0;
    lemma_first_index_facts(template_ids(s.templates@), t.id@);
    assert(s.templates@[q] == t.row());
}

/// A visit of `tid` in the walk down from `root`: it is reached no later
/// than its place, and the children it adds to the stack were neither
/// reached nor stacked, unless parent links lead back to the root.
#[verifier::spinoff_prover]
#[verifier::rlimit(50)]
pub proof fn lemma_visit_fresh(
    s: WorkStore,
    root: Seq<char>,
    old_ordered: Seq<TaskTemplate>,
    ordered: Seq<TaskTemplate>,
    before_stack: Seq<String>,
    popped: Seq<String>,
    children: Seq<String>,
    stack: Seq<String>,
    tid: Seq<char>,
)
    requires
        s.templates_unique(),
        !leads_back(s.templates@, root),
        ordered.len() == old_ordered.len() + 1,
        forall|k: int| 0 <= k < old_ordered.len() ==> ordered[k] == old_ordered[k],
        ordered[ordered.len() - 1].id@ == tid,
        old_ordered.len() == 0 ==> texts(before_stack) == seq![root],
        old_ordered.len() > 0 ==> old_ordered[0].id@ == root,
        forall|k: int|
            0 < k < old_ordered.len() ==> exists|j: int| 0 <= j < k && parent_is(#[trigger] old_ordered[k], old_ordered[j].id@),
        forall|k: int| 0 <= k < old_ordered.len() ==> s.assembled_at(#[trigger] old_ordered[k]),
        forall|x: int|
            0 <= x < before_stack.len() && old_ordered.len() > 0 ==> child_of_reached(s.templates@, old_ordered, (#[trigger] before_stack[x])@),
        (tree_ids(old_ordered) + texts(before_stack)).no_duplicates(),
        forall|k: int| 0 <= k < old_ordered.len() ==> reaches_within(s.templates@, (#[trigger] old_ordered[k]).id@, root, k),
        old_ordered.len() + before_stack.len() <= s.templates@.len(),
        before_stack.len() == popped.len() + 1,
        forall|x: int| 0 <= x < popped.len() ==> popped[x] == before_stack[x],
        before_stack[popped.len() as int]@ == tid,
        stack == popped + children,
        is_ordering(
            texts(children),
            template_ids(s.templates@.filter(child_of(tid))),
            age_keys(s.templates@.filter(child_of(tid))),
            true,
        ),
    ensures
        (tree_ids(ordered) + texts(stack)).no_duplicates(),
        forall|k: int| 0 <= k < ordered.len() ==> reaches_within(s.templates@, (#[trigger] ordered[k]).id@, root, k),
{
    let rows = s.templates@;
    let n = old_ordered.len();
    let a = tree_ids(old_ordered);
    let b = texts(before_stack);
    let p = texts(popped);
    let c = texts(children);
    let f = rows.filter(child_of(tid));
    lemma_concat_no_dups(a, b);
    assert(b =~= p.push(tid));
    assert(b[popped.len() as int] == tid);
    // how far `tid` is below the root
    let d_tid: nat = if n == 0 {
        assert(b.len() == 1);
        assert(tid == root);
        assert(ancestor(rows, tid, 0) == Some(root));
        0
    } else {
        assert(child_of_reached(rows, old_ordered, before_stack[popped.len() as int]@));
        let (j, q) = choose|j: int, q: int|
            #![trigger old_ordered[j], rows[q]]
            0 <= j < old_ordered.len() && 0 <= q < rows.len() && rows[q].id@ == before_stack[popped.len() as int]@
                && child_of(old_ordered[j].id@)(rows[q]);
        lemma_parent_of_row(rows, q);
        assert(reaches_within(rows, old_ordered[j].id@, root, j));
        let d = choose|d: nat| d <= j && #[trigger] ancestor(rows, old_ordered[j].id@, d) == Some(root);
        assert(ancestor(rows, tid, d + 1) == ancestor(rows, old_ordered[j].id@, d));
        d + 1
    };
    assert(d_tid <= n && ancestor(rows, tid, d_tid) == Some(root));
    assert forall|k: int| 0 <= k < ordered.len() implies reaches_within(rows, (#[trigger] ordered[k]).id@, root, k) by {
        if k < n {
            assert(ordered[k] == old_ordered[k]);
        } else {
            assert(ancestor(rows, ordered[k].id@, d_tid) == Some(root));
        }
    }
    // every child has `tid` as its parent
    lemma_filter_ids_unique(rows, child_of(tid));
    crate::store::lemma_filter_subset(rows, child_of(tid));
    assert(age_keys(f).len() == template_ids(f).len());
    lemma_ordering_members(c, template_ids(f), age_keys(f), true);
    lemma_ordering_unique(c, template_ids(f), age_keys(f), true);
    broadcast use vstd::seq_lib::group_filter_ensures;
    assert forall|i: int| 0 <= i < c.len() implies parent_of(rows, #[trigger] c[i]) == Some(tid) by {
        assert(template_ids(f).contains(c[i]));
        let w = choose|w: int| 0 <= w < template_ids(f).len() && template_ids(f)[w] == c[i];
        assert(child_of(tid)(f[w]));
        assert(rows.contains(f[w]));
        let q = choose|q: int| 0 <= q < rows.len() && rows[q] == f[w];
        lemma_parent_of_row(rows, q);
    }
    // a child that was reached or stacked already would make `tid` reached
    assert forall|i: int, k: int| 0 <= i < c.len() && 0 <= k < a.len() implies a[k] != c[i] by {
        if a[k] == c[i] {
            assert(parent_of(rows, c[i]) == Some(tid));
            if k == 0 {
                assert(old_ordered[0].id@ == root);
                assert(ancestor(rows, root, d_tid + 1) == ancestor(rows, tid, d_tid));
                assert(1 <= d_tid + 1 <= rows.len());
                assert(leads_back(rows, root));
            } else {
                let j = choose|j: int| 0 <= j < k && parent_is(#[trigger] old_ordered[k], old_ordered[j].id@);
                lemma_parent_of_assembled(s, old_ordered[k]);
                assert(a[j] == tid);
                assert(b[popped.len() as int] == tid);
            }
        }
    }
    assert forall|i: int, x: int| 0 <= i < c.len() && 0 <= x < p.len() implies p[x] != c[i] by {
        if p[x] == c[i] {
            assert(n > 0);
            assert(popped[x] == before_stack[x]);
            assert(child_of_reached(rows, old_ordered, before_stack[x]@));
            let (j, q) = choose|j: int, q: int|
                #![trigger old_ordered[j], rows[q]]
                0 <= j < old_ordered.len() && 0 <= q < rows.len() && rows[q].id@ == before_stack[x]@
                    && child_of(old_ordered[j].id@)(rows[q]);
            lemma_parent_of_row(rows, q);
            assert(a[j] == tid);
            assert(b[popped.len() as int] == tid);
        }
    }
    assert forall|i: int| 0 <= i < c.len() implies c[i] != tid by {
        if c[i] == tid {
            lemma_ancestor_self_loop(rows, tid, d_tid);
            assert(tid == root);
            lemma_ancestor_self_loop(rows, tid, 1);
            assert(leads_back(rows, root));
        }
    }
    // put the pieces together
    lemma_concat_no_dups(p, seq![tid]);
    assert(p.push(tid) =~= p + seq![tid]);
    let a2 = a.push(tid);
    let s2 = p + c;
    assert(tree_ids(ordered) =~= a2);
    assert(texts(stack) =~= s2);
    lemma_concat_no_dups(a, seq![tid]);
    assert(a.push(tid) =~= a + seq![tid]);
    lemma_concat_no_dups(p, c);
    assert forall|i: int, j: int| 0 <= i < a2.len() && 0 <= j < s2.len() implies a2[i] != s2[j] by {
        if i < a.len() {
            if j < p.len() {
                assert(b[j] == p[j]);
            } else {
                assert(s2[j] == c[j - p.len()]);
            }
        } else {
            if j < p.len() {
                assert(b[j] == p[j]);
            } else {
                assert(s2[j] == c[j - p.len()]);
            }
        }
    }
    lemma_concat_no_dups(a2, s2);
}

/// What the walk has reached and stacked is at most the whole table.
pub proof fn lemma_walk_bound(s: WorkStore, ordered: Seq<TaskTemplate>, stack: Seq<String>)
    requires
        (tree_ids(ordered) + texts(stack)).no_duplicates(),
        ordered.len() > 0,
        forall|k: int| 0 <= k < ordered.len() ==> s.assembled_at(#[trigger] ordered[k]),
        forall|x: int| 0 <= x < stack.len() ==> child_of_reached(s.templates@, ordered, (#[trigger] stack[x])@),
    ensures
        ordered.len() + stack.len() <= s.templates@.len(),
{
    let all = tree_ids(ordered) + texts(stack);
    let ids = template_ids(s.templates@);
    assert forall|i: int| 0 <= i < all.len() implies ids.contains(#[trigger] all[i]) by {
        if i < ordered.len() {
            assert(all[i] == ordered[i].id@);
            assert(s.assembled_at(ordered[i]));
            lemma_first_index_facts(ids, ordered[i].id@);
        } else {
            let x = i - ordered.len();
            assert(all[i] == stack[x]@);
            assert(child_of_reached(s.templates@, ordered, stack[x]@));
            let (j, q) = choose|j: int, q: int|
                #![trigger ordered[j], s.templates@[q]]
                0 <= j < ordered.len() && 0 <= q < s.templates@.len() && s.templates@[q].id@ == stack[x]@
                    && child_of(ordered[j].id@)(s.templates@[q]);
            assert(ids[q] == stack[x]@);
        }
    }
    lemma_unique_within(all, ids);
}

impl WorkStore {
    /// Whether following parent links up from the template `root` leads
    /// back to it.
    pub fn leads_back_to(&self, root: &str) -> (b: bool)
        ensures
            b == leads_back(self.templates@, root@),
    {
        let ghost rows = self.templates@;
        let mut cur: String = crate::text::owned(root);
        let mut n: usize = 0;
        while n < self.templates.len()
            invariant
                rows == self.templates@,
                n <= self.templates.len(),
                ancestor(rows, root@, n as nat) == Some(cur@),
                forall|m: nat| 1 <= m <= n ==> #[trigger] ancestor(rows, root@, m) != Some(root@),
            decreases self.templates.len() - n,
        {
            proof {
                lemma_ancestor_step(rows, root@, n as nat);
            }
            let next = match self.template_position(cur.as_str()) {
                Some(q) => match &self.templates[q].parent_template_id {
                    Some(p) => p.clone(),
                    None => {
                        proof {
                            assert forall|m: nat| 1 <= m <= rows.len() implies #[trigger] ancestor(rows, root@, m) != Some(root@) by {
                                if m > n {
                                    lemma_ancestor_stays_none(rows, root@, (n + 1) as nat, m);
                                }
                            }
                        }
                        return false;
                    },
                },
                None => {
                    proof {
                        assert forall|m: nat| 1 <= m <= rows.len() implies #[trigger] ancestor(rows, root@, m) != Some(root@) by {
                            if m > n {
                                lemma_ancestor_stays_none(rows, root@, (n + 1) as nat, m);
                            }
                        }
                    }
                    return false;
                },
            };
            n += 1;
            cur = next;
            if crate::text::str_equal(cur.as_str(), root) {
                assert(ancestor(rows, root@, n as nat) == Some(root@));
                return true;
            }
        }
        false
    }
}

} // verus!
