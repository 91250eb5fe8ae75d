//! Ordering of listed records: sort keys made of absent values, numbers and
//! text, compared column by column, as the store's listings order them.

use vstd::prelude::*;

verus! {

/// One column of a sort key.  An absent value sorts before any number, and a
/// number before any text.
pub enum KeyPart {
    Absent,
    Num(u64),
    Text(Vec<char>),
}

/// The mathematical value of a key column.
pub enum KeyView {
    Absent,
    Num(int),
    Text(Seq<char>),
}

impl View for KeyPart {
    type V = KeyView;

    open spec fn view(&self) -> KeyView {
        match self {
            KeyPart::Absent => KeyView::Absent,
            KeyPart::Num(n) => KeyView::Num(*n as int),
            KeyPart::Text(t) => KeyView::Text(t@),
        }
    }
}

/// Strict lexicographic order on texts, character by character.
pub open spec fn text_lt(a: Seq<char>, b: Seq<char>) -> bool
    decreases a.len(),
{
    if a.len() == 0 {
        b.len() > 0
    } else if b.len() == 0 {
        false
    } else if a[0] == b[0] {
        text_lt(a.drop_first(), b.drop_first())
    } else {
        (a[0] as u32) < (b[0] as u32)
    }
}

/// Strict order on one key column.
pub open spec fn part_lt(a: KeyView, b: KeyView) -> bool {
    match (a, b) {
        (KeyView::Absent, KeyView::Absent) => false,
        (KeyView::Absent, _) => true,
        (KeyView::Num(x), KeyView::Num(y)) => x < y,
        (KeyView::Num(_), KeyView::Text(_)) => true,
        (KeyView::Text(x), KeyView::Text(y)) => text_lt(x, y),
        _ => false,
    }
}

/// Strict lexicographic order on keys, column by column.
pub open spec fn key_lt(a: Seq<KeyView>, b: Seq<KeyView>) -> bool
    decreases a.len(),
{
    if a.len() == 0 {
        b.len() > 0
    } else if b.len() == 0 {
        false
    } else if a[0] == b[0] {
        key_lt(a.drop_first(), b.drop_first())
    } else {
        part_lt(a[0], b[0])
    }
}

/// Whether `a` must come strictly before `b` in a listing that is ascending
/// (or, with `descending`, descending) by key.
pub open spec fn comes_before(a: Seq<KeyView>, b: Seq<KeyView>, descending: bool) -> bool {
    if descending {
        key_lt(b, a)
    } else {
        key_lt(a, b)
    }
}

pub open spec fn key_view(k: Vec<KeyPart>) -> Seq<KeyView> {
    k@.map_values(|p: KeyPart| p@)
}

/// Some position of `order` holds `x`.
pub open spec fn lists_index(order: Seq<usize>, x: int) -> bool {
    exists|i: int| 0 <= i < order.len() && order[i] == x
}

/// `order` lists every index of `keys` exactly once, in key order.
pub open spec fn is_sorted_order(keys: Seq<Seq<KeyView>>, order: Seq<usize>, descending: bool) -> bool {
    &&& order.len() == keys.len()
    &&& order.no_duplicates()
    &&& forall|i: int| 0 <= i < order.len() ==> order[i] < keys.len()
    &&& forall|x: int| 0 <= x < keys.len() ==> #[trigger] lists_index(order, x)
    &&& forall|i: int, j: int|
        0 <= i < j < order.len() ==> !comes_before(
            #[trigger] keys[order[j] as int],
            #[trigger] keys[order[i] as int],
            descending,
        )
}

pub proof fn lemma_text_lt_asym(a: Seq<char>, b: Seq<char>)
    ensures
        !(text_lt(a, b) && text_lt(b, a)),
    decreases a.len(),
{
    if a.len() > 0 && b.len() > 0 && a[0] == b[0] {
        lemma_text_lt_asym(a.drop_first(), b.drop_first());
    }
}

pub proof fn lemma_text_lt_trans(a: Seq<char>, b: Seq<char>, c: Seq<char>)
    requires
        text_lt(a, b),
        text_lt(b, c),
    ensures
        text_lt(a, c),
    decreases a.len(),
{
    if a.len() > 0 && b.len() > 0 && c.len() > 0 && a[0] == b[0] && b[0] == c[0] {
        lemma_text_lt_trans(a.drop_first(), b.drop_first(), c.drop_first());
    }
}

/// Two different texts are ordered one way or the other.
pub proof fn lemma_text_lt_total(a: Seq<char>, b: Seq<char>)
    ensures
        a != b ==> text_lt(a, b) || text_lt(b, a),
    decreases a.len(),
{
    if a.len() > 0 && b.len() > 0 && a[0] == b[0] {
        lemma_text_lt_total(a.drop_first(), b.drop_first());
        if a.drop_first() == b.drop_first() {
            assert(a =~= seq![a[0]] + a.drop_first());
            assert(b =~= seq![b[0]] + b.drop_first());
        }
    } else if a.len() > 0 && b.len() > 0 {
        let x = a[0];
        let y = b[0];
        vstd::utf8::char_u32_cast(x, x as u32);
        vstd::utf8::char_u32_cast(y, y as u32);
        assert((x as u32) != (y as u32));
    } else if a.len() == 0 && b.len() == 0 {
        assert(a =~= b);
    }
}

proof fn lemma_part_lt_asym(a: KeyView, b: KeyView)
    ensures
        !(part_lt(a, b) && part_lt(b, a)),
        !part_lt(a, a),
{
    if let (KeyView::Text(x), KeyView::Text(y)) = (a, b) {
        lemma_text_lt_asym(x, y);
    }
    if let KeyView::Text(x) = a {
        lemma_text_lt_asym(x, x);
    }
}

proof fn lemma_part_lt_trans(a: KeyView, b: KeyView, c: KeyView)
    requires
        part_lt(a, b),
        part_lt(b, c),
    ensures
        part_lt(a, c),
{
    if let (KeyView::Text(x), KeyView::Text(y), KeyView::Text(z)) = (a, b, c) {
        lemma_text_lt_trans(x, y, z);
    }
}

pub proof fn lemma_key_lt_asym(a: Seq<KeyView>, b: Seq<KeyView>)
    ensures
        !(key_lt(a, b) && key_lt(b, a)),
    decreases a.len(),
{
    if a.len() > 0 && b.len() > 0 {
        if a[0] == b[0] {
            lemma_key_lt_asym(a.drop_first(), b.drop_first());
        } else {
            lemma_part_lt_asym(a[0], b[0]);
        }
    }
}

pub proof fn lemma_key_lt_trans(a: Seq<KeyView>, b: Seq<KeyView>, c: Seq<KeyView>)
    requires
        key_lt(a, b),
        key_lt(b, c),
    ensures
        key_lt(a, c),
    decreases a.len(),
{
    if a.len() > 0 && b.len() > 0 && c.len() > 0 {
        if a[0] == b[0] && b[0] == c[0] {
            lemma_key_lt_trans(a.drop_first(), b.drop_first(), c.drop_first());
        } else if a[0] == b[0] {
        } else if b[0] == c[0] {
        } else {
            lemma_part_lt_trans(a[0], b[0], c[0]);
            lemma_part_lt_asym(a[0], b[0]);
            if a[0] == c[0] {
                lemma_part_lt_asym(a[0], b[0]);
            }
        }
    }
}


proof fn lemma_text_lt_step(a: Seq<char>, b: Seq<char>, i: int)
    requires
        0 <= i < a.len(),
        i < b.len(),
        a[i] == b[i],
    ensures
        text_lt(a.skip(i), b.skip(i)) == text_lt(a.skip(i + 1), b.skip(i + 1)),
{
    assert(a.skip(i).drop_first() =~= a.skip(i + 1));
    assert(b.skip(i).drop_first() =~= b.skip(i + 1));
}

/// Exec form of `text_lt`.
pub fn text_less(a: &Vec<char>, b: &Vec<char>) -> (r: bool)
    ensures
        r == text_lt(a@, b@),
{
    let mut i: usize = 0;
    assert(a@.skip(0) =~= a@);
    assert(b@.skip(0) =~= b@);
    while i < a.len() && i < b.len() && a[i] == b[i]
        invariant
            i <= a.len(),
            i <= b.len(),
            text_lt(a@, b@) == text_lt(a@.skip(i as int), b@.skip(i as int)),
        decreases a.len() - i,
    {
        proof {
            lemma_text_lt_step(a@, b@, i as int);
        }
        i += 1;
    }
    if i == a.len() {
        i < b.len()
    } else if i == b.len() {
        false
    } else {
        (a[i] as u32) < (b[i] as u32)
    }
}

/// Exec equality of texts.
pub fn text_equal(a: &Vec<char>, b: &Vec<char>) -> (r: bool)
    ensures
        r == (a@ == b@),
{
    if a.len() != b.len() {
        return false;
    }
    let mut i: usize = 0;
    while i < a.len()
        invariant
            a.len() == b.len(),
            i <= a.len(),
            forall|j: int| 0 <= j < i ==> a@[j] == b@[j],
        decreases a.len() - i,
    {
        if a[i] != b[i] {
            return false;
        }
        i += 1;
    }
    assert(a@ =~= b@);
    true
}

fn part_equal(a: &KeyPart, b: &KeyPart) -> (r: bool)
    ensures
        r == (a@ == b@),
{
    match (a, b) {
        (KeyPart::Absent, KeyPart::Absent) => true,
        (KeyPart::Num(x), KeyPart::Num(y)) => *x == *y,
        (KeyPart::Text(x), KeyPart::Text(y)) => text_equal(x, y),
        _ => false,
    }
}

fn part_less(a: &KeyPart, b: &KeyPart) -> (r: bool)
    ensures
        r == part_lt(a@, b@),
{
    match (a, b) {
        (KeyPart::Absent, KeyPart::Absent) => false,
        (KeyPart::Absent, _) => true,
        (KeyPart::Num(x), KeyPart::Num(y)) => *x < *y,
        (KeyPart::Num(_), KeyPart::Text(_)) => true,
        (KeyPart::Text(x), KeyPart::Text(y)) => text_less(x, y),
        _ => false,
    }
}

proof fn lemma_key_lt_step(a: Seq<KeyView>, b: Seq<KeyView>, i: int)
    requires
        0 <= i < a.len(),
        i < b.len(),
        a[i] == b[i],
    ensures
        key_lt(a.skip(i), b.skip(i)) == key_lt(a.skip(i + 1), b.skip(i + 1)),
{
    assert(a.skip(i).drop_first() =~= a.skip(i + 1));
    assert(b.skip(i).drop_first() =~= b.skip(i + 1));
}

/// Exec form of `key_lt`.
pub fn key_less(a: &Vec<KeyPart>, b: &Vec<KeyPart>) -> (r: bool)
    ensures
        r == key_lt(key_view(*a), key_view(*b)),
{
    let ghost av = key_view(*a);
    let ghost bv = key_view(*b);
    let mut i: usize = 0;
    assert(av.skip(0) =~= av);
    assert(bv.skip(0) =~= bv);
    while i < a.len() && i < b.len() && part_equal(&a[i], &b[i])
        invariant
            av == key_view(*a),
            bv == key_view(*b),
            i <= a.len(),
            i <= b.len(),
            key_lt(av, bv) == key_lt(av.skip(i as int), bv.skip(i as int)),
        decreases a.len() - i,
    {
        proof {
            lemma_key_lt_step(av, bv, i as int);
        }
        i += 1;
    }
    if i == a.len() {
        i < b.len()
    } else if i == b.len() {
        false
    } else {
        assert(av.skip(i as int)[0] == av[i as int]);
        assert(bv.skip(i as int)[0] == bv[i as int]);
        part_less(&a[i], &b[i])
    }
}

fn before(a: &Vec<KeyPart>, b: &Vec<KeyPart>, descending: bool) -> (r: bool)
    ensures
        r == comes_before(key_view(*a), key_view(*b), descending),
{
    if descending {
        key_less(b, a)
    } else {
        key_less(a, b)
    }
}

proof fn lemma_before_asym_trans(a: Seq<KeyView>, b: Seq<KeyView>, c: Seq<KeyView>, d: bool)
    ensures
        !(comes_before(a, b, d) && comes_before(b, a, d)),
        comes_before(a, b, d) && comes_before(b, c, d) ==> comes_before(a, c, d),
{
    lemma_key_lt_asym(a, b);
    if comes_before(a, b, d) && comes_before(b, c, d) {
        if d {
            lemma_key_lt_trans(c, b, a);
        } else {
            lemma_key_lt_trans(a, b, c);
        }
    }
}

pub open spec fn keys_view(keys: Seq<Vec<KeyPart>>) -> Seq<Seq<KeyView>> {
    keys.map_values(|k: Vec<KeyPart>| key_view(k))
}

/// The indices of `keys` in key order (ascending, or descending when asked);
/// equal keys keep their relative order.
pub fn sort_order(keys: &Vec<Vec<KeyPart>>, descending: bool) -> (order: Vec<usize>)
    ensures
        is_sorted_order(keys_view(keys@), order@, descending),
{
    let ghost kv = keys_view(keys@);
    let mut order: Vec<usize> = Vec::new();
    let mut i: usize = 0;
    while i < keys.len()
        invariant
            kv == keys_view(keys@),
            i <= keys.len(),
            order.len() == i,
            order@.no_duplicates(),
            forall|x: int| 0 <= x < order.len() ==> order@[x] < i,
            forall|x: int| 0 <= x < i ==> #[trigger] lists_index(order@, x),
            forall|x: int, y: int|
                0 <= x < y < order.len() ==> !comes_before(
                    #[trigger] kv[order@[y] as int],
                    #[trigger] kv[order@[x] as int],
                    descending,
                ),
        decreases keys.len() - i,
    {
        let mut pos: usize = 0;
        while pos < order.len() && !before(&keys[i], &keys[order[pos]], descending)
            invariant
                kv == keys_view(keys@),
                i < keys.len(),
                pos <= order.len(),
                forall|x: int| 0 <= x < order.len() ==> order@[x] < i,
                forall|x: int| 0 <= x < pos ==> !comes_before(kv[i as int], #[trigger] kv[order@[x] as int], descending),
            decreases order.len() - pos,
        {
            pos += 1;
        }
        let ghost old_order = order@;
        order.insert(pos, i);
        proof {
            assert forall|x: int| 0 <= x <= i implies #[trigger] lists_index(order@, x) by {
                if x == i {
                    assert(order@[pos as int] == x);
                } else {
                    assert(lists_index(old_order, x));
                    let y0 = choose|y: int| 0 <= y < old_order.len() && old_order[y] == x;
                    if y0 < pos {
                        assert(order@[y0] == x);
                    } else {
                        assert(order@[y0 + 1] == x);
                    }
                }
            }
            assert forall|x: int, y: int|
                0 <= x < y < order.len() implies !comes_before(
                    #[trigger] kv[order@[y] as int],
                    #[trigger] kv[order@[x] as int],
                    descending,
                ) by {
                if y < pos {
                } else if y == pos {
                    assert(order@[x] == old_order[x]);
                } else if x == pos {
                    assert(order@[y] == old_order[y - 1]);
                    assert(comes_before(kv[i as int], kv[old_order[pos as int] as int], descending));
                    if x + 1 < y {
                        assert(!comes_before(kv[old_order[y - 1] as int], kv[old_order[pos as int] as int], descending));
                    }
                    lemma_before_asym_trans(
                        kv[old_order[y - 1] as int],
                        kv[i as int],
                        kv[old_order[pos as int] as int],
                        descending,
                    );
                } else if x < pos {
                    assert(order@[x] == old_order[x]);
                    assert(order@[y] == old_order[y - 1]);
                } else {
                    assert(order@[x] == old_order[x - 1]);
                    assert(order@[y] == old_order[y - 1]);
                }
            }
            assert forall|x: int, y: int| 0 <= x < y < order.len() implies order@[x] != order@[y] by {
                if x < pos && y == pos {
                    assert(order@[x] == old_order[x]);
                } else if x == pos {
                    assert(order@[y] == old_order[y - 1]);
                } else if x < pos && y < pos {
                } else if x < pos {
                    assert(order@[x] == old_order[x]);
                    assert(order@[y] == old_order[y - 1]);
                } else {
                    assert(order@[x] == old_order[x - 1]);
                    assert(order@[y] == old_order[y - 1]);
                }
            }
        }
        i += 1;
    }
    order
}


/// The key of a single text column.
pub open spec fn text_key(t: Seq<char>) -> Seq<KeyView> {
    seq![KeyView::Text(t)]
}

/// One text key per text.
pub open spec fn by_text(ts: Seq<Seq<char>>) -> Seq<Seq<KeyView>> {
    ts.map_values(|t: Seq<char>| text_key(t))
}

/// `out` lists every item of `src` once, ordered by the items' keys (`keys[i]`
/// is the key of `src[i]`); items with equal keys may come in either order.
pub open spec fn is_ordering<T>(
    out: Seq<T>,
    src: Seq<T>,
    keys: Seq<Seq<KeyView>>,
    descending: bool,
) -> bool {
    exists|order: Seq<usize>|
        #[trigger] is_sorted_order(keys, order, descending) && out.len() == order.len() && forall|
            i: int,
        |
            0 <= i < out.len() ==> out[i] == src[order[i] as int]
}

/// The strings of `v` in text order.
pub fn sort_strings(v: &Vec<String>) -> (r: Vec<String>)
    ensures
        is_ordering(
            crate::text::texts(r@),
            crate::text::texts(v@),
            by_text(crate::text::texts(v@)),
            false,
        ),
{
    let ghost src = crate::text::texts(v@);
    let mut keys: Vec<Vec<KeyPart>> = Vec::new();
    let mut i: usize = 0;
    while i < v.len()
        invariant
            i <= v.len(),
            keys.len() == i,
            src == crate::text::texts(v@),
            forall|j: int| 0 <= j < i ==> key_view(#[trigger] keys@[j]) == text_key(src[j]),
        decreases v.len() - i,
    {
        let mut k: Vec<KeyPart> = Vec::new();
        k.push(KeyPart::Text(crate::text::chars_of(v[i].as_str())));
        assert(key_view(k) =~= text_key(src[i as int]));
        keys.push(k);
        i += 1;
    }
    assert(keys_view(keys@) =~= by_text(src));
    let order = sort_order(&keys, false);
    let mut r: Vec<String> = Vec::new();
    let mut j: usize = 0;
    while j < order.len()
        invariant
            j <= order.len(),
            r.len() == j,
            order.len() == v.len(),
            src == crate::text::texts(v@),
            forall|x: int| 0 <= x < order.len() ==> order@[x] < v.len(),
            forall|x: int| 0 <= x < j ==> r@[x]@ == src[order@[x] as int],
        decreases order.len() - j,
    {
        r.push(v[order[j]].clone());
        j += 1;
    }
    assert(is_sorted_order(by_text(src), order@, false));
    assert(crate::text::texts(r@).len() == order@.len());
    r
}


/// An ordering lists as many items as its source holds.
pub proof fn lemma_ordering_len<T>(out: Seq<T>, src: Seq<T>, keys: Seq<Seq<KeyView>>, descending: bool)
    requires
        is_ordering(out, src, keys, descending),
        keys.len() == src.len(),
    ensures
        out.len() == src.len(),
{
    let order = choose|order: Seq<usize>|
        #[trigger] is_sorted_order(keys, order, descending) && out.len() == order.len() && forall|i: int|
            0 <= i < out.len() ==> out[i] == src[order[i] as int];
}


/// The key `updated, created` by which listings put recent records first.
pub open spec fn recency_key(updated: Seq<char>, created: Seq<char>) -> Seq<KeyView> {
    seq![KeyView::Text(updated), KeyView::Text(created)]
}

pub fn recency_key_of(updated: &String, created: &String) -> (k: Vec<KeyPart>)
    ensures
        key_view(k) == recency_key(updated@, created@),
{
    let mut k: Vec<KeyPart> = Vec::new();
    k.push(KeyPart::Text(crate::text::chars_of(updated.as_str())));
    k.push(KeyPart::Text(crate::text::chars_of(created.as_str())));
    assert(key_view(k) =~= recency_key(updated@, created@));
    k
}

pub fn text_key_of(t: &String) -> (k: Vec<KeyPart>)
    ensures
        key_view(k) == text_key(t@),
{
    let mut k: Vec<KeyPart> = Vec::new();
    k.push(KeyPart::Text(crate::text::chars_of(t.as_str())));
    assert(key_view(k) =~= text_key(t@));
    k
}


/// An ordering holds exactly the items of its source.
pub proof fn lemma_ordering_members<T>(out: Seq<T>, src: Seq<T>, keys: Seq<Seq<KeyView>>, descending: bool)
    requires
        is_ordering(out, src, keys, descending),
        keys.len() == src.len(),
    ensures
        out.len() == src.len(),
        forall|i: int| 0 <= i < out.len() ==> src.contains(#[trigger] out[i]),
        forall|j: int| 0 <= j < src.len() ==> out.contains(#[trigger] src[j]),
{
    let order = choose|order: Seq<usize>|
        #[trigger] is_sorted_order(keys, order, descending) && out.len() == order.len() && forall|i: int|
            0 <= i < out.len() ==> out[i] == src[order[i] as int];
    assert forall|i: int| 0 <= i < out.len() implies src.contains(#[trigger] out[i]) by {
        assert(src[order[i] as int] == out[i]);
    }
    assert forall|j: int| 0 <= j < src.len() implies out.contains(#[trigger] src[j]) by {
        assert(lists_index(order, j));
        let i = choose|i: int| 0 <= i < order.len() && order[i] == j;
        assert(out[i] == src[j]);
    }
}

/// Two sorted orders of the same keys, where any two keys are ordered one
/// way or the other, agree on their first `n` places.
proof fn lemma_sorted_orders_agree(keys: Seq<Seq<KeyView>>, order1: Seq<usize>, order2: Seq<usize>, descending: bool, n: int)
    requires
        is_sorted_order(keys, order1, descending),
        is_sorted_order(keys, order2, descending),
        forall|a: int, b: int|
            0 <= a < keys.len() && 0 <= b < keys.len() && a != b ==> comes_before(#[trigger] keys[a], #[trigger] keys[b], descending)
                || comes_before(keys[b], keys[a], descending),
        0 <= n <= order1.len(),
    ensures
        forall|i: int| 0 <= i < n ==> order1[i] == order2[i],
    decreases n,
{
    if n > 0 {
        lemma_sorted_orders_agree(keys, order1, order2, descending, n - 1);
        let i = n - 1;
        let a = order1[i] as int;
        let b = order2[i] as int;
        if a != b {
            assert(lists_index(order2, a));
            let j = choose|j: int| 0 <= j < order2.len() && order2[j] == a;
            if j < i {
                assert(order1[j] == order2[j]);
            }
            assert(lists_index(order1, b));
            let j2 = choose|j2: int| 0 <= j2 < order1.len() && order1[j2] == b;
            if j2 < i {
                assert(order1[j2] == order2[j2]);
            }
            assert(!comes_before(keys[order1[j2] as int], keys[order1[i] as int], descending));
            assert(!comes_before(keys[order2[j] as int], keys[order2[i] as int], descending));
            assert(comes_before(keys[a], keys[b], descending) || comes_before(keys[b], keys[a], descending));
        }
    }
}

/// Two orderings of the same items, where any two keys are ordered one way
/// or the other, are the same.
pub proof fn lemma_ordering_determined<T>(o1: Seq<T>, o2: Seq<T>, src: Seq<T>, keys: Seq<Seq<KeyView>>, descending: bool)
    requires
        is_ordering(o1, src, keys, descending),
        is_ordering(o2, src, keys, descending),
        keys.len() == src.len(),
        forall|a: int, b: int|
            0 <= a < keys.len() && 0 <= b < keys.len() && a != b ==> comes_before(#[trigger] keys[a], #[trigger] keys[b], descending)
                || comes_before(keys[b], keys[a], descending),
    ensures
        o1 == o2,
{
    let order1 = choose|order: Seq<usize>|
        #[trigger] is_sorted_order(keys, order, descending) && o1.len() == order.len() && forall|i: int|
            0 <= i < o1.len() ==> o1[i] == src[order[i] as int];
    let order2 = choose|order: Seq<usize>|
        #[trigger] is_sorted_order(keys, order, descending) && o2.len() == order.len() && forall|i: int|
            0 <= i < o2.len() ==> o2[i] == src[order[i] as int];
    lemma_sorted_orders_agree(keys, order1, order2, descending, order1.len() as int);
    assert(o1 =~= o2);
}

} // verus!
