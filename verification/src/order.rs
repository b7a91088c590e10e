//! The order in which tasks are listed, and the stable sort that puts a
//! list of tasks into it.
//!
//! Tasks that are done come after all others. Among the rest, and among the
//! done ones, a lower priority number comes first. Where priorities are
//! equal the status decides: the status of higher rank comes first.

use core::cmp::Ordering;
use vstd::prelude::*;
use vstd::std_specs::cmp::{PartialEqSpecImpl, PartialOrdSpecImpl};
use crate::record::TodoView;
use crate::status::{TodoStatus, status_rank};
use crate::todo::Todo;

verus! {

/// What a list of tasks holds.
pub open spec fn views(v: Seq<Todo>) -> Seq<TodoView> {
    v.map_values(|t: Todo| t@)
}

/// Whether `a` is listed strictly before `b`, whatever their ids.
pub open spec fn lists_before(a: TodoView, b: TodoView) -> bool {
    let a_done = a.status == TodoStatus::Done;
    let b_done = b.status == TodoStatus::Done;
    if a_done != b_done {
        b_done
    } else if a.priority != b.priority {
        a.priority < b.priority
    } else {
        status_rank(a.status) > status_rank(b.status)
    }
}

/// Whether neither of `a` and `b` is listed before the other: they agree in
/// priority and status.
pub open spec fn same_place(a: TodoView, b: TodoView) -> bool {
    a.priority == b.priority && a.status == b.status
}

/// How `a` compares to `b`: tasks of one id are equal; otherwise the one
/// listed first is the lesser.
pub open spec fn compare(a: TodoView, b: TodoView) -> Ordering {
    if a.id == b.id {
        Ordering::Equal
    } else if lists_before(a, b) {
        Ordering::Less
    } else if lists_before(b, a) {
        Ordering::Greater
    } else {
        Ordering::Equal
    }
}

/// Whether no task of `s` stands behind one that is listed after it.
pub open spec fn in_listing_order(s: Seq<TodoView>) -> bool {
    forall|i: int, j: int| 0 <= i < j < s.len() ==> !lists_before(#[trigger] s[j], #[trigger] s[i])
}

/// The tasks of `s` that share the place of `x`, in the order they have in `s`.
pub open spec fn placed_like(s: Seq<TodoView>, x: TodoView) -> Seq<TodoView> {
    s.filter(|t: TodoView| same_place(t, x))
}

/// Whether `r` is `s` sorted stably: `r` is in listing order, and the tasks
/// that share a place are the same in both and keep the order they had in `s`.
pub open spec fn is_stable_sort_of(r: Seq<TodoView>, s: Seq<TodoView>) -> bool {
    &&& r.len() == s.len()
    &&& in_listing_order(r)
    &&& forall|x: TodoView| #[trigger] placed_like(r, x) == placed_like(s, x)
}

/// The listing order is a strict order whose ties are the tasks of one place.
pub proof fn lemma_listing_order(a: TodoView, b: TodoView, c: TodoView)
    ensures
        !lists_before(a, a),
        lists_before(a, b) ==> !lists_before(b, a),
        lists_before(a, b) && lists_before(b, c) ==> lists_before(a, c),
        same_place(a, b) <==> !lists_before(a, b) && !lists_before(b, a),
        lists_before(a, b) && !lists_before(c, b) ==> lists_before(a, c),
{
}

/// A task that is done is listed after one that is not, whatever their
/// priorities; only a shared id makes the two compare equal.
pub proof fn lemma_done_sorts_last(a: TodoView, b: TodoView)
    requires
        a.status == TodoStatus::Done,
        b.status != TodoStatus::Done,
    ensures
        lists_before(b, a),
        !lists_before(a, b),
        a.id != b.id ==> compare(a, b) == Ordering::Greater && compare(b, a) == Ordering::Less,
{
}

/// In a list in listing order, no done task stands before one that is not done.
pub proof fn lemma_sorted_done_last(s: Seq<TodoView>, i: int, j: int)
    requires
        in_listing_order(s),
        0 <= i < j < s.len(),
        s[i].status == TodoStatus::Done,
    ensures
        s[j].status == TodoStatus::Done,
{
    if s[j].status != TodoStatus::Done {
        lemma_done_sorts_last(s[i], s[j]);
    }
}

/// The last task of a list is the last of those that share its place.
proof fn lemma_last_of_place(r: Seq<TodoView>, x: TodoView)
    requires
        r.len() > 0,
    ensures
        same_place(r.last(), x) ==> placed_like(r, x) == placed_like(r.drop_last(), x).push(
            r.last(),
        ),
        !same_place(r.last(), x) ==> placed_like(r, x) == placed_like(r.drop_last(), x),
{
    let pred = |t: TodoView| same_place(t, x);
    assert(r.drop_last().push(r.last()) == r);
    r.drop_last().lemma_filter_push(r.last(), pred);
}

/// A task among those of a place is a task of the list.
proof fn lemma_placed_occurs(r: Seq<TodoView>, x: TodoView, i: int) -> (k: int)
    requires
        0 <= i < placed_like(r, x).len(),
    ensures
        0 <= k < r.len(),
        r[k] == placed_like(r, x)[i],
{
    let pred = |t: TodoView| same_place(t, x);
    let found = r.filter(pred)[i];
    assert(r.filter(pred).contains(found));
    r.lemma_filter_contains_rev(pred, found);
    choose|k: int| 0 <= k < r.len() && r[k] == found
}

/// There is one way only to sort a list stably: two lists in listing order
/// in which the tasks of each place are the same, in the same order, are
/// one list.
pub proof fn lemma_stable_sort_unique(r1: Seq<TodoView>, r2: Seq<TodoView>)
    requires
        r1.len() == r2.len(),
        in_listing_order(r1),
        in_listing_order(r2),
        forall|x: TodoView| #[trigger] placed_like(r1, x) == placed_like(r2, x),
    ensures
        r1 == r2,
    decreases r1.len(),
{
    if r1.len() > 0 {
        let a = r1.last();
        let b = r2.last();
        lemma_last_of_place(r1, a);
        lemma_last_of_place(r2, b);
        assert(placed_like(r1, a) == placed_like(r2, a));
        assert(placed_like(r1, b) == placed_like(r2, b));
        assert(placed_like(r1, a).last() == a);
        assert(placed_like(r2, b).last() == b);
        let k2 = lemma_placed_occurs(r2, a, placed_like(r2, a).len() - 1);
        let k1 = lemma_placed_occurs(r1, b, placed_like(r1, b).len() - 1);
        assert(r2[k2] == a);
        assert(r1[k1] == b);
        assert(!lists_before(b, a)) by {
            if k2 < r2.len() - 1 {
                assert(!lists_before(r2[r2.len() - 1], r2[k2]));
            }
        }
        assert(!lists_before(a, b)) by {
            if k1 < r1.len() - 1 {
                assert(!lists_before(r1[r1.len() - 1], r1[k1]));
            }
        }
        assert(same_place(b, a));
        lemma_last_of_place(r2, a);
        assert(placed_like(r2, a).last() == b);
        assert(a == b);
        let d1 = r1.drop_last();
        let d2 = r2.drop_last();
        assert forall|x: TodoView| #[trigger] placed_like(d1, x) == placed_like(d2, x) by {
            lemma_last_of_place(r1, x);
            lemma_last_of_place(r2, x);
            assert(placed_like(r1, x) == placed_like(r2, x));
            if same_place(a, x) {
                assert(placed_like(d1, x).push(a).drop_last() == placed_like(d1, x));
                assert(placed_like(d2, x).push(a).drop_last() == placed_like(d2, x));
            }
        }
        assert(in_listing_order(d1)) by {
            assert forall|i: int, j: int| 0 <= i < j < d1.len() implies !lists_before(
                #[trigger] d1[j],
                #[trigger] d1[i],
            ) by {
                assert(d1[i] == r1[i] && d1[j] == r1[j]);
            }
        }
        assert(in_listing_order(d2)) by {
            assert forall|i: int, j: int| 0 <= i < j < d2.len() implies !lists_before(
                #[trigger] d2[j],
                #[trigger] d2[i],
            ) by {
                assert(d2[i] == r2[i] && d2[j] == r2[j]);
            }
        }
        lemma_stable_sort_unique(d1, d2);
        assert(r1 == d1.push(a));
        assert(r2 == d2.push(b));
    }
}

/// Leaving out tasks of other places does not change how often a task occurs.
proof fn lemma_placed_count(s: Seq<TodoView>, x: TodoView, e: TodoView)
    requires
        same_place(e, x),
    ensures
        placed_like(s, x).to_multiset().count(e) == s.to_multiset().count(e),
    decreases s.len(),
{
    broadcast use vstd::seq_lib::group_to_multiset_ensures;

    if s.len() == 0 {
        Seq::<TodoView>::empty().lemma_filter_len(|t: TodoView| same_place(t, x));
        assert(placed_like(s, x) == s);
    } else {
        lemma_placed_count(s.drop_last(), x, e);
        lemma_last_of_place(s, x);
        assert(s.drop_last().push(s.last()) == s);
    }
}

/// A stable sort permutes: every task occurs in the sorted list as often as
/// in the list that was sorted.
pub proof fn lemma_stable_sort_permutes(r: Seq<TodoView>, s: Seq<TodoView>)
    requires
        is_stable_sort_of(r, s),
    ensures
        r.to_multiset() == s.to_multiset(),
{
    assert forall|e: TodoView| r.to_multiset().count(e) == s.to_multiset().count(e) by {
        lemma_placed_count(r, e, e);
        lemma_placed_count(s, e, e);
        assert(placed_like(r, e) == placed_like(s, e));
    }
    assert(r.to_multiset() =~= s.to_multiset());
}

/// The list `s` in listing order, sorted stably.
pub open spec fn sorted(s: Seq<TodoView>) -> Seq<TodoView> {
    choose|r: Seq<TodoView>| is_stable_sort_of(r, s)
}

/// Whatever sorts `s` stably gives `sorted(s)`.
pub proof fn lemma_sorted(r: Seq<TodoView>, s: Seq<TodoView>)
    requires
        is_stable_sort_of(r, s),
    ensures
        r == sorted(s),
        is_stable_sort_of(sorted(s), s),
{
    let c = sorted(s);
    assert forall|x: TodoView| #[trigger] placed_like(r, x) == placed_like(c, x) by {
        assert(placed_like(r, x) == placed_like(s, x));
        assert(placed_like(c, x) == placed_like(s, x));
    }
    lemma_stable_sort_unique(r, c);
}

/// Putting `t` behind the last task that is not listed after it keeps a
/// stable sort stable.
proof fn lemma_insert_sorted(out: Seq<TodoView>, src: Seq<TodoView>, t: TodoView, p: int)
    requires
        is_stable_sort_of(out, src),
        0 <= p <= out.len(),
        forall|k: int| 0 <= k < p ==> !lists_before(t, #[trigger] out[k]),
        p < out.len() ==> lists_before(t, out[p]),
    ensures
        is_stable_sort_of(out.insert(p, t), src.push(t)),
{
    let r = out.insert(p, t);
    out.insert_ensures(p, t);
    assert forall|k: int| p <= k < out.len() implies lists_before(t, #[trigger] out[k]) by {
        if k > p {
            assert(!lists_before(out[k], out[p]));
        }
    }
    assert forall|i: int, j: int| 0 <= i < j < r.len() implies !lists_before(
        #[trigger] r[j],
        #[trigger] r[i],
    ) by {
        if j < p {
            assert(r[i] == out[i] && r[j] == out[j]);
        } else if j == p {
            assert(r[i] == out[i]);
        } else if i < p {
            assert(r[i] == out[i] && r[j] == out[j - 1]);
        } else if i == p {
            assert(r[j] == out[j - 1]);
        } else {
            assert(r[i] == out[i - 1] && r[j] == out[j - 1]);
        }
    }
    assert forall|x: TodoView| #[trigger] placed_like(r, x) == placed_like(src.push(t), x) by {
        let pred = |u: TodoView| same_place(u, x);
        let head = out.subrange(0, p);
        let tail = out.subrange(p, out.len() as int);
        assert(out == head + tail);
        Seq::filter_distributes_over_add(head, tail, pred);
        Seq::filter_distributes_over_add(head.push(t), tail, pred);
        head.lemma_filter_push(t, pred);
        src.lemma_filter_push(t, pred);
        assert(placed_like(out, x) == placed_like(src, x));
        if same_place(t, x) {
            assert(tail.all(|u: TodoView| !pred(u))) by {
                assert forall|k: int| 0 <= k < tail.len() implies !pred(#[trigger] tail[k]) by {
                    assert(tail[k] == out[p + k]);
                    assert(lists_before(t, out[p + k]));
                }
            }
            tail.lemma_all_neg_filter_empty(pred);
            assert(tail.filter(pred) == Seq::<TodoView>::empty());
            assert(head.filter(pred) + tail.filter(pred) == head.filter(pred));
            assert(head.filter(pred).push(t) + tail.filter(pred) == head.filter(pred).push(t));
        }
    }
}

impl Todo {
    /// Whether `self` is listed strictly before `other`, whatever their ids.
    pub fn lists_before(&self, other: &Todo) -> (b: bool)
        ensures
            b == lists_before(self@, other@),
    {
        if self.done() != other.done() {
            other.done()
        } else if self.get_priority() != other.get_priority() {
            self.get_priority() < other.get_priority()
        } else {
            self.get_status().rank() > other.get_status().rank()
        }
    }

    /// Compares two tasks: equal where the ids are equal, else by the
    /// listing order.
    pub fn cmp(&self, other: &Todo) -> (o: Ordering)
        ensures
            o == compare(self@, other@),
    {
        if self.get_id() == other.get_id() {
            return Ordering::Equal;
        }
        if self.lists_before(other) {
            Ordering::Less
        } else if other.lists_before(self) {
            Ordering::Greater
        } else {
            Ordering::Equal
        }
    }
}

impl PartialEq for Todo {
    /// Two tasks are equal where their ids are.
    fn eq(&self, other: &Todo) -> (r: bool) {
        self.get_id() == other.get_id()
    }
}

impl PartialEqSpecImpl for Todo {
    open spec fn obeys_eq_spec() -> bool {
        true
    }

    open spec fn eq_spec(&self, other: &Todo) -> bool {
        self@.id == other@.id
    }
}

impl Eq for Todo {

}

impl PartialOrd for Todo {
    fn partial_cmp(&self, other: &Todo) -> (r: Option<Ordering>) {
        Some(self.cmp(other))
    }
}

impl PartialOrdSpecImpl for Todo {
    open spec fn obeys_partial_cmp_spec() -> bool {
        true
    }

    open spec fn partial_cmp_spec(&self, other: &Todo) -> Option<Ordering> {
        Some(compare(self@, other@))
    }
}

/// Sorts `todos` into listing order. The sort is stable: tasks that share a
/// place keep the order they came in.
pub fn sort_todos(todos: &mut Vec<Todo>)
    ensures
        is_stable_sort_of(views(final(todos)@), views(old(todos)@)),
        views(final(todos)@) == sorted(views(old(todos)@)),
{
    let ghost src = views(todos@);
    let mut out: Vec<Todo> = Vec::new();
    let mut i: usize = 0;
    assert(src.take(0) == Seq::<TodoView>::empty());
    assert(views(out@) == Seq::<TodoView>::empty());
    assert forall|x: TodoView| #[trigger]
        placed_like(views(out@), x) == placed_like(src.take(0), x) by {}
    while i < todos.len()
        invariant
            i <= todos.len(),
            src == views(todos@),
            is_stable_sort_of(views(out@), src.take(i as int)),
        decreases todos.len() - i,
    {
        let t = todos[i].clone();
        let mut p: usize = 0;
        while p < out.len() && !t.lists_before(&out[p])
            invariant
                p <= out.len(),
                forall|k: int| 0 <= k < p ==> !lists_before(t@, #[trigger] views(out@)[k]),
            decreases out.len() - p,
        {
            p += 1;
        }
        proof {
            lemma_insert_sorted(views(out@), src.take(i as int), t@, p as int);
            assert(views(out@.insert(p as int, t)) == views(out@).insert(p as int, t@));
            assert(src.take(i + 1) == src.take(i as int).push(t@));
        }
        out.insert(p, t);
        i += 1;
    }
    assert(src.take(i as int) == src);
    proof {
        lemma_sorted(views(out@), src);
    }
    *todos = out;
}

} // verus!
