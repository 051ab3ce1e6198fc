//! Stable ordering of positions along one axis.

use vstd::prelude::*;
use crate::geometry::Position;

verus! {

/// The coordinate by which positions are ordered.
#[derive(Debug, Clone, Copy, PartialEq, Eq, Structural)]
pub enum Axis {
    /// Left to right.
    X,
    /// Top to bottom.
    Y,
}

/// The coordinate of `p` along `axis`.
pub open spec fn key(p: Position, axis: Axis) -> int {
    match axis {
        Axis::X => p.x as int,
        Axis::Y => p.y as int,
    }
}

/// The positions whose coordinate along `axis` is `k`.
pub open spec fn has_key(axis: Axis, k: int) -> spec_fn(Position) -> bool {
    |p: Position| key(p, axis) == k
}

/// The coordinates along `axis` never decrease from one entry to the next.
pub open spec fn ordered(s: Seq<Position>, axis: Axis) -> bool {
    forall|i: int, j: int| 0 <= i <= j < s.len() ==> key(#[trigger] s[i], axis) <= key(#[trigger] s[j], axis)
}

/// `p` put into the ordered sequence `sorted`, behind every entry that is not greater.
pub open spec fn insert_by(sorted: Seq<Position>, p: Position, axis: Axis) -> Seq<Position>
    decreases sorted.len(),
{
    if sorted.len() == 0 {
        seq![p]
    } else if key(sorted.last(), axis) <= key(p, axis) {
        sorted.push(p)
    } else {
        insert_by(sorted.drop_last(), p, axis).push(sorted.last())
    }
}

/// The entries of `s` ordered along `axis`; entries with equal coordinates keep the order
/// they have in `s`.
pub open spec fn stable_sort(s: Seq<Position>, axis: Axis) -> Seq<Position>
    decreases s.len(),
{
    if s.len() == 0 {
        Seq::empty()
    } else {
        insert_by(stable_sort(s.drop_last(), axis), s.last(), axis)
    }
}

/// Inserting adds one entry, and every entry of the result is the new one or an old one.
pub proof fn lemma_insert_by_members(sorted: Seq<Position>, p: Position, axis: Axis)
    ensures
        insert_by(sorted, p, axis).len() == sorted.len() + 1,
        forall|i: int|
            0 <= i < insert_by(sorted, p, axis).len() ==> (#[trigger] insert_by(sorted, p, axis)[i])
                == p || sorted.contains(insert_by(sorted, p, axis)[i]),
        insert_by(sorted, p, axis).to_multiset() == sorted.to_multiset().insert(p),
    decreases sorted.len(),
{
    broadcast use vstd::seq_lib::to_multiset_build;

    let out = insert_by(sorted, p, axis);
    if sorted.len() == 0 {
        assert(seq![p] =~= sorted.push(p));
    } else if key(sorted.last(), axis) <= key(p, axis) {
        assert forall|i: int| 0 <= i < out.len() implies (#[trigger] out[i]) == p
            || sorted.contains(out[i]) by {
            if i < sorted.len() {
                assert(sorted[i] == out[i]);
            }
        }
    } else {
        let front = sorted.drop_last();
        let inner = insert_by(front, p, axis);
        lemma_insert_by_members(front, p, axis);
        assert(sorted =~= front.push(sorted.last()));
        assert forall|i: int| 0 <= i < out.len() implies (#[trigger] out[i]) == p
            || sorted.contains(out[i]) by {
            if i < inner.len() {
                assert(out[i] == inner[i]);
                if inner[i] != p {
                    let j = choose|j: int| 0 <= j < front.len() && front[j] == inner[i];
                    assert(sorted[j] == out[i]);
                }
            } else {
                assert(sorted[sorted.len() - 1] == out[i]);
            }
        }
        assert(out.to_multiset() =~= sorted.to_multiset().insert(p));
    }
}

/// Inserting into an ordered sequence leaves it ordered.
pub proof fn lemma_insert_by_ordered(sorted: Seq<Position>, p: Position, axis: Axis)
    requires
        ordered(sorted, axis),
    ensures
        ordered(insert_by(sorted, p, axis), axis),
    decreases sorted.len(),
{
    let out = insert_by(sorted, p, axis);
    if sorted.len() == 0 {
    } else if key(sorted.last(), axis) <= key(p, axis) {
        assert forall|i: int, j: int| 0 <= i <= j < out.len() implies key(#[trigger] out[i], axis)
            <= key(#[trigger] out[j], axis) by {
            if j < sorted.len() {
                assert(out[i] == sorted[i] && out[j] == sorted[j]);
            } else if i < sorted.len() {
                assert(out[i] == sorted[i]);
                assert(key(sorted[i], axis) <= key(sorted[sorted.len() - 1], axis));
            }
        }
    } else {
        let front = sorted.drop_last();
        let inner = insert_by(front, p, axis);
        assert(ordered(front, axis)) by {
            assert forall|i: int, j: int| 0 <= i <= j < front.len() implies key(
                #[trigger] front[i],
                axis,
            ) <= key(#[trigger] front[j], axis) by {
                assert(front[i] == sorted[i] && front[j] == sorted[j]);
            }
        }
        lemma_insert_by_ordered(front, p, axis);
        lemma_insert_by_members(front, p, axis);
        assert forall|i: int, j: int| 0 <= i <= j < out.len() implies key(#[trigger] out[i], axis)
            <= key(#[trigger] out[j], axis) by {
            if j < inner.len() {
                assert(out[i] == inner[i] && out[j] == inner[j]);
            } else if i < inner.len() {
                assert(out[i] == inner[i]);
                if inner[i] != p {
                    let k = choose|k: int| 0 <= k < front.len() && front[k] == inner[i];
                    assert(front[k] == sorted[k]);
                    assert(key(sorted[k], axis) <= key(sorted[sorted.len() - 1], axis));
                }
            }
        }
    }
}

/// Inserting `p` appends it to the entries that share its coordinate and leaves the entries
/// of every other coordinate as they were.
pub proof fn lemma_insert_by_keeps_ties(sorted: Seq<Position>, p: Position, axis: Axis, k: int)
    ensures
        insert_by(sorted, p, axis).filter(has_key(axis, k)) == if key(p, axis) == k {
            sorted.filter(has_key(axis, k)).push(p)
        } else {
            sorted.filter(has_key(axis, k))
        },
    decreases sorted.len(),
{
    broadcast use Seq::lemma_filter_push;

    let pred = has_key(axis, k);
    assert(pred(p) == (key(p, axis) == k));
    if sorted.len() == 0 {
        assert(seq![p] =~= sorted.push(p));
    } else if key(sorted.last(), axis) <= key(p, axis) {
    } else {
        let front = sorted.drop_last();
        let last = sorted.last();
        lemma_insert_by_keeps_ties(front, p, axis, k);
        assert(sorted =~= front.push(last));
        assert(pred(last) == (key(last, axis) == k));
    }
}

/// The stable ordering is ordered, has the entries of the input, each as often, and keeps
/// the entries of each coordinate in the order of the input.
pub proof fn lemma_stable_sort_properties(s: Seq<Position>, axis: Axis)
    ensures
        stable_sort(s, axis).len() == s.len(),
        ordered(stable_sort(s, axis), axis),
        stable_sort(s, axis).to_multiset() == s.to_multiset(),
        forall|k: int| #[trigger]
            stable_sort(s, axis).filter(has_key(axis, k)) == s.filter(has_key(axis, k)),
    decreases s.len(),
{
    broadcast use {vstd::seq_lib::to_multiset_build, Seq::lemma_filter_push};

    if s.len() == 0 {
        assert(s =~= Seq::empty());
    } else {
        let front = s.drop_last();
        let sorted = stable_sort(front, axis);
        lemma_stable_sort_properties(front, axis);
        lemma_insert_by_members(sorted, s.last(), axis);
        lemma_insert_by_ordered(sorted, s.last(), axis);
        assert(s =~= front.push(s.last()));
        assert forall|k: int| #[trigger]
            stable_sort(s, axis).filter(has_key(axis, k)) == s.filter(has_key(axis, k)) by {
            lemma_insert_by_keeps_ties(sorted, s.last(), axis, k);
            assert(sorted.filter(has_key(axis, k)) == front.filter(has_key(axis, k)));
            assert(has_key(axis, k)(s.last()) == (key(s.last(), axis) == k));
        }
    }
}

/// A sequence that is ordered already is its own stable ordering.
pub proof fn lemma_stable_sort_of_ordered(s: Seq<Position>, axis: Axis)
    requires
        ordered(s, axis),
    ensures
        stable_sort(s, axis) == s,
    decreases s.len(),
{
    if s.len() == 0 {
        assert(s =~= Seq::empty());
    } else {
        let front = s.drop_last();
        assert(ordered(front, axis)) by {
            assert forall|i: int, j: int| 0 <= i <= j < front.len() implies key(
                #[trigger] front[i],
                axis,
            ) <= key(#[trigger] front[j], axis) by {
                assert(front[i] == s[i] && front[j] == s[j]);
            }
        }
        lemma_stable_sort_of_ordered(front, axis);
        if front.len() > 0 {
            assert(front.last() == s[s.len() - 2]);
            assert(key(s[s.len() - 2], axis) <= key(s[s.len() - 1], axis));
        }
        assert(front.push(s.last()) =~= s);
        assert(seq![s.last()] =~= front.push(s.last()) || front.len() > 0);
    }
}

/// The place of `p` in the ordered sequence `sorted` is `at`, when everything from `at` on
/// is greater than `p` and the entry before `at`, if there is one, is not.
pub proof fn lemma_insert_by_at(sorted: Seq<Position>, p: Position, axis: Axis, at: int)
    requires
        0 <= at <= sorted.len(),
        forall|k: int| at <= k < sorted.len() ==> key(#[trigger] sorted[k], axis) > key(p, axis),
        at > 0 ==> key(sorted[at - 1], axis) <= key(p, axis),
    ensures
        insert_by(sorted, p, axis) == sorted.insert(at, p),
    decreases sorted.len(),
{
    if sorted.len() == 0 {
        assert(seq![p] =~= sorted.insert(at, p));
    } else if at == sorted.len() {
        assert(sorted.push(p) =~= sorted.insert(at, p));
    } else {
        let front = sorted.drop_last();
        assert(key(sorted[sorted.len() - 1], axis) > key(p, axis));
        assert forall|k: int| at <= k < front.len() implies key(#[trigger] front[k], axis) > key(
            p,
            axis,
        ) by {
            assert(front[k] == sorted[k]);
        }
        if at > 0 {
            assert(front[at - 1] == sorted[at - 1]);
        }
        lemma_insert_by_at(front, p, axis, at);
        assert(front.insert(at, p).push(sorted.last()) =~= sorted.insert(at, p));
    }
}

/// The coordinate of `p` along `axis`.
pub fn key_of(p: &Position, axis: Axis) -> (k: u64)
    ensures
        k == key(*p, axis),
{
    match axis {
        Axis::X => p.x,
        Axis::Y => p.y,
    }
}

/// Orders `points` along `axis`, keeping entries with equal coordinates in their order.
pub fn sort_by_axis(points: &Vec<Position>, axis: Axis) -> (out: Vec<Position>)
    ensures
        out@ == stable_sort(points@, axis),
        out@.len() == points@.len(),
{
    let mut out: Vec<Position> = Vec::new();
    let mut i: usize = 0;
    while i < points.len()
        invariant
            i <= points@.len(),
            out@ == stable_sort(points@.take(i as int), axis),
            out@.len() == i,
        decreases points@.len() - i,
    {
        let p = points[i];
        let k = key_of(&p, axis);
        let mut at: usize = out.len();
        while at > 0 && key_of(&out[at - 1], axis) > k
            invariant
                at <= out@.len(),
                k == key(p, axis),
                forall|j: int| at <= j < out@.len() ==> key(#[trigger] out@[j], axis) > key(p, axis),
            decreases at,
        {
            at -= 1;
        }
        proof {
            lemma_insert_by_at(out@, p, axis, at as int);
            let next = points@.take(i + 1);
            assert(next.drop_last() =~= points@.take(i as int));
            assert(next.last() == p);
        }
        out.insert(at, p);
        i += 1;
    }
    proof {
        assert(points@.take(points@.len() as int) =~= points@);
    }
    out
}

} // verus!
