//! Paint order: what it means for a sequence of overlays to be sorted by
//! priority, and to be the stable sort of another sequence.

use crate::overlay::{Overlay, Priority};
use vstd::prelude::*;

verus! {

/// Priorities never decrease along `s`.
pub open spec fn sorted_by_priority(s: Seq<Overlay>) -> bool {
    forall|i: int, j: int| 0 <= i <= j < s.len() ==> s[i].priority <= s[j].priority
}

/// The overlays whose priority is exactly `p`.
pub open spec fn at_priority(p: Priority) -> spec_fn(Overlay) -> bool {
    |o: Overlay| o.priority == p
}

/// `r` holds the overlays of `s` sorted by ascending priority, and overlays of
/// equal priority stand in `r` in the order in which they stand in `s`.
pub open spec fn is_stable_sort_of(r: Seq<Overlay>, s: Seq<Overlay>) -> bool {
    &&& r.len() == s.len()
    &&& sorted_by_priority(r)
    &&& forall|p: Priority| #[trigger] r.filter(at_priority(p)) == s.filter(at_priority(p))
}

/// A filter that no element passes yields nothing.
pub proof fn lemma_filter_none<A>(s: Seq<A>, pred: spec_fn(A) -> bool)
    requires
        forall|i: int| 0 <= i < s.len() ==> !pred(#[trigger] s[i]),
    ensures
        s.filter(pred) == Seq::<A>::empty(),
    decreases s.len(),
{
    reveal(Seq::filter);
    if s.len() > 0 {
        lemma_filter_none(s.drop_last(), pred);
    }
}

/// Moving the last element of `prefix.push(x)` back to index `j` changes no
/// priority class, as long as it jumps over no overlay of its own priority.
pub proof fn lemma_move_back_keeps_classes(prefix: Seq<Overlay>, x: Overlay, j: int, p: Priority)
    requires
        0 <= j <= prefix.len(),
        forall|k: int| j <= k < prefix.len() ==> prefix[k].priority != x.priority,
    ensures
        (prefix.take(j).push(x) + prefix.skip(j)).filter(at_priority(p)) == prefix.push(x).filter(
            at_priority(p),
        ),
{
    let f = at_priority(p);
    let head = prefix.take(j);
    let tail = prefix.skip(j);
    assert(prefix =~= head + tail);
    assert(prefix.push(x) =~= head + tail + seq![x]);
    assert(head.push(x) =~= head + seq![x]);
    Seq::filter_distributes_over_add(head, seq![x], f);
    Seq::filter_distributes_over_add(head + seq![x], tail, f);
    Seq::filter_distributes_over_add(head, tail, f);
    Seq::filter_distributes_over_add(head + tail, seq![x], f);
    if p == x.priority {
        lemma_filter_none(tail, f);
    } else {
        lemma_filter_none(seq![x], f);
    }
}

/// Putting `x` into a sorted sequence at index `k`, behind every overlay of
/// its own or a lower priority and in front of every higher one, gives the
/// stable sort of the sequence with `x` at its end.
pub proof fn lemma_insert_is_stable_sort(s: Seq<Overlay>, x: Overlay, k: int)
    requires
        sorted_by_priority(s),
        0 <= k <= s.len(),
        forall|i: int| 0 <= i < k ==> s[i].priority <= x.priority,
        forall|i: int| k <= i < s.len() ==> s[i].priority > x.priority,
    ensures
        is_stable_sort_of(s.insert(k, x), s.push(x)),
{
    let c = s.insert(k, x);
    assert(c =~= s.take(k).push(x) + s.skip(k));
    assert forall|p: Priority| #[trigger]
        c.filter(at_priority(p)) == s.push(x).filter(at_priority(p)) by {
        lemma_move_back_keeps_classes(s, x, k, p);
    }
    assert forall|i: int, j: int| 0 <= i <= j < c.len() implies c[i].priority
        <= c[j].priority by {
        if i < k {
            assert(c[i] == s[i]);
        } else if i > k {
            assert(c[i] == s[i - 1]);
        }
        if j < k {
            assert(c[j] == s[j]);
        } else if j > k {
            assert(c[j] == s[j - 1]);
        }
    }
}

/// What is left of a sorted sequence after filtering is sorted.
pub proof fn lemma_filter_keeps_order(s: Seq<Overlay>, pred: spec_fn(Overlay) -> bool)
    requires
        sorted_by_priority(s),
    ensures
        sorted_by_priority(s.filter(pred)),
    decreases s.len(),
{
    reveal(Seq::filter);
    if s.len() > 0 {
        let rest = s.drop_last();
        lemma_filter_keeps_order(rest, pred);
        if pred(s.last()) {
            let kept = rest.filter(pred);
            assert forall|i: int| 0 <= i < kept.len() implies kept[i].priority
                <= s.last().priority by {
                assert(kept.contains(kept[i]));
                rest.lemma_filter_contains_rev(pred, kept[i]);
                let k = choose|k: int| 0 <= k < rest.len() && rest[k] == kept[i];
                assert(s[k] == rest[k]);
            }
        }
    }
}

/// A filter that lets something through found it in the sequence.
pub proof fn lemma_filter_witness<A>(s: Seq<A>, pred: spec_fn(A) -> bool) -> (k: int)
    requires
        s.filter(pred).len() > 0,
    ensures
        0 <= k < s.len(),
        pred(s[k]),
    decreases s.len(),
{
    reveal(Seq::filter);
    if pred(s.last()) {
        s.len() - 1
    } else {
        lemma_filter_witness(s.drop_last(), pred)
    }
}

/// Filtering twice by the same test is filtering once.
pub proof fn lemma_filter_idempotent<A>(s: Seq<A>, pred: spec_fn(A) -> bool)
    ensures
        s.filter(pred).filter(pred) == s.filter(pred),
    decreases s.len(),
{
    reveal(Seq::filter);
    if s.len() > 0 {
        lemma_filter_idempotent(s.drop_last(), pred);
        if pred(s.last()) {
            Seq::lemma_filter_push(s.drop_last().filter(pred), s.last(), pred);
        }
    }
}

/// Two sorted sequences with the same priority classes, each class in the
/// same order, are the same sequence.
pub proof fn lemma_sorted_classes_determine(a: Seq<Overlay>, b: Seq<Overlay>)
    requires
        a.len() == b.len(),
        sorted_by_priority(a),
        sorted_by_priority(b),
        forall|p: Priority| #[trigger] a.filter(at_priority(p)) == b.filter(at_priority(p)),
    ensures
        a == b,
    decreases a.len(),
{
    if a.len() == 0 {
        assert(a =~= b);
    } else {
        reveal(Seq::filter);
        let x = a.last();
        let y = b.last();
        let fx = at_priority(x.priority);
        let fy = at_priority(y.priority);
        // The two last overlays have the highest priority of the same collection.
        assert(a.filter(fx) == a.drop_last().filter(fx).push(x));
        assert(b.filter(fy) == b.drop_last().filter(fy).push(y));
        assert(b.filter(fx) == a.filter(fx));
        assert(a.filter(fy) == b.filter(fy));
        let kb = lemma_filter_witness(b, fx);
        let ka = lemma_filter_witness(a, fy);
        assert(b[kb].priority <= y.priority);
        assert(a[ka].priority <= x.priority);
        assert(x.priority == y.priority);
        // Each is the last of its class, and the classes agree.
        assert(a.filter(fx).last() == x);
        assert(b.filter(fx).last() == y);
        assert(x == y);
        let a0 = a.drop_last();
        let b0 = b.drop_last();
        assert forall|p: Priority| #[trigger]
            a0.filter(at_priority(p)) == b0.filter(at_priority(p)) by {
            let f = at_priority(p);
            assert(a.filter(f) == b.filter(f));
            if p == x.priority {
                assert(a0.filter(f) =~= a0.filter(f).push(x).drop_last());
                assert(b0.filter(f) =~= b0.filter(f).push(x).drop_last());
            }
        }
        lemma_sorted_classes_determine(a0, b0);
        assert(a =~= a0.push(x));
        assert(b =~= b0.push(y));
    }
}

/// A sequence has only one stable sort.
pub proof fn lemma_stable_sort_unique(a: Seq<Overlay>, b: Seq<Overlay>, s: Seq<Overlay>)
    requires
        is_stable_sort_of(a, s),
        is_stable_sort_of(b, s),
    ensures
        a == b,
{
    assert forall|p: Priority| #[trigger]
        a.filter(at_priority(p)) == b.filter(at_priority(p)) by {
        assert(a.filter(at_priority(p)) == s.filter(at_priority(p)));
        assert(b.filter(at_priority(p)) == s.filter(at_priority(p)));
    }
    lemma_sorted_classes_determine(a, b);
}

/// Adding to a sorted sequence puts the newcomer behind every overlay of its
/// own or a lower priority and in front of every higher one: among equals,
/// who came first stays first.
pub proof fn lemma_stable_sort_of_sorted_push(
    s: Seq<Overlay>,
    x: Overlay,
    k: int,
    r: Seq<Overlay>,
)
    requires
        sorted_by_priority(s),
        0 <= k <= s.len(),
        forall|i: int| 0 <= i < k ==> s[i].priority <= x.priority,
        forall|i: int| k <= i < s.len() ==> s[i].priority > x.priority,
        is_stable_sort_of(r, s.push(x)),
    ensures
        r == s.insert(k, x),
{
    lemma_insert_is_stable_sort(s, x, k);
    lemma_stable_sort_unique(r, s.insert(k, x), s.push(x));
}

/// An overlay of priority `p` occurs in a sequence as often as in the
/// sequence's class of priority `p`.
proof fn lemma_class_counts(s: Seq<Overlay>, o: Overlay)
    ensures
        s.filter(at_priority(o.priority)).to_multiset().count(o) == s.to_multiset().count(o),
    decreases s.len(),
{
    reveal(Seq::filter);
    if s.len() == 0 {
        assert(s.filter(at_priority(o.priority)) =~= s);
    } else {
        let f = at_priority(o.priority);
        lemma_class_counts(s.drop_last(), o);
        assert(s =~= s.drop_last().push(s.last()));
        vstd::seq_lib::to_multiset_build(s.drop_last(), s.last());
        if f(s.last()) {
            vstd::seq_lib::to_multiset_build(s.drop_last().filter(f), s.last());
        }
    }
}

/// Sorting loses no overlay and makes none up: every overlay occurs in the
/// result as often as it did before.
pub proof fn lemma_stable_sort_keeps_overlays(r: Seq<Overlay>, s: Seq<Overlay>)
    requires
        is_stable_sort_of(r, s),
    ensures
        r.to_multiset() == s.to_multiset(),
{
    assert forall|o: Overlay| r.to_multiset().count(o) == s.to_multiset().count(o) by {
        lemma_class_counts(r, o);
        lemma_class_counts(s, o);
        assert(r.filter(at_priority(o.priority)) == s.filter(at_priority(o.priority)));
    }
    assert(r.to_multiset() =~= s.to_multiset());
}

} // verus!
