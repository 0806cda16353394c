//! Lists of positions: where in a range a property holds, and how lists
//! found by several workers are put in order.

use vstd::prelude::*;
use vstd::seq_lib::{lemma_multiset_commutative, to_multiset_build};

verus! {

/// The positions `i` with `start <= i < end` at which `hit(i)` holds, in
/// ascending order.
pub open spec fn positions_in(start: int, end: int, hit: spec_fn(int) -> bool) -> Seq<u32>
    decreases end - start,
{
    if end <= start {
        Seq::empty()
    } else if hit(end - 1) {
        positions_in(start, end - 1, hit).push((end - 1) as u32)
    } else {
        positions_in(start, end - 1, hit)
    }
}

/// Each element is less than the next.
pub open spec fn strictly_ascending(s: Seq<u32>) -> bool {
    forall|i: int, j: int| 0 <= i < j < s.len() ==> s[i] < s[j]
}

/// No element is greater than a later one.
pub open spec fn ascending(s: Seq<u32>) -> bool {
    forall|i: int, j: int| 0 <= i < j < s.len() ==> s[i] <= s[j]
}

/// The list of positions in a range holds exactly the positions of the
/// range at which the property holds, each once, in strictly ascending
/// order.
pub proof fn positions_are_exact(start: int, end: int, hit: spec_fn(int) -> bool)
    requires
        0 <= start <= end <= u32::MAX + 1,
    ensures
        strictly_ascending(positions_in(start, end, hit)),
        positions_in(start, end, hit).len() <= end - start,
        forall|k: int|
            0 <= k < positions_in(start, end, hit).len() ==> {
                let p = #[trigger] positions_in(start, end, hit)[k];
                start <= p < end && hit(p as int)
            },
        forall|p: u32|
            start <= p < end && hit(p as int) ==> #[trigger] positions_in(start, end, hit).contains(
                p,
            ),
    decreases end - start,
{
    if end > start {
        positions_are_exact(start, end - 1, hit);
        let rest = positions_in(start, end - 1, hit);
        let all = positions_in(start, end, hit);
        if hit(end - 1) {
            assert forall|p: u32| start <= p < end && hit(p as int) implies #[trigger] all.contains(
                p,
            ) by {
                if p == end - 1 {
                    assert(all[rest.len() as int] == p);
                } else {
                    assert(rest.contains(p));
                    let k = choose|k: int| 0 <= k < rest.len() && rest[k] == p;
                    assert(all[k] == p);
                }
            }
        }
    }
}

/// A range cut in two at any point: the positions of the whole are those of
/// the first part followed by those of the second.
pub proof fn positions_of_parts(start: int, mid: int, end: int, hit: spec_fn(int) -> bool)
    requires
        start <= mid <= end,
    ensures
        positions_in(start, end, hit) == positions_in(start, mid, hit) + positions_in(
            mid,
            end,
            hit,
        ),
    decreases end - mid,
{
    if end == mid {
        assert(positions_in(mid, end, hit) =~= Seq::<u32>::empty());
        assert(positions_in(start, mid, hit) + Seq::<u32>::empty() =~= positions_in(
            start,
            mid,
            hit,
        ));
    } else {
        positions_of_parts(start, mid, end - 1, hit);
        if hit(end - 1) {
            assert((positions_in(start, mid, hit) + positions_in(mid, end - 1, hit)).push(
                (end - 1) as u32,
            ) =~= positions_in(start, mid, hit) + positions_in(mid, end - 1, hit).push(
                (end - 1) as u32,
            ));
        }
    }
}

/// Two properties that agree on a range have the same positions there.
pub proof fn positions_of_equal_properties(
    start: int,
    end: int,
    one: spec_fn(int) -> bool,
    other: spec_fn(int) -> bool,
)
    requires
        forall|i: int| start <= i < end ==> #[trigger] one(i) == other(i),
    ensures
        positions_in(start, end, one) == positions_in(start, end, other),
    decreases end - start,
{
    if end > start {
        positions_of_equal_properties(start, end - 1, one, other);
    }
}

/// Merges two ascending lists into one.
fn merge_ascending(a: &Vec<u32>, b: &Vec<u32>) -> (out: Vec<u32>)
    requires
        ascending(a@),
        ascending(b@),
    ensures
        ascending(out@),
        out@.to_multiset() == a@.to_multiset().add(b@.to_multiset()),
{
    broadcast use vstd::multiset::group_multiset_axioms;

    let mut out: Vec<u32> = Vec::new();
    let mut i: usize = 0;
    let mut j: usize = 0;
    proof {
        assert(a@.take(0) =~= Seq::<u32>::empty());
        assert(b@.take(0) =~= Seq::<u32>::empty());
        assert(out@ =~= Seq::<u32>::empty());
        Seq::<u32>::empty().to_multiset_ensures();
        vstd::multiset::lemma_multiset_empty_len(Seq::<u32>::empty().to_multiset());
        assert(out@.to_multiset() =~= a@.take(0).to_multiset().add(b@.take(0).to_multiset()));
    }
    while i < a.len() || j < b.len()
        invariant
            i <= a.len(),
            j <= b.len(),
            ascending(a@),
            ascending(b@),
            ascending(out@),
            out@.to_multiset() == a@.take(i as int).to_multiset().add(
                b@.take(j as int).to_multiset(),
            ),
            forall|k: int| 0 <= k < out@.len() && i < a@.len() ==> out@[k] <= a@[i as int],
            forall|k: int| 0 <= k < out@.len() && j < b@.len() ==> out@[k] <= b@[j as int],
        decreases (a.len() - i) + (b.len() - j),
    {
        let take_left = if i < a.len() && j < b.len() {
            a[i] <= b[j]
        } else {
            i < a.len()
        };
        if take_left {
            proof {
                assert(a@.take(i + 1) =~= a@.take(i as int).push(a@[i as int]));
                to_multiset_build(a@.take(i as int), a@[i as int]);
                to_multiset_build(out@, a@[i as int]);
            }
            out.push(a[i]);
            i += 1;
            assert(out@.to_multiset() =~= a@.take(i as int).to_multiset().add(
                b@.take(j as int).to_multiset(),
            ));
        } else {
            proof {
                assert(b@.take(j + 1) =~= b@.take(j as int).push(b@[j as int]));
                to_multiset_build(b@.take(j as int), b@[j as int]);
                to_multiset_build(out@, b@[j as int]);
            }
            out.push(b[j]);
            j += 1;
            assert(out@.to_multiset() =~= a@.take(i as int).to_multiset().add(
                b@.take(j as int).to_multiset(),
            ));
        }
    }
    proof {
        assert(a@.take(i as int) =~= a@);
        assert(b@.take(j as int) =~= b@);
    }
    out
}

/// The same positions in ascending order.
pub fn sort_positions(list: &Vec<u32>) -> (out: Vec<u32>)
    ensures
        ascending(out@),
        out@.to_multiset() == list@.to_multiset(),
    decreases list@.len(),
{
    if list.len() <= 1 {
        let mut out: Vec<u32> = Vec::new();
        if list.len() == 1 {
            out.push(list[0]);
        }
        assert(out@ =~= list@);
        return out;
    }
    let mid: usize = list.len() / 2;
    let mut left: Vec<u32> = Vec::new();
    let mut right: Vec<u32> = Vec::new();
    let mut i: usize = 0;
    while i < list.len()
        invariant
            i <= list.len(),
            0 < mid < list.len(),
            left@ == list@.take(if i < mid { i as int } else { mid as int }),
            right@ == list@.subrange(mid as int, if i < mid { mid as int } else { i as int }),
        decreases list.len() - i,
    {
        if i < mid {
            left.push(list[i]);
            assert(left@ =~= list@.take(i + 1));
            assert(right@ =~= list@.subrange(mid as int, mid as int));
        } else {
            right.push(list[i]);
            assert(right@ =~= list@.subrange(mid as int, i + 1));
        }
        i += 1;
    }
    proof {
        assert(left@ + right@ =~= list@);
        lemma_multiset_commutative(left@, right@);
    }
    let sorted_left = sort_positions(&left);
    let sorted_right = sort_positions(&right);
    merge_ascending(&sorted_left, &sorted_right)
}

/// An ascending list without a repeated element is strictly ascending.
pub proof fn ascending_without_repeats(s: Seq<u32>)
    requires
        ascending(s),
        s.no_duplicates(),
    ensures
        strictly_ascending(s),
{
}

/// Two ascending lists that hold the same positions, each as often, are
/// the same list.
pub proof fn ascending_lists_of_the_same_are_equal(a: Seq<u32>, b: Seq<u32>)
    requires
        ascending(a),
        ascending(b),
        a.to_multiset() == b.to_multiset(),
    ensures
        a == b,
{
    let leq = |x: u32, y: u32| x <= y;
    assert(vstd::relations::sorted_by(a, leq));
    assert(vstd::relations::sorted_by(b, leq));
    assert(vstd::relations::total_ordering(leq)) by {
        assert(vstd::relations::reflexive(leq));
        assert(vstd::relations::antisymmetric(leq));
        assert(vstd::relations::transitive(leq));
        assert(vstd::relations::strongly_connected(leq));
    }
    vstd::seq_lib::lemma_sorted_unique(a, b, leq);
}

} // verus!
