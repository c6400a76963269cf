//! Turns an unordered set of (segment id, object count) descriptors into an
//! ascending-by-id table with an exclusive prefix-sum offset per segment.

use vstd::prelude::*;

verus! {

use vstd::multiset::Multiset;
use vstd::seq_lib::group_to_multiset_ensures;
use vstd::seq_lib::lemma_multiset_commutative;

/// One segment descriptor: a partition of the object id space, identified by
/// an integer id, holding `num` objects.
#[derive(Clone, Copy, Debug, PartialEq, Eq, Structural)]
pub struct Segment {
    pub segment: usize,
    pub num: usize,
}

/// Non-decreasing by segment id.
pub open spec fn sorted_by_id(s: Seq<Segment>) -> bool {
    forall|i: int, j: int| 0 <= i <= j < s.len() ==> s[i].segment <= s[j].segment
}

/// The number of objects in the first `k` segments: the exclusive prefix sum.
pub open spec fn prefix_count(s: Seq<Segment>, k: int) -> int
    decreases k,
{
    if k <= 0 {
        0
    } else {
        prefix_count(s, k - 1) + s[k - 1].num
    }
}

/// Prefix sums of counts never decrease.
pub proof fn lemma_prefix_count_monotonic(s: Seq<Segment>, k1: int, k2: int)
    requires
        0 <= k1 <= k2,
    ensures
        prefix_count(s, k1) <= prefix_count(s, k2),
    decreases k2 - k1,
{
    if k1 < k2 {
        lemma_prefix_count_monotonic(s, k1, k2 - 1);
    }
}

/// Sorts segment descriptors ascending by id; the result is a permutation of
/// the input.
pub fn sort_segments(v: Vec<Segment>) -> (r: Vec<Segment>)
    ensures
        sorted_by_id(r@),
        r@.to_multiset() == v@.to_multiset(),
        r@.len() == v@.len(),
{
    broadcast use group_to_multiset_ensures;

    let mut r: Vec<Segment> = Vec::new();
    let mut i: usize = 0;
    while i < v.len()
        invariant
            i <= v.len(),
            sorted_by_id(r@),
            r@.to_multiset() == v@.take(i as int).to_multiset(),
            r@.len() == i,
        decreases v.len() - i,
    {
        broadcast use group_to_multiset_ensures;

        let x = v[i];
        let mut p: usize = 0;
        while p < r.len() && r[p].segment <= x.segment
            invariant
                p <= r@.len(),
                forall|q: int| 0 <= q < p ==> r@[q].segment <= x.segment,
            decreases r@.len() - p,
        {
            p = p + 1;
        }
        let ghost r0 = r@;
        r.insert(p, x);
        proof {
            assert(r@ =~= r0.take(p as int) + seq![x] + r0.skip(p as int));
            assert(r0 =~= r0.take(p as int) + r0.skip(p as int));
            lemma_multiset_commutative(r0.take(p as int) + seq![x], r0.skip(p as int));
            lemma_multiset_commutative(r0.take(p as int), seq![x]);
            lemma_multiset_commutative(r0.take(p as int), r0.skip(p as int));
            assert(seq![x] =~= Seq::<Segment>::empty().push(x));
            assert(seq![x].to_multiset() =~= Multiset::<Segment>::empty().insert(x));
            assert(r@.to_multiset() =~= r0.to_multiset().insert(x));
            assert(v@.take(i as int).push(x) =~= v@.take(i as int + 1));
            assert(forall|q: int|
                p < q < r@.len() ==> r@[q] == r0[q - 1] && (#[trigger] r@[q]).segment > x.segment);
            assert(sorted_by_id(r@));
        }
        i = i + 1;
    }
    proof {
        assert(v@.take(v@.len() as int) =~= v@);
    }
    r
}

/// Computes the exclusive prefix-sum offset table and the total object count
/// for an (already sorted) segment table.
pub fn segment_offsets(segments: &Vec<Segment>) -> (r: (Vec<usize>, usize))
    requires
        prefix_count(segments@, segments@.len() as int) <= usize::MAX,
    ensures
        r.0@.len() == segments@.len(),
        forall|i: int| 0 <= i < segments@.len() ==> r.0@[i] == prefix_count(segments@, i),
        r.1 == prefix_count(segments@, segments@.len() as int),
{
    let mut offsets: Vec<usize> = Vec::new();
    let mut acc: usize = 0;
    let mut i: usize = 0;
    while i < segments.len()
        invariant
            i <= segments@.len(),
            prefix_count(segments@, segments@.len() as int) <= usize::MAX,
            offsets@.len() == i,
            forall|k: int| 0 <= k < i ==> offsets@[k] == prefix_count(segments@, k),
            acc == prefix_count(segments@, i as int),
        decreases segments@.len() - i,
    {
        proof {
            lemma_prefix_count_monotonic(segments@, i as int + 1, segments@.len() as int);
        }
        offsets.push(acc);
        acc = acc + segments[i].num;
        i = i + 1;
    }
    (offsets, acc)
}

} // verus!
