//! K-way merge of independently time-sorted event sources into one globally
//! ordered sequence, grouped into one batch per distinct timestamp.

use vstd::prelude::*;

use crate::state::Operation;
use itertools::Itertools;

verus! {

use vstd::multiset::Multiset;

/// One decoded event record: the in-segment object numbers of one segment
/// that one operation touched in one time bucket.
#[derive(Clone, Debug)]
pub struct Event {
    /// Time bucket, in whole seconds.
    pub bucket: i64,
    pub operation: Operation,
    /// 1-indexed segment id.
    pub segment: usize,
    /// 1-indexed in-segment object numbers.
    pub items: Vec<usize>,
}

/// All events sharing one exact timestamp value.
#[derive(Clone, Debug)]
pub struct Batch {
    pub bucket: i64,
    pub events: Vec<Event>,
}

/// Non-decreasing by timestamp.
pub open spec fn sorted_by_bucket(s: Seq<Event>) -> bool {
    forall|i: int, j: int| 0 <= i <= j < s.len() ==> s[i].bucket <= s[j].bucket
}

/// Everything all the sources hold, as a multiset (a merge keeps every event
/// but fixes no order among equal timestamps).
pub open spec fn sources_multiset(ss: Seq<Vec<Event>>) -> Multiset<Event>
    decreases ss.len(),
{
    if ss.len() == 0 {
        Multiset::empty()
    } else {
        ss[0]@.to_multiset().add(sources_multiset(ss.drop_first()))
    }
}

/// Strict timestamp order; the merge predicate.
pub(crate) fn event_before(a: &Event, b: &Event) -> (r: bool)
    ensures
        r == (a.bucket < b.bucket),
{
    a.bucket < b.bucket
}

/// Relies on itertools' `kmerge_by`: merging sources that each ascend under
/// the given is-less-than predicate yields an ascending sequence holding
/// every element of every source exactly once.
#[verifier::external_body]
fn kmerge_by_bucket(sources: Vec<Vec<Event>>) -> (r: Vec<Event>)
    requires
        forall|k: int| 0 <= k < sources@.len() ==> sorted_by_bucket((#[trigger] sources@[k])@),
    ensures
        sorted_by_bucket(r@),
        r@.to_multiset() == sources_multiset(sources@),
{
    sources.into_iter().kmerge_by(|a: &Event, b: &Event| event_before(a, b)).collect()
}

/// The events of a run of batches, laid out one batch after the next.
pub open spec fn batches_events(bs: Seq<Batch>) -> Seq<Event>
    decreases bs.len(),
{
    if bs.len() == 0 {
        Seq::empty()
    } else {
        bs[0].events@ + batches_events(bs.drop_first())
    }
}

/// A batch is non-empty and holds only events of its own timestamp.
pub open spec fn batch_wf(b: Batch) -> bool {
    &&& b.events@.len() > 0
    &&& forall|i: int| 0 <= i < b.events@.len() ==> b.events@[i].bucket == b.bucket
}

/// Batch membership is by exact timestamp, and batch timestamps strictly
/// ascend, so no two batches share a timestamp.
pub open spec fn batches_wf(bs: Seq<Batch>) -> bool {
    &&& forall|k: int| 0 <= k < bs.len() ==> batch_wf(#[trigger] bs[k])
    &&& forall|k1: int, k2: int| 0 <= k1 < k2 < bs.len() ==> bs[k1].bucket < bs[k2].bucket
}

proof fn lemma_batches_events_push(bs: Seq<Batch>, b: Batch)
    ensures
        batches_events(bs.push(b)) =~= batches_events(bs) + b.events@,
    decreases bs.len(),
{
    if bs.len() == 0 {
        assert(bs.push(b).drop_first() =~= Seq::<Batch>::empty());
        assert(bs.push(b)[0] == b);
        assert(batches_events(Seq::<Batch>::empty()) =~= Seq::<Event>::empty());
        assert(batches_events(bs.push(b)) =~= b.events@ + Seq::<Event>::empty());
        assert(batches_events(bs.push(b)) =~= batches_events(bs) + b.events@);
    } else {
        lemma_batches_events_push(bs.drop_first(), b);
        assert(bs.push(b).drop_first() =~= bs.drop_first().push(b));
        assert(bs.push(b)[0] == bs[0]);
        assert(batches_events(bs.push(b)) == bs[0].events@ + batches_events(
            bs.drop_first().push(b),
        ));
        assert(bs[0].events@ + (batches_events(bs.drop_first()) + b.events@) =~= (bs[0].events@
            + batches_events(bs.drop_first())) + b.events@);
        assert(batches_events(bs.push(b)) =~= batches_events(bs) + b.events@);
    }
}

/// Groups adjacent equal-timestamp events of a time-ordered sequence into one
/// batch per distinct timestamp, in ascending timestamp order.
pub fn group_batches(merged: Vec<Event>) -> (r: Vec<Batch>)
    requires
        sorted_by_bucket(merged@),
    ensures
        batches_wf(r@),
        batches_events(r@) == merged@,
{
    let ghost whole = merged@;
    let mut rest = merged;
    let mut batches: Vec<Batch> = Vec::new();
    while rest.len() > 0
        invariant
            sorted_by_bucket(rest@),
            batches_wf(batches@),
            batches_events(batches@) + rest@ =~= whole,
            forall|k: int, j: int|
                0 <= k < batches@.len() && 0 <= j < rest@.len() ==> batches@[k].bucket
                    < rest@[j].bucket,
        decreases rest@.len(),
    {
        let ghost rest0 = rest@;
        let e = rest.remove(0);
        let bucket = e.bucket;
        let mut events: Vec<Event> = Vec::new();
        events.push(e);
        proof {
            assert(rest@ =~= rest0.drop_first());
        }
        while rest.len() > 0 && rest[0].bucket == bucket
            invariant
                sorted_by_bucket(rest@),
                batches_wf(batches@),
                events@.len() > 0,
                forall|i: int| 0 <= i < events@.len() ==> events@[i].bucket == bucket,
                batches_events(batches@) + events@ + rest@ =~= whole,
                forall|k: int| 0 <= k < batches@.len() ==> batches@[k].bucket < bucket,
                forall|j: int| 0 <= j < rest@.len() ==> bucket <= rest@[j].bucket,
            decreases rest@.len(),
        {
            let ghost rest1 = rest@;
            let e2 = rest.remove(0);
            events.push(e2);
            proof {
                assert(rest@ =~= rest1.drop_first());
            }
        }
        let b = Batch { bucket, events };
        proof {
            lemma_batches_events_push(batches@, b);
            assert(forall|j: int| 0 <= j < rest@.len() ==> bucket < rest@[j].bucket);
        }
        batches.push(b);
    }
    proof {
        assert(batches_events(batches@) =~= whole);
    }
    batches
}

/// Merges N independently time-sorted event sources into batches: one batch
/// per distinct timestamp across all sources, in strictly ascending timestamp
/// order, no event lost or invented.
pub fn merge_into_batches(sources: Vec<Vec<Event>>) -> (r: Vec<Batch>)
    requires
        forall|k: int| 0 <= k < sources@.len() ==> sorted_by_bucket((#[trigger] sources@[k])@),
    ensures
        batches_wf(r@),
        batches_events(r@).to_multiset() == sources_multiset(sources@),
{
    let merged = kmerge_by_bucket(sources);
    group_batches(merged)
}

/// Two events with identical timestamps land in the same batch, wherever they
/// came from: the batch holding a given timestamp is unique.
pub proof fn lemma_same_bucket_same_batch(bs: Seq<Batch>, k1: int, k2: int, i1: int, i2: int)
    requires
        batches_wf(bs),
        0 <= k1 < bs.len(),
        0 <= k2 < bs.len(),
        0 <= i1 < bs[k1].events@.len(),
        0 <= i2 < bs[k2].events@.len(),
        bs[k1].events@[i1].bucket == bs[k2].events@[i2].bucket,
    ensures
        k1 == k2,
{
    assert(batch_wf(bs[k1]));
    assert(batch_wf(bs[k2]));
}

/// Batch timestamps strictly ascend: later batches carry strictly later
/// timestamps, so timestamps never repeat.
pub proof fn lemma_batches_strictly_ascending(bs: Seq<Batch>, k1: int, k2: int)
    requires
        batches_wf(bs),
        0 <= k1 < k2 < bs.len(),
    ensures
        bs[k1].bucket < bs[k2].bucket,
{
}

} // verus!
