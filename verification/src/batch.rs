//! Applies every operation of a batch to the state store and derives the
//! batch's aggregate counts and throughput rate.

use vstd::prelude::*;

use crate::merge::{Batch, Event};
use crate::state::{
    count_state, next_state, FileState, LocateError, Operation, State, StateCounts,
};

verus! {

/// One operation applied at one resolved state-array index.
pub open spec fn apply_op(files: Seq<FileState>, idx: int, op: Operation) -> Seq<FileState> {
    files.update(idx, next_state(files[idx], op))
}

/// A run of (index, operation) pairs applied in order.
pub open spec fn apply_flat(files: Seq<FileState>, ops: Seq<(int, Operation)>) -> Seq<FileState>
    decreases ops.len(),
{
    if ops.len() == 0 {
        files
    } else {
        apply_flat(apply_op(files, ops[0].0, ops[0].1), ops.drop_first())
    }
}

/// The (index, operation) pairs of one event, in item order.
pub open spec fn event_ops(offsets: Seq<usize>, e: Event) -> Seq<(int, Operation)> {
    Seq::new(e.items@.len(), |j: int| (offsets[e.segment - 1] + e.items@[j] - 1, e.operation))
}

/// The pairs of a run of events, one event after the next.
pub open spec fn events_ops(offsets: Seq<usize>, events: Seq<Event>) -> Seq<(int, Operation)>
    decreases events.len(),
{
    if events.len() == 0 {
        Seq::empty()
    } else {
        event_ops(offsets, events[0]) + events_ops(offsets, events.drop_first())
    }
}

/// The sum of all item-list lengths of a run of events.
pub open spec fn total_actions_of(events: Seq<Event>) -> nat
    decreases events.len(),
{
    if events.len() == 0 {
        0
    } else {
        events[0].items@.len() + total_actions_of(events.drop_first())
    }
}

/// Every item of the event resolves to an index inside the state array.
pub open spec fn event_refs_valid(s: State, e: Event) -> bool {
    forall|j: int| 0 <= j < e.items@.len() ==> s.valid_ref(e.segment, #[trigger] e.items@[j])
}

/// Every item of every event resolves.
pub open spec fn events_refs_valid(s: State, events: Seq<Event>) -> bool {
    forall|k: int| 0 <= k < events.len() ==> event_refs_valid(s, #[trigger] events[k])
}

proof fn lemma_apply_flat_append(
    files: Seq<FileState>,
    a: Seq<(int, Operation)>,
    b: Seq<(int, Operation)>,
)
    ensures
        apply_flat(files, a + b) == apply_flat(apply_flat(files, a), b),
    decreases a.len(),
{
    if a.len() == 0 {
        assert(a + b =~= b);
    } else {
        lemma_apply_flat_append(apply_op(files, a[0].0, a[0].1), a.drop_first(), b);
        assert((a + b).drop_first() =~= a.drop_first() + b);
        assert((a + b)[0] == a[0]);
    }
}

proof fn lemma_apply_flat_push(files: Seq<FileState>, ops: Seq<(int, Operation)>, p: (
    int,
    Operation,
))
    ensures
        apply_flat(files, ops.push(p)) == apply_op(apply_flat(files, ops), p.0, p.1),
{
    assert(ops.push(p) =~= ops + seq![p]);
    lemma_apply_flat_append(files, ops, seq![p]);
    let g = apply_flat(files, ops);
    assert(seq![p].drop_first() =~= Seq::<(int, Operation)>::empty());
    assert(seq![p][0] == p);
    assert(apply_flat(apply_op(g, p.0, p.1), Seq::<(int, Operation)>::empty()) == apply_op(
        g,
        p.0,
        p.1,
    ));
}

proof fn lemma_events_ops_push(offsets: Seq<usize>, es: Seq<Event>, e: Event)
    ensures
        events_ops(offsets, es.push(e)) =~= events_ops(offsets, es) + event_ops(offsets, e),
    decreases es.len(),
{
    if es.len() == 0 {
        assert(es.push(e).drop_first() =~= Seq::<Event>::empty());
        assert(events_ops(offsets, Seq::<Event>::empty()) =~= Seq::<(int, Operation)>::empty());
    } else {
        lemma_events_ops_push(offsets, es.drop_first(), e);
        assert(es.push(e).drop_first() =~= es.drop_first().push(e));
        assert(es.push(e)[0] == es[0]);
        assert(event_ops(offsets, es[0]) + (events_ops(offsets, es.drop_first()) + event_ops(
            offsets,
            e,
        )) =~= (event_ops(offsets, es[0]) + events_ops(offsets, es.drop_first())) + event_ops(
            offsets,
            e,
        ));
    }
}

proof fn lemma_total_actions_take_le(events: Seq<Event>, k: int)
    requires
        0 <= k <= events.len(),
    ensures
        total_actions_of(events.take(k)) <= total_actions_of(events),
    decreases events.len(),
{
    if k == 0 {
        assert(events.take(0) =~= Seq::<Event>::empty());
    } else {
        lemma_total_actions_take_le(events.drop_first(), k - 1);
        assert(events.take(k).drop_first() =~= events.drop_first().take(k - 1));
        assert(events.take(k)[0] == events[0]);
    }
}

proof fn lemma_total_actions_take_step(events: Seq<Event>, k: int)
    requires
        0 <= k < events.len(),
    ensures
        total_actions_of(events.take(k + 1)) == total_actions_of(events.take(k))
            + events[k].items@.len(),
    decreases events.len(),
{
    if k == 0 {
        assert(events.take(0) =~= Seq::<Event>::empty());
        assert(events.take(1).drop_first() =~= Seq::<Event>::empty());
        assert(events.take(1)[0] == events[0]);
    } else {
        lemma_total_actions_take_step(events.drop_first(), k - 1);
        assert(events.take(k + 1).drop_first() =~= events.drop_first().take(k));
        assert(events.take(k).drop_first() =~= events.drop_first().take(k - 1));
        assert(events.take(k + 1)[0] == events[0]);
        assert(events.take(k)[0] == events[0]);
        assert(events.drop_first()[k - 1] == events[k]);
    }
}

/// Applies every operation of every event, in order, to the state store.
/// Returns the total number of actions applied; an unresolvable reference
/// aborts the scan with its diagnostic.
pub fn apply_events(state: &mut State, events: &Vec<Event>) -> (r: Result<u64, LocateError>)
    requires
        total_actions_of(events@) <= u64::MAX,
    ensures
        final(state).offsets == old(state).offsets,
        final(state).image_size == old(state).image_size,
        final(state).output_image_size == old(state).output_image_size,
        final(state).files.len() == old(state).files.len(),
        old(state).wf() ==> final(state).wf(),
        match r {
            Ok(n) => events_refs_valid(*old(state), events@) && n == total_actions_of(events@)
                && final(state).files@ == apply_flat(
                old(state).files@,
                events_ops(old(state).offsets@, events@),
            ),
            Err(e) => !events_refs_valid(*old(state), events@),
        },
{
    let ghost orig = *state;
    let mut total: u64 = 0;
    let mut k: usize = 0;
    while k < events.len()
        invariant
            orig == *old(state),
            k <= events.len(),
            total_actions_of(events@) <= u64::MAX,
            state.offsets == orig.offsets,
            state.image_size == orig.image_size,
            state.output_image_size == orig.output_image_size,
            state.files.len() == orig.files.len(),
            orig.wf() ==> state.wf(),
            total == total_actions_of(events@.take(k as int)),
            state.files@ == apply_flat(orig.files@, events_ops(orig.offsets@, events@.take(k as int))),
            events_refs_valid(orig, events@.take(k as int)),
        decreases events.len() - k,
    {
        let e = &events[k];
        proof {
            lemma_total_actions_take_step(events@, k as int);
            lemma_total_actions_take_le(events@, k as int + 1);
        }
        total = total + (e.items.len() as u64);
        let ghost files_at_k = state.files@;
        let mut j: usize = 0;
        while j < e.items.len()
            invariant
                orig == *old(state),
                total_actions_of(events@) <= u64::MAX,
                total == total_actions_of(events@.take(k as int)) + events@[k as int].items@.len(),
                j <= e.items@.len(),
                e == events@[k as int],
                0 <= k < events@.len(),
                state.offsets == orig.offsets,
                state.image_size == orig.image_size,
                state.output_image_size == orig.output_image_size,
                state.files.len() == orig.files.len(),
                orig.wf() ==> state.wf(),
                files_at_k == apply_flat(
                    orig.files@,
                    events_ops(orig.offsets@, events@.take(k as int)),
                ),
                state.files@ == apply_flat(
                    files_at_k,
                    event_ops(orig.offsets@, *e).take(j as int),
                ),
                forall|jj: int| 0 <= jj < j ==> orig.valid_ref(e.segment, #[trigger] e.items@[jj]),
            decreases e.items@.len() - j,
        {
            let number = e.items[j];
            let ghost files_before = state.files@;
            match state.set_item(e.segment, number, &e.operation) {
                Ok(()) => {
                    proof {
                        let ops = event_ops(orig.offsets@, *e);
                        assert(ops.take(j + 1) =~= ops.take(j as int).push(ops[j as int]));
                        lemma_apply_flat_push(files_at_k, ops.take(j as int), ops[j as int]);
                        assert(ops[j as int].0 == orig.offsets@[e.segment - 1] + e.items@[j as int]
                            - 1);
                        assert(state.files@ == apply_flat(files_at_k, ops.take(j + 1)));
                    }
                },
                Err(err) => {
                    proof {
                        assert(!orig.valid_ref(e.segment, number));
                        assert(!event_refs_valid(orig, *e));
                        assert(!events_refs_valid(orig, events@)) by {
                            if events_refs_valid(orig, events@) {
                                assert(event_refs_valid(orig, events@[k as int]));
                            }
                        }
                    }
                    return Err(err);
                },
            }
            j = j + 1;
        }
        proof {
            let ops = event_ops(orig.offsets@, *e);
            assert(ops.take(j as int) =~= ops);
            lemma_events_ops_push(orig.offsets@, events@.take(k as int), events@[k as int]);
            assert(events@.take(k as int).push(events@[k as int]) =~= events@.take(k as int + 1));
            lemma_apply_flat_append(
                orig.files@,
                events_ops(orig.offsets@, events@.take(k as int)),
                ops,
            );
            assert(forall|kk: int|
                0 <= kk < k as int + 1 ==> event_refs_valid(
                    orig,
                    #[trigger] events@.take(k as int + 1)[kk],
                ));
        }
        k = k + 1;
    }
    proof {
        assert(events@.take(events@.len() as int) =~= events@);
    }
    Ok(total)
}

/// Throughput per second by the safe-division rule: zero elapsed time yields
/// a rate of zero, any other yields the integer floor quotient.
pub open spec fn spec_rate(total_actions: u64, elapsed: int) -> int {
    if elapsed == 0 {
        0
    } else {
        total_actions as int / elapsed
    }
}

/// Actions per second between two batch timestamps.
pub fn compute_rate(total_actions: u64, elapsed_seconds: i64) -> (r: u64)
    requires
        elapsed_seconds >= 0,
    ensures
        r == spec_rate(total_actions, elapsed_seconds as int),
{
    if elapsed_seconds == 0 {
        0
    } else {
        total_actions / (elapsed_seconds as u64)
    }
}

/// Aggregates derived from one fully applied batch.
#[derive(Clone, Copy, Debug, PartialEq, Eq, Structural)]
pub struct BatchSummary {
    /// Sum of all item-list lengths in the batch.
    pub total_actions: u64,
    /// Actions per second since the previous batch; zero for the first batch.
    pub rate: u64,
    /// Whole hours elapsed since the first batch.
    pub hours: i64,
    /// Per-state object counts after the batch was applied.
    pub counts: StateCounts,
}

/// Applies one batch to the state store and derives its aggregates.  For the
/// first batch pass the batch's own timestamp for both `previous_bucket` and
/// `first_bucket`, so that its elapsed time is zero.
pub fn process_batch(
    state: &mut State,
    batch: &Batch,
    previous_bucket: i64,
    first_bucket: i64,
) -> (r: Result<BatchSummary, LocateError>)
    requires
        previous_bucket <= batch.bucket,
        first_bucket <= batch.bucket,
        batch.bucket - previous_bucket <= i64::MAX,
        batch.bucket - first_bucket <= i64::MAX,
        total_actions_of(batch.events@) <= u64::MAX,
    ensures
        final(state).offsets == old(state).offsets,
        final(state).image_size == old(state).image_size,
        final(state).output_image_size == old(state).output_image_size,
        final(state).files.len() == old(state).files.len(),
        old(state).wf() ==> final(state).wf(),
        match r {
            Ok(s) => events_refs_valid(*old(state), batch.events@) && final(state).files@
                == apply_flat(
                old(state).files@,
                events_ops(old(state).offsets@, batch.events@),
            ) && s.total_actions == total_actions_of(batch.events@) && s.rate == spec_rate(
                s.total_actions,
                batch.bucket - previous_bucket,
            ) && s.hours == (batch.bucket - first_bucket) / 3600 && s.counts.present
                == count_state(final(state).files@, FileState::Present) && s.counts.delete_marker
                == count_state(final(state).files@, FileState::DeleteMarker) && s.counts.expired
                == count_state(final(state).files@, FileState::Expired)
                && s.counts.delete_marker_deleted == count_state(
                final(state).files@,
                FileState::DeleteMarkerDeleted,
            ) && s.counts.weird_case == count_state(final(state).files@, FileState::WeirdCase),
            Err(e) => !events_refs_valid(*old(state), batch.events@),
        },
{
    let total_actions = match apply_events(state, &batch.events) {
        Ok(n) => n,
        Err(e) => {
            return Err(e);
        },
    };
    let elapsed = batch.bucket - previous_bucket;
    let rate = compute_rate(total_actions, elapsed);
    let hours = (batch.bucket - first_bucket) / 3600;
    let counts = state.snapshot_counts();
    Ok(BatchSummary { total_actions, rate, hours, counts })
}

/// The operations of `ops` addressed to index `i`, in order.
pub open spec fn ops_at(ops: Seq<(int, Operation)>, i: int) -> Seq<Operation>
    decreases ops.len(),
{
    if ops.len() == 0 {
        Seq::empty()
    } else if ops[0].0 == i {
        seq![ops[0].1] + ops_at(ops.drop_first(), i)
    } else {
        ops_at(ops.drop_first(), i)
    }
}

/// The state of one object after an ordered run of operations is the fold of
/// the transition table over exactly the operations addressed to it,
/// whichever other objects the run also touched.
pub proof fn lemma_apply_flat_fold(files: Seq<FileState>, ops: Seq<(int, Operation)>, i: int)
    requires
        0 <= i < files.len(),
        forall|k: int| 0 <= k < ops.len() ==> 0 <= (#[trigger] ops[k]).0 < files.len(),
    ensures
        apply_flat(files, ops)[i] == crate::state::fold_ops(files[i], ops_at(ops, i)),
    decreases ops.len(),
{
    if ops.len() > 0 {
        let f1 = apply_op(files, ops[0].0, ops[0].1);
        assert(forall|k: int|
            0 <= k < ops.drop_first().len() ==> 0 <= (#[trigger] ops.drop_first()[k]).0
                < f1.len());
        lemma_apply_flat_fold(f1, ops.drop_first(), i);
        if ops[0].0 == i {
            assert(f1[i] == next_state(files[i], ops[0].1));
            assert((seq![ops[0].1] + ops_at(ops.drop_first(), i)).drop_first() =~= ops_at(
                ops.drop_first(),
                i,
            ));
            assert((seq![ops[0].1] + ops_at(ops.drop_first(), i))[0] == ops[0].1);
        } else {
            assert(f1[i] == files[i]);
        }
    }
}

} // verus!
