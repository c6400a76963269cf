use statelapse::batch::{compute_rate, process_batch};
use statelapse::index::{segment_offsets, sort_segments, Segment};
use statelapse::merge::{merge_into_batches, Event};
use statelapse::state::{FileState, Operation, State};
use statelapse::summary::frame_index_label;

fn ev(bucket: i64, op: Operation, segment: usize, items: Vec<usize>) -> Event {
    Event { bucket, operation: op, segment, items }
}

#[test]
fn offsets_are_exclusive_prefix_sums() {
    let segs = vec![
        Segment { segment: 5, num: 2 },
        Segment { segment: 3, num: 1 },
        Segment { segment: 9, num: 4 },
    ];
    let sorted = sort_segments(segs);
    assert_eq!(
        sorted,
        vec![
            Segment { segment: 3, num: 1 },
            Segment { segment: 5, num: 2 },
            Segment { segment: 9, num: 4 },
        ]
    );
    let (offsets, total) = segment_offsets(&sorted);
    assert_eq!(offsets, vec![0, 1, 3]);
    assert_eq!(total, 7);
    // The first object of each segment sits exactly at the segment's offset.
    let s = State::new(offsets.clone(), total, 8);
    for (i, off) in offsets.iter().enumerate() {
        assert_eq!(s.locate(i + 1, 1), Ok(*off));
    }
}

#[test]
fn equal_timestamps_from_different_sources_share_a_batch() {
    let s1 = vec![
        ev(1000, Operation::Delete, 1, vec![1]),
        ev(2000, Operation::Expire, 1, vec![1]),
    ];
    let s2 = vec![
        ev(1000, Operation::Delete, 1, vec![2]),
        ev(1500, Operation::Delete, 1, vec![3]),
    ];
    let batches = merge_into_batches(vec![s1.clone(), s2.clone()]);
    let buckets: Vec<i64> = batches.iter().map(|b| b.bucket).collect();
    assert_eq!(buckets, vec![1000, 1500, 2000]);
    assert_eq!(batches[0].events.len(), 2);
    assert_eq!(batches[1].events.len(), 1);
    assert_eq!(batches[2].events.len(), 1);

    // Source order does not change batch membership.
    let swapped = merge_into_batches(vec![s2, s1]);
    let swapped_buckets: Vec<i64> = swapped.iter().map(|b| b.bucket).collect();
    assert_eq!(swapped_buckets, buckets);
    let sizes: Vec<usize> = swapped.iter().map(|b| b.events.len()).collect();
    assert_eq!(sizes, vec![2, 1, 1]);
}

#[test]
fn batches_strictly_ascend_without_duplicates() {
    let s1 = vec![
        ev(10, Operation::Delete, 1, vec![1]),
        ev(10, Operation::Delete, 1, vec![2]),
        ev(30, Operation::Expire, 1, vec![1]),
    ];
    let s2 = vec![ev(10, Operation::Expire, 1, vec![3]), ev(20, Operation::Delete, 1, vec![3])];
    let batches = merge_into_batches(vec![s1, s2]);
    let buckets: Vec<i64> = batches.iter().map(|b| b.bucket).collect();
    assert_eq!(buckets, vec![10, 20, 30]);
    for w in buckets.windows(2) {
        assert!(w[0] < w[1]);
    }
    // Every event landed in the batch of its own timestamp.
    for b in &batches {
        for e in &b.events {
            assert_eq!(e.bucket, b.bucket);
        }
    }
    assert_eq!(batches[0].events.len(), 3);
}

#[test]
fn rate_follows_the_safe_division_rule() {
    assert_eq!(compute_rate(10, 0), 0);
    assert_eq!(compute_rate(10, 3), 3);
    assert_eq!(compute_rate(9, 10), 0);
    assert_eq!(compute_rate(0, 5), 0);
}

#[test]
fn scenario_single_segment_delete_batch() {
    // One segment of three objects at offset zero; one batch deletes 1 and 2.
    let segs = vec![Segment { segment: 1, num: 3 }];
    let sorted = sort_segments(segs);
    let (offsets, total) = segment_offsets(&sorted);
    assert_eq!(offsets, vec![0]);
    assert_eq!(total, 3);
    let mut state = State::new(offsets, total, 8);

    let t1 = 1_662_134_100i64;
    let sources = vec![vec![ev(t1, Operation::Delete, 1, vec![1, 2])]];
    let batches = merge_into_batches(sources);
    assert_eq!(batches.len(), 1);

    let summary = process_batch(&mut state, &batches[0], t1, t1).unwrap();
    assert_eq!(
        state.files,
        vec![FileState::DeleteMarker, FileState::DeleteMarker, FileState::Present]
    );
    assert_eq!(summary.total_actions, 2);
    assert_eq!(summary.counts.present, 1);
    assert_eq!(summary.counts.delete_marker, 2);
    assert_eq!(summary.counts.expired, 0);
    assert_eq!(summary.counts.delete_marker_deleted, 0);
    assert_eq!(summary.counts.weird_case, 0);
    // First batch: zero elapsed time, so zero rate and zero hours.
    assert_eq!(summary.rate, 0);
    assert_eq!(summary.hours, 0);
    // One frame, emitted under the zero-padded index 0000.
    assert_eq!(frame_index_label(0), "0000");
    let frame = state.get_frame();
    assert_eq!(frame.len(), 3 * 8 * (8 + 400));
}

#[test]
fn batch_aggregates_across_batches() {
    let segs = vec![Segment { segment: 1, num: 4 }];
    let sorted = sort_segments(segs);
    let (offsets, total) = segment_offsets(&sorted);
    let mut state = State::new(offsets, total, 8);

    let first = 1000i64;
    let sources = vec![
        vec![ev(1000, Operation::Delete, 1, vec![1, 2, 3]), ev(1010, Operation::Expire, 1, vec![1])],
        vec![ev(1010, Operation::Delete, 1, vec![4])],
    ];
    let batches = merge_into_batches(sources);
    assert_eq!(batches.len(), 2);

    let s0 = process_batch(&mut state, &batches[0], first, first).unwrap();
    assert_eq!(s0.total_actions, 3);
    assert_eq!(s0.rate, 0);
    let s1 = process_batch(&mut state, &batches[1], 1000, first).unwrap();
    assert_eq!(s1.total_actions, 2);
    // Ten seconds elapsed, two actions: integer floor division.
    assert_eq!(s1.rate, 0);
    assert_eq!(s1.hours, 0);
    assert_eq!(state.files[0], FileState::Expired);
    assert_eq!(state.files[3], FileState::DeleteMarker);
}

#[test]
fn empty_corpus_yields_no_batches() {
    let sorted = sort_segments(vec![]);
    let (offsets, total) = segment_offsets(&sorted);
    assert_eq!(offsets, Vec::<usize>::new());
    assert_eq!(total, 0);
    let state = State::new(offsets, total, 8);
    assert_eq!(state.image_size, 1);
    let batches = merge_into_batches(vec![]);
    assert_eq!(batches.len(), 0);
    // An empty population still renders: one background cell plus the margin.
    let frame = state.get_frame();
    assert_eq!(frame.len(), 3 * 8 * (8 + 400));
}

#[test]
fn operations_fold_deterministically_per_object() {
    let mut state = State::new(vec![0], 1, 8);
    let expected = [
        (Operation::Delete, FileState::DeleteMarker),
        (Operation::Expire, FileState::Expired),
        (Operation::Expire, FileState::DeleteMarkerDeleted),
        (Operation::Delete, FileState::WeirdCase),
        (Operation::Expire, FileState::WeirdCase),
    ];
    for (op, after) in expected.iter() {
        state.set_item(1, 1, op).unwrap();
        assert_eq!(state.files[0], *after);
    }
}

#[test]
fn process_batch_rejects_unresolvable_references() {
    let mut state = State::new(vec![0], 1, 8);
    let batches = merge_into_batches(vec![vec![ev(5, Operation::Delete, 2, vec![1])]]);
    let r = process_batch(&mut state, &batches[0], 5, 5);
    assert!(r.is_err());
    assert!(matches!(
        r,
        Err(statelapse::state::LocateError::SegmentOutOfRange { segment: 2, segment_count: 1 })
    ));
}
