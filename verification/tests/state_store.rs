use statelapse::state::{FileState, LocateError, Operation, State};

fn fresh_state(offsets: Vec<usize>, total: usize) -> State {
    State::new(offsets, total, 8)
}

#[test]
fn all_objects_start_present() {
    let s = fresh_state(vec![0], 5);
    assert_eq!(s.files, vec![FileState::Present; 5]);
    assert_eq!(s.files.len(), 5);
}

#[test]
fn image_size_is_isqrt_plus_one() {
    assert_eq!(fresh_state(vec![0], 0).image_size, 1);
    assert_eq!(fresh_state(vec![0], 1).image_size, 2);
    assert_eq!(fresh_state(vec![0], 3).image_size, 2);
    assert_eq!(fresh_state(vec![0], 4).image_size, 3);
    assert_eq!(fresh_state(vec![0], 940_370_485).image_size, 30666);
}

#[test]
fn canonical_lifecycle() {
    let mut s = fresh_state(vec![0], 1);
    assert_eq!(s.set_item(1, 1, &Operation::Delete), Ok(()));
    assert_eq!(s.files[0], FileState::DeleteMarker);
    assert_eq!(s.set_item(1, 1, &Operation::Expire), Ok(()));
    assert_eq!(s.files[0], FileState::Expired);
    assert_eq!(s.set_item(1, 1, &Operation::Expire), Ok(()));
    assert_eq!(s.files[0], FileState::DeleteMarkerDeleted);
}

#[test]
fn double_delete_is_an_anomaly_not_an_error() {
    let mut s = fresh_state(vec![0], 1);
    assert_eq!(s.set_item(1, 1, &Operation::Delete), Ok(()));
    assert_eq!(s.files[0], FileState::DeleteMarker);
    assert_eq!(s.set_item(1, 1, &Operation::Delete), Ok(()));
    assert_eq!(s.files[0], FileState::DeleteMarkerDeleted);
}

#[test]
fn expire_on_present_is_an_anomaly() {
    let mut s = fresh_state(vec![0], 1);
    assert_eq!(s.set_item(1, 1, &Operation::Expire), Ok(()));
    assert_eq!(s.files[0], FileState::DeleteMarkerDeleted);
}

#[test]
fn weird_case_is_absorbing() {
    let mut s = fresh_state(vec![0], 1);
    // Reach DeleteMarkerDeleted, then expire it: the weird case.
    assert_eq!(s.set_item(1, 1, &Operation::Delete), Ok(()));
    assert_eq!(s.set_item(1, 1, &Operation::Delete), Ok(()));
    assert_eq!(s.set_item(1, 1, &Operation::Expire), Ok(()));
    assert_eq!(s.files[0], FileState::WeirdCase);
    // Any further operation leaves it unchanged.
    assert_eq!(s.set_item(1, 1, &Operation::Delete), Ok(()));
    assert_eq!(s.files[0], FileState::WeirdCase);
    assert_eq!(s.set_item(1, 1, &Operation::Expire), Ok(()));
    assert_eq!(s.files[0], FileState::WeirdCase);
}

#[test]
fn locate_resolves_against_offsets() {
    let s = fresh_state(vec![0, 1, 3], 7);
    assert_eq!(s.locate(1, 1), Ok(0));
    assert_eq!(s.locate(2, 1), Ok(1));
    assert_eq!(s.locate(3, 1), Ok(3));
    assert_eq!(s.locate(3, 4), Ok(6));
}

#[test]
fn locate_reports_full_diagnostic_context() {
    let s = fresh_state(vec![0, 1, 3], 7);
    assert_eq!(
        s.locate(0, 1),
        Err(LocateError::SegmentOutOfRange { segment: 0, segment_count: 3 })
    );
    assert_eq!(
        s.locate(4, 1),
        Err(LocateError::SegmentOutOfRange { segment: 4, segment_count: 3 })
    );
    assert_eq!(s.locate(2, 0), Err(LocateError::NumberZero { segment: 2 }));
    assert_eq!(
        s.locate(3, 5),
        Err(LocateError::IndexOutOfRange { segment: 3, number: 5, offset: 3, index: 7, len: 7 })
    );
    assert_eq!(
        s.locate(3, usize::MAX),
        Err(LocateError::IndexOverflow { segment: 3, number: usize::MAX, offset: 3 })
    );
}

#[test]
fn set_item_out_of_range_leaves_state_unchanged() {
    let mut s = fresh_state(vec![0], 2);
    let r = s.set_item(1, 3, &Operation::Delete);
    assert_eq!(
        r,
        Err(LocateError::IndexOutOfRange { segment: 1, number: 3, offset: 0, index: 2, len: 2 })
    );
    assert_eq!(s.files, vec![FileState::Present; 2]);
}

#[test]
fn snapshot_counts_scans_every_state() {
    let mut s = fresh_state(vec![0], 6);
    s.set_item(1, 1, &Operation::Delete).unwrap();
    s.set_item(1, 2, &Operation::Delete).unwrap();
    s.set_item(1, 2, &Operation::Expire).unwrap();
    s.set_item(1, 3, &Operation::Expire).unwrap();
    // Object 4: down to the weird case.
    s.set_item(1, 4, &Operation::Expire).unwrap();
    s.set_item(1, 4, &Operation::Expire).unwrap();
    let c = s.snapshot_counts();
    assert_eq!(c.present, 2);
    assert_eq!(c.delete_marker, 1);
    assert_eq!(c.expired, 1);
    assert_eq!(c.delete_marker_deleted, 1);
    assert_eq!(c.weird_case, 1);
}
