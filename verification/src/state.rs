//! Per-object lifecycle states, the fixed transition table, and the dense
//! state store addressed through a segment offset table.

use vstd::prelude::*;

verus! {

use vstd::pervasive::VecAdditionalExecFns;

/// Lifecycle state of one object.
///
/// The canonical lifecycle is `Present -> DeleteMarker -> Expired ->
/// DeleteMarkerDeleted`; disordered or duplicated log lines are funneled into
/// anomaly transitions and, past that, into the absorbing `WeirdCase`.
#[derive(Clone, Copy, Debug, PartialEq, Eq, Structural)]
pub enum FileState {
    /// File exists.
    Present,
    /// Key is deleted.
    DeleteMarker,
    /// File completely deleted.
    Expired,
    /// The delete marker is gone.
    DeleteMarkerDeleted,
    /// Duplicate log lines, incorrect ordering, and the like; absorbing.
    WeirdCase,
}

/// Operation carried by an event record.
#[derive(Clone, Copy, Debug, PartialEq, Eq, Structural)]
pub enum Operation {
    Delete,
    Expire,
}

/// The transition table: next state for a (current state, operation) pair.
/// Total over its domain; the `WeirdCase` row is absorbing.
pub open spec fn next_state(s: FileState, op: Operation) -> FileState {
    match (op, s) {
        (Operation::Delete, FileState::Present) => FileState::DeleteMarker,
        (Operation::Expire, FileState::DeleteMarker) => FileState::Expired,
        (Operation::Expire, FileState::Expired) => FileState::DeleteMarkerDeleted,
        (Operation::Delete, FileState::DeleteMarker) => FileState::DeleteMarkerDeleted,
        (Operation::Expire, FileState::Present) => FileState::DeleteMarkerDeleted,
        (Operation::Delete, FileState::Expired) => FileState::WeirdCase,
        (Operation::Delete, FileState::DeleteMarkerDeleted) => FileState::WeirdCase,
        (Operation::Expire, FileState::DeleteMarkerDeleted) => FileState::WeirdCase,
        (Operation::Delete, FileState::WeirdCase) => FileState::WeirdCase,
        (Operation::Expire, FileState::WeirdCase) => FileState::WeirdCase,
    }
}

/// Executable transition lookup; agrees with `next_state` on every pair.
pub fn transition(s: FileState, op: Operation) -> (r: FileState)
    ensures
        r == next_state(s, op),
{
    match (op, s) {
        (Operation::Delete, FileState::Present) => FileState::DeleteMarker,
        (Operation::Expire, FileState::DeleteMarker) => FileState::Expired,
        (Operation::Expire, FileState::Expired) => FileState::DeleteMarkerDeleted,
        (Operation::Delete, FileState::DeleteMarker) => FileState::DeleteMarkerDeleted,
        (Operation::Expire, FileState::Present) => FileState::DeleteMarkerDeleted,
        (Operation::Delete, FileState::Expired) => FileState::WeirdCase,
        (Operation::Delete, FileState::DeleteMarkerDeleted) => FileState::WeirdCase,
        (Operation::Expire, FileState::DeleteMarkerDeleted) => FileState::WeirdCase,
        (Operation::Delete, FileState::WeirdCase) => FileState::WeirdCase,
        (Operation::Expire, FileState::WeirdCase) => FileState::WeirdCase,
    }
}

/// `WeirdCase` is absorbing: one further operation leaves it unchanged.
pub proof fn lemma_weird_case_absorbing(op: Operation)
    ensures
        next_state(FileState::WeirdCase, op) == FileState::WeirdCase,
{
}

/// The deterministic fold of the transition table over an ordered run of
/// operations applied to one object.
pub open spec fn fold_ops(s: FileState, ops: Seq<Operation>) -> FileState
    decreases ops.len(),
{
    if ops.len() == 0 {
        s
    } else {
        fold_ops(next_state(s, ops[0]), ops.drop_first())
    }
}

/// Once `WeirdCase` is reached, any further run of operations leaves the
/// state unchanged.
pub proof fn lemma_weird_case_absorbing_run(ops: Seq<Operation>)
    ensures
        fold_ops(FileState::WeirdCase, ops) == FileState::WeirdCase,
    decreases ops.len(),
{
    if ops.len() > 0 {
        lemma_weird_case_absorbing_run(ops.drop_first());
    }
}

/// `r` is the integer square root of `n`.
pub open spec fn is_isqrt(r: int, n: int) -> bool {
    0 <= r && r * r <= n && n < (r + 1) * (r + 1)
}

/// Integer square root by linear scan.
pub fn isqrt(n: usize) -> (r: usize)
    requires
        n < 65535 * 65535,
    ensures
        is_isqrt(r as int, n as int),
        r <= 65534,
{
    let mut r: usize = 0;
    loop
        invariant
            n < 65535 * 65535,
            r * r <= n,
            r <= 65534,
        decreases n - r,
    {
        if r == 65534 {
            proof {
                assert(n < (r + 1) * (r + 1)) by (nonlinear_arith)
                    requires
                        n < 65535 * 65535,
                        r == 65534,
                ;
            }
            return r;
        }
        proof {
            assert((r + 1) * (r + 1) <= 65535 * 65535) by (nonlinear_arith)
                requires
                    r <= 65533,
            ;
        }
        let sq: usize = (r + 1) * (r + 1);
        if sq > n {
            return r;
        }
        proof {
            assert((r + 1) * (r + 1) <= n ==> r + 1 <= n) by (nonlinear_arith);
        }
        r = r + 1;
    }
}

/// Aggregate counts per lifecycle state, from one snapshot scan.
#[derive(Clone, Copy, Debug, PartialEq, Eq, Structural)]
pub struct StateCounts {
    pub present: usize,
    pub delete_marker: usize,
    pub expired: usize,
    pub delete_marker_deleted: usize,
    pub weird_case: usize,
}

/// How many entries of `s` hold the state `t`.
pub open spec fn count_state(s: Seq<FileState>, t: FileState) -> nat
    decreases s.len(),
{
    if s.len() == 0 {
        0
    } else {
        count_state(s.drop_last(), t) + (if s.last() == t {
            1nat
        } else {
            0nat
        })
    }
}

/// Counting one more entry raises exactly the matching count by one.
proof fn lemma_count_take_step(s: Seq<FileState>, i: int, t: FileState)
    requires
        0 <= i < s.len(),
    ensures
        count_state(s.take(i + 1), t) == count_state(s.take(i), t) + (if s[i] == t {
            1nat
        } else {
            0nat
        }),
{
    assert(s.take(i + 1).drop_last() =~= s.take(i));
    assert(s.take(i + 1).last() == s[i]);
}

/// A per-state count never exceeds the number of entries scanned.
proof fn lemma_count_le_len(s: Seq<FileState>, t: FileState)
    ensures
        count_state(s, t) <= s.len(),
    decreases s.len(),
{
    if s.len() > 0 {
        lemma_count_le_len(s.drop_last(), t);
    }
}

/// Why an event's (segment, number) reference could not be resolved to a
/// state-array index; carries the full diagnostic context, as a corrupt or
/// mismatched input corpus is unrecoverable at this layer.
#[derive(Clone, Copy, Debug, PartialEq, Eq, Structural)]
pub enum LocateError {
    /// The segment id does not address a row of the offset table.
    SegmentOutOfRange { segment: usize, segment_count: usize },
    /// In-segment numbers are 1-indexed; zero never resolves.
    NumberZero { segment: usize },
    /// The offset plus number would not even fit in an index.
    IndexOverflow { segment: usize, number: usize, offset: usize },
    /// The computed index lies outside the state array.
    IndexOutOfRange { segment: usize, number: usize, offset: usize, index: usize, len: usize },
}

/// Dense per-object state array, addressed via the segment offset table.
pub struct State {
    /// Exclusive prefix sums of segment object counts, ascending by segment id.
    pub offsets: Vec<usize>,
    /// One lifecycle state per object.
    pub files: Vec<FileState>,
    /// Side length of the square full-resolution raster.
    pub image_size: usize,
    /// Side length of the square downsampled output raster.
    pub output_image_size: u32,
}

impl State {
    /// Geometric well-formedness: the raster side is `isqrt(len) + 1` and all
    /// raster and canvas buffer sizes fit the machine.
    pub open spec fn wf(self) -> bool {
        &&& self.image_size >= 1
        &&& is_isqrt(self.image_size - 1, self.files.len() as int)
        &&& self.image_size * self.image_size <= u32::MAX
        &&& 3 * self.image_size * self.image_size <= usize::MAX
        &&& 1 <= self.output_image_size <= 0xFFFF
        &&& 3 * self.output_image_size * (self.output_image_size + 400) <= usize::MAX
    }

    /// A (segment, number) pair resolves to an index inside the state array.
    pub open spec fn valid_ref(self, segment: usize, number: usize) -> bool {
        &&& 1 <= segment <= self.offsets.len()
        &&& 1 <= number
        &&& self.offsets[segment - 1] + number - 1 < self.files.len()
    }

    /// The state-array index of a valid (segment, number) pair.
    pub open spec fn spec_index_of(self, segment: usize, number: usize) -> int {
        self.offsets[segment - 1] + number - 1
    }

    /// The first object of each segment sits exactly at that segment's
    /// offset-table entry.
    pub proof fn lemma_locate_segment_start(self, segment: usize)
        requires
            1 <= segment <= self.offsets.len(),
        ensures
            self.spec_index_of(segment, 1) == self.offsets[segment - 1],
    {
    }

    /// Builds a store of `total_size` objects, all `Present`, with the raster
    /// side fixed at `isqrt(total_size) + 1`.
    pub fn new(offsets: Vec<usize>, total_size: usize, output_image_size: u32) -> (s: State)
        requires
            total_size < 65535 * 65535,
            16 * total_size <= usize::MAX,
            1 <= output_image_size <= 0xFFFF,
            3 * output_image_size * (output_image_size + 400) <= usize::MAX,
        ensures
            s.wf(),
            s.offsets == offsets,
            s.files.len() == total_size,
            forall|i: int| 0 <= i < total_size ==> s.files[i] == FileState::Present,
            s.output_image_size == output_image_size,
            is_isqrt(s.image_size - 1, total_size as int),
    {
        let files: Vec<FileState> = vec![FileState::Present; total_size];
        let length = files.len();
        let root = isqrt(length);
        let image_size = root + 1;
        proof {
            assert(image_size * image_size <= u32::MAX && 3 * image_size * image_size
                <= usize::MAX) by (nonlinear_arith)
                requires
                    is_isqrt(root as int, length as int),
                    root <= 65534,
                    image_size == root + 1,
                    length < 65535 * 65535,
                    16 * length <= usize::MAX,
                    usize::MAX >= u32::MAX,
                    u32::MAX == 0xFFFF_FFFF,
            ;
        }
        State { offsets, files, image_size, output_image_size }
    }

    /// Resolves a 1-indexed (segment, number) pair to a state-array index, or
    /// reports exactly why it does not resolve.
    pub fn locate(&self, segment: usize, number: usize) -> (r: Result<usize, LocateError>)
        ensures
            match r {
                Ok(idx) => self.valid_ref(segment, number) && idx == self.spec_index_of(
                    segment,
                    number,
                ),
                Err(e) => !self.valid_ref(segment, number) && self.locate_err_spec(
                    segment,
                    number,
                    e,
                ),
            },
    {
        if segment == 0 || segment > self.offsets.len() {
            return Err(
                LocateError::SegmentOutOfRange { segment, segment_count: self.offsets.len() },
            );
        }
        let offset = self.offsets[segment - 1];
        if number == 0 {
            return Err(LocateError::NumberZero { segment });
        }
        match offset.checked_add(number - 1) {
            None => Err(LocateError::IndexOverflow { segment, number, offset }),
            Some(idx) => {
                if idx < self.files.len() {
                    Ok(idx)
                } else {
                    Err(
                        LocateError::IndexOutOfRange {
                            segment,
                            number,
                            offset,
                            index: idx,
                            len: self.files.len(),
                        },
                    )
                }
            },
        }
    }

    /// Applies one operation to the object addressed by (segment, number):
    /// looks up the current state, consults the transition table, and
    /// overwrites with the next state.  An unresolvable reference leaves the
    /// store unchanged and reports the full diagnostic context.
    pub fn set_item(&mut self, segment: usize, number: usize, operation: &Operation) -> (r: Result<
        (),
        LocateError,
    >)
        ensures
            final(self).offsets == old(self).offsets,
            final(self).image_size == old(self).image_size,
            final(self).output_image_size == old(self).output_image_size,
            final(self).files.len() == old(self).files.len(),
            old(self).wf() ==> final(self).wf(),
            match r {
                Ok(()) => old(self).valid_ref(segment, number) && final(self).files@ == old(
                    self,
                ).files@.update(
                    old(self).spec_index_of(segment, number),
                    next_state(
                        old(self).files[old(self).spec_index_of(segment, number)],
                        *operation,
                    ),
                ),
                Err(e) => !old(self).valid_ref(segment, number) && *final(self) == *old(self)
                    && old(self).locate_err_spec(segment, number, e),
            },
    {
        let idx = match self.locate(segment, number) {
            Ok(idx) => idx,
            Err(e) => {
                return Err(e);
            },
        };
        let current = self.files[idx];
        let next = transition(current, *operation);
        self.files.set(idx, next);
        Ok(())
    }

    /// Counts the objects in each lifecycle state with one full linear scan.
    pub fn snapshot_counts(&self) -> (c: StateCounts)
        ensures
            c.present == count_state(self.files@, FileState::Present),
            c.delete_marker == count_state(self.files@, FileState::DeleteMarker),
            c.expired == count_state(self.files@, FileState::Expired),
            c.delete_marker_deleted == count_state(self.files@, FileState::DeleteMarkerDeleted),
            c.weird_case == count_state(self.files@, FileState::WeirdCase),
    {
        let mut c = StateCounts {
            present: 0,
            delete_marker: 0,
            expired: 0,
            delete_marker_deleted: 0,
            weird_case: 0,
        };
        let len = self.files.len();
        let mut i: usize = 0;
        while i < len
            invariant
                i <= len,
                len == self.files.len(),
                c.present == count_state(self.files@.take(i as int), FileState::Present),
                c.delete_marker == count_state(self.files@.take(i as int), FileState::DeleteMarker),
                c.expired == count_state(self.files@.take(i as int), FileState::Expired),
                c.delete_marker_deleted == count_state(
                    self.files@.take(i as int),
                    FileState::DeleteMarkerDeleted,
                ),
                c.weird_case == count_state(self.files@.take(i as int), FileState::WeirdCase),
            decreases len - i,
        {
            proof {
                lemma_count_take_step(self.files@, i as int, FileState::Present);
                lemma_count_take_step(self.files@, i as int, FileState::DeleteMarker);
                lemma_count_take_step(self.files@, i as int, FileState::Expired);
                lemma_count_take_step(self.files@, i as int, FileState::DeleteMarkerDeleted);
                lemma_count_take_step(self.files@, i as int, FileState::WeirdCase);
                lemma_count_le_len(self.files@.take(i as int), FileState::Present);
                lemma_count_le_len(self.files@.take(i as int), FileState::DeleteMarker);
                lemma_count_le_len(self.files@.take(i as int), FileState::Expired);
                lemma_count_le_len(self.files@.take(i as int), FileState::DeleteMarkerDeleted);
                lemma_count_le_len(self.files@.take(i as int), FileState::WeirdCase);
            }
            match self.files[i] {
                FileState::Present => c.present = c.present + 1,
                FileState::DeleteMarker => c.delete_marker = c.delete_marker + 1,
                FileState::Expired => c.expired = c.expired + 1,
                FileState::DeleteMarkerDeleted => c.delete_marker_deleted = c.delete_marker_deleted
                    + 1,
                FileState::WeirdCase => c.weird_case = c.weird_case + 1,
            }
            i = i + 1;
        }
        proof {
            assert(self.files@.take(len as int) =~= self.files@);
        }
        c
    }

    /// The error that `locate` reports for an unresolvable reference.
    pub open spec fn locate_err_spec(self, segment: usize, number: usize, e: LocateError) -> bool {
        match e {
            LocateError::SegmentOutOfRange { segment: s, segment_count } => s == segment
                && segment_count == self.offsets.len() && !(1 <= segment <= self.offsets.len()),
            LocateError::NumberZero { segment: s } => s == segment && 1 <= segment
                <= self.offsets.len() && number == 0,
            LocateError::IndexOverflow { segment: s, number: n, offset } => s == segment && n
                == number && 1 <= segment <= self.offsets.len() && 1 <= number && offset
                == self.offsets[segment - 1] && offset + number - 1 > usize::MAX,
            LocateError::IndexOutOfRange { segment: s, number: n, offset, index, len } => s
                == segment && n == number && 1 <= segment <= self.offsets.len() && 1 <= number
                && offset == self.offsets[segment - 1] && index == offset + number - 1 && len
                == self.files.len() && index >= len,
        }
    }
}

} // verus!
