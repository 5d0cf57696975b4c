//! The operations that an io_uring worker thread drives, each as a state machine.
//!
//! A `GetRanges` operation opens a file and asks for its size and alignment (two submissions,
//! `openat` and `statx`); when both have completed successfully it spawns one `GetRange`
//! operation per requested byte range. Each `GetRange` reads its range and emits a chunk; the
//! last `GetRange` to finish with the file turns into a `Close` operation.
//!
//! The worker submits the entries and hands each completion to the operation it belongs to;
//! the operation answers with what to do next.

use crate::aligned_bytes::{AlignedBytes, BufferView};
use crate::io::{Chunk, Output};
use crate::opcode::{close_code, openat_code, statx_code, OpCode, CLOSE, OPENAT, READ, STATX};
use crate::open_file::{OpenFile, OpenFileBuilder, StatxFields};
use crate::aligned_bytes::padded_len;
use crate::read_range::{
    aligned_down, build_read_range, can_build_read_range, plan_reads_the_request, read_range_ok, resolve_end,
    resolve_start, ReadRange, ALIGN,
};
use crate::user_data::{spec_encode, UringUserData};
use std::ops::Range;
use std::sync::Arc;
use vstd::prelude::*;

verus! {

/// `read` transfers at most this many bytes in one call.
pub const MAX_READ_LEN: usize = 2_147_479_552;

/// The number of completions that `GetRanges` expects: one for `openat`, one for `statx`.
pub const N_CQES_EXPECTED: u8 = 2;

/// The number of bytes in a range of offsets (zero if it is empty).
pub open spec fn range_len(r: Range<isize>) -> int {
    if r.start < r.end {
        r.end - r.start
    } else {
        0
    }
}

/// `Arc::try_unwrap`: returns the inner value if `a` is the only `Arc` that holds it, and
/// otherwise gives back the same `Arc`. Which of the two happens depends on the other owners
/// alive at the time of the call; either way nothing is lost.
#[verifier::external_body]
fn arc_try_unwrap<T>(a: Arc<T>) -> (r: Result<T, Arc<T>>)
    ensures
        r matches Ok(t) ==> t == *a,
        r matches Err(b) ==> b == a,
{
    Arc::try_unwrap(a)
}

/// What an operation asks of the worker after a completion.
#[derive(Debug)]
pub enum NextStep {
    /// More completions are expected: keep the operation.
    Pending,
    /// The operation is finished: remove it.
    Done,
    /// Replace the operation with another one, whose first step the worker submits.
    ReplaceWith(Operation),
}

/// An error that an operation reports to the user: the `errno` that the kernel gave, the file,
/// and, for the read of one range, the range and the `user_data` that identifies it.
#[derive(Debug)]
pub struct OperationError {
    pub errno: i32,
    pub location: Vec<u8>,
    pub range: Option<Range<isize>>,
    pub user_data: Option<u64>,
}

/// A copy of `bytes`.
fn copy_bytes(bytes: &Vec<u8>) -> (r: Vec<u8>)
    ensures
        r@ == bytes@,
{
    let mut r: Vec<u8> = Vec::new();
    let mut i: usize = 0;
    while i < bytes.len()
        invariant
            i <= bytes.len(),
            r@ == bytes@.subrange(0, i as int),
        decreases bytes.len() - i,
    {
        r.push(bytes[i]);
        i = i + 1;
    }
    assert(r@ == bytes@);
    r
}

/// Closes an open file.
#[derive(Debug)]
pub struct Close {
    file: OpenFile,
}

impl Close {
    pub closed spec fn spec_file(self) -> OpenFile {
        self.file
    }

    pub fn new(file: OpenFile) -> (r: Self)
        ensures
            r.spec_file() == file,
    {
        Close { file }
    }

    /// The file descriptor to close and the `user_data` of the `close` submission.
    pub fn first_step(&self, index_of_op: usize) -> (r: (i32, u64))
        requires
            index_of_op < u32::MAX,
        ensures
            r.0 == self.spec_file().spec_file_descriptor(),
            r.1 == spec_encode(index_of_op as u32, CLOSE),
    {
        let user_data = UringUserData::new(index_of_op as u32, OpCode::new(close_code())).into_u64();
        (self.file.file_descriptor(), user_data)
    }

    /// The `close` completed: the operation is done. The completion must be for `close`.
    pub fn process_opcode_and_submit_next_step(&self, idx_and_opcode: &UringUserData) -> (r: NextStep)
        requires
            idx_and_opcode.spec_opcode().0 == CLOSE,
        ensures
            r is Done,
    {
        NextStep::Done
    }
}

/// Reads one byte range of an open file that other operations may share.
#[derive(Debug)]
pub struct GetRange {
    file: Option<Arc<OpenFile>>,
    range: Range<isize>,
    user_data: u64,
    buffer: Option<AlignedBytes>,
}

impl GetRange {
    pub closed spec fn spec_file(self) -> Option<OpenFile> {
        match self.file {
            Some(f) => Some(*f),
            None => None,
        }
    }

    pub closed spec fn spec_range(self) -> Range<isize> {
        self.range
    }

    pub closed spec fn spec_user_data(self) -> u64 {
        self.user_data
    }

    pub closed spec fn spec_buffer(self) -> Option<BufferView> {
        match self.buffer {
            Some(b) => Some(b@),
            None => None,
        }
    }

    /// The file descriptor of the file to read, while the file is held.
    pub fn file_descriptor(&self) -> (r: Option<i32>)
        ensures
            r == match self.spec_file() {
                Some(f) => Some(f.spec_file_descriptor()),
                None => None,
            },
    {
        match &self.file {
            Some(f) => Some(f.file_descriptor()),
            None => None,
        }
    }

    /// A read of `range` from `file`, identified to the user by `user_data`. The range must
    /// not be longer than one `read` can transfer.
    pub fn new(file: Arc<OpenFile>, range: Range<isize>, user_data: u64) -> (r: Self)
        requires
            range_len(range) <= MAX_READ_LEN,
        ensures
            r.spec_file() == Some(*file),
            r.spec_range() == range,
            r.spec_user_data() == user_data,
            r.spec_buffer() is None,
    {
        GetRange { file: Some(file), range, user_data, buffer: None }
    }

    /// Plans the read and keeps its buffer. The file must be open and the range must be
    /// readable from it.
    pub fn first_step(&mut self, index_of_op: usize) -> (r: ReadRange)
        requires
            old(self).spec_file() is Some,
            read_range_ok(index_of_op, old(self).spec_file().unwrap().spec_size(), old(self).spec_range()),
        ensures
            final(self).spec_buffer() == Some(r.buffer@),
            final(self).spec_file() == old(self).spec_file(),
            final(self).spec_range() == old(self).spec_range(),
            final(self).spec_user_data() == old(self).spec_user_data(),
            read_planned(r, index_of_op, old(self).spec_file().unwrap().spec_size(), old(self).spec_range()),
    {
        let file = match &self.file {
            Some(f) => f,
            None => vstd::pervasive::unreached(),
        };
        let plan = build_read_range(index_of_op, &**file, &self.range);
        self.buffer = Some(plan.buffer.clone());
        plan
    }

    /// The read completed with `cqe_result`. On success the chunk is emitted; on failure the
    /// error, naming the file, the range and its `user_data`, is emitted instead. Then, if no
    /// other operation holds the file, this operation turns into a `Close` of the file;
    /// otherwise it is done.
    ///
    /// The completion must be for `read`, the file must be held, a successful read must have a
    /// buffer, and the result must not be `i32::MIN`.
    pub fn process_opcode_and_submit_next_step(
        &mut self,
        idx_and_opcode: &UringUserData,
        cqe_result: i32,
    ) -> (r: (NextStep, Result<Output, OperationError>))
        requires
            idx_and_opcode.spec_opcode().0 == READ,
            old(self).spec_file() is Some,
            cqe_result >= 0 ==> old(self).spec_buffer() is Some,
            cqe_result != i32::MIN,
        ensures
            r.1 is Ok <==> cqe_result >= 0,
            r.1 matches Ok(Output::Chunk(c)) ==> c.buffer@ == old(self).spec_buffer().unwrap()
                && c.user_data == old(self).spec_user_data(),
            r.1 matches Err(e) ==> read_error(e, -cqe_result, old(self).spec_file().unwrap().spec_location(),
                old(self).spec_range(), old(self).spec_user_data()),
            r.0 is Done || r.0 is ReplaceWith,
            r.0 is Done ==> final(self).spec_file() == old(self).spec_file(),
            r.0 matches NextStep::ReplaceWith(op) ==> (op matches Operation::Close(c)
                && c.spec_file() == old(self).spec_file().unwrap()),
            r.0 is ReplaceWith ==> final(self).spec_file() is None,
            final(self).spec_range() == old(self).spec_range(),
            final(self).spec_user_data() == old(self).spec_user_data(),
            cqe_result >= 0 ==> final(self).spec_buffer() is None,
            cqe_result < 0 ==> final(self).spec_buffer() == old(self).spec_buffer(),
    {
        let output = if cqe_result >= 0 {
            let mut taken: Option<AlignedBytes> = None;
            std::mem::swap(&mut taken, &mut self.buffer);
            let buffer = match taken {
                Some(b) => b,
                None => vstd::pervasive::unreached(),
            };
            Ok(Output::Chunk(Chunk { buffer, user_data: self.user_data }))
        } else {
            let location = match &self.file {
                Some(f) => copy_bytes(f.location()),
                None => vstd::pervasive::unreached(),
            };
            Err(OperationError {
                errno: -cqe_result,
                location,
                range: Some(self.range.start..self.range.end),
                user_data: Some(self.user_data),
            })
        };
        let mut taken_file: Option<Arc<OpenFile>> = None;
        std::mem::swap(&mut taken_file, &mut self.file);
        let file = match taken_file {
            Some(f) => f,
            None => vstd::pervasive::unreached(),
        };
        let (next, kept) = step_after_last_read(arc_try_unwrap(file));
        self.file = kept;
        (next, output)
    }
}

/// What follows a read, given what `Arc::try_unwrap` made of the file it read: a file that no
/// other operation holds any more is closed, so the read is replaced by a `Close` of that file
/// and keeps nothing; a file still shared is kept and the read is done.
pub fn step_after_last_read(unwrapped: Result<OpenFile, Arc<OpenFile>>) -> (r: (NextStep, Option<Arc<OpenFile>>))
    ensures
        unwrapped matches Ok(f) ==> r.1 is None && (r.0 matches NextStep::ReplaceWith(op)
            && op matches Operation::Close(c) && c.spec_file() == f),
        unwrapped matches Err(a) ==> r.0 is Done && r.1 == Some(a),
{
    match unwrapped {
        Ok(file) => {
            // This was the last operation on the file, so it is time to close it.
            (NextStep::ReplaceWith(Operation::Close(Close::new(file))), None)
        },
        Err(file) => (NextStep::Done, Some(file)),
    }
}

/// `plan` is the read that [`build_read_range`] plans for `range` of a file of `filesize`
/// bytes: from the start rounded down to the alignment, the whole padded buffer that reaches
/// the end, with the requested bytes in view.
pub open spec fn read_planned(plan: ReadRange, index_of_op: usize, filesize: u64, range: Range<isize>) -> bool {
    let s = resolve_start(range.start as int, filesize as int);
    let e = resolve_end(range.end as int, filesize as int);
    let a = aligned_down(s);
    &&& plan.offset == a
    &&& plan.len == padded_len(e - a, ALIGN as int)
    &&& plan.user_data == spec_encode(index_of_op as u32, READ)
    &&& plan.buffer@ == (BufferView {
        start: s - a,
        end: e - a,
        buffer_len: padded_len(e - a, ALIGN as int),
        alignment: ALIGN as int,
    })
    &&& plan_reads_the_request(plan.offset as int, plan.len as int, plan.buffer@, filesize as int, range)
}

/// The error reported when reading `range` of the file at `location` failed with `errno`.
pub open spec fn read_error(e: OperationError, errno: int, location: Seq<u8>, range: Range<isize>, user_data: u64) -> bool {
    &&& e.errno == errno
    &&& e.location@ == location
    &&& e.range == Some(range)
    &&& e.user_data == Some(user_data)
}

/// The error reported when opening the file at `location`, or learning its size, failed with
/// `errno`.
pub open spec fn open_error(e: OperationError, errno: int, location: Seq<u8>) -> bool {
    &&& e.errno == errno
    &&& e.location@ == location
    &&& e.range is None
    &&& e.user_data is None
}

/// Returns whether `range` can be read with one `read`.
pub fn fits_one_read(range: &Range<isize>) -> (r: bool)
    ensures
        r == (range_len(*range) <= MAX_READ_LEN),
{
    if range.start < range.end {
        (range.end as i128 - range.start as i128) <= MAX_READ_LEN as i128
    } else {
        true
    }
}

/// Returns whether every range can be read with one `read`.
pub fn all_fit_one_read(ranges: &Vec<Range<isize>>) -> (r: bool)
    ensures
        r == ranges_fit_one_read(ranges@),
{
    let n = ranges.len();
    let mut i: usize = 0;
    while i < n
        invariant
            n == ranges.len(),
            i <= n,
            forall|k: int| 0 <= k < i ==> range_len(#[trigger] ranges@[k]) <= MAX_READ_LEN,
        decreases n - i,
    {
        if !fits_one_read(&ranges[i]) {
            return false;
        }
        i = i + 1;
    }
    true
}

/// Every range can be read with one `read`.
pub open spec fn ranges_fit_one_read(ranges: Seq<Range<isize>>) -> bool {
    forall|i: int| 0 <= i < ranges.len() ==> range_len(#[trigger] ranges[i]) <= MAX_READ_LEN
}

/// Opens a file, learns its size and alignment, and then reads several byte ranges from it.
#[derive(Debug)]
pub struct GetRanges {
    open_file_builder: Option<OpenFileBuilder>,
    ranges: Vec<Range<isize>>,
    user_data: Vec<u64>,
    /// The number of completions received, successful or not.
    n_cqes_received: u8,
    /// Whether an error has been reported to the user.
    error_reported: bool,
}

impl GetRanges {
    pub closed spec fn spec_builder(self) -> Option<OpenFileBuilder> {
        self.open_file_builder
    }

    pub closed spec fn spec_ranges(self) -> Seq<Range<isize>> {
        self.ranges@
    }

    pub closed spec fn spec_user_data(self) -> Seq<u64> {
        self.user_data@
    }

    pub closed spec fn spec_n_cqes_received(self) -> u8 {
        self.n_cqes_received
    }

    pub closed spec fn spec_error_reported(self) -> bool {
        self.error_reported
    }

    /// Reads `ranges` from the file at `location`; `user_data[i]` identifies `ranges[i]`.
    /// There must be one `user_data` per range.
    pub fn new(location: Vec<u8>, ranges: Vec<Range<isize>>, user_data: Vec<u64>) -> (r: Self)
        requires
            ranges.len() == user_data.len(),
        ensures
            r.spec_builder() matches Some(b) && b.spec_location() == location@
                && b.spec_file_descriptor() is None && !b.spec_statx_initialised(),
            r.spec_ranges() == ranges@,
            r.spec_user_data() == user_data@,
            r.spec_n_cqes_received() == 0,
            !r.spec_error_reported(),
    {
        GetRanges {
            open_file_builder: Some(OpenFileBuilder::new(location)),
            ranges,
            user_data,
            n_cqes_received: 0,
            error_reported: false,
        }
    }

    /// The `user_data` of the `openat` and the `statx` submissions.
    pub fn first_step(&self, index_of_op: usize) -> (r: (u64, u64))
        requires
            index_of_op < u32::MAX,
        ensures
            r.0 == spec_encode(index_of_op as u32, OPENAT),
            r.1 == spec_encode(index_of_op as u32, STATX),
    {
        let open = UringUserData::new(index_of_op as u32, OpCode::new(openat_code())).into_u64();
        let statx = UringUserData::new(index_of_op as u32, OpCode::new(statx_code())).into_u64();
        (open, statx)
    }

    /// The path of the file to open. The file must not be open yet.
    pub fn location(&self) -> (r: &Vec<u8>)
        requires
            self.spec_builder() is Some,
        ensures
            r@ == self.spec_builder().unwrap().spec_location(),
    {
        match &self.open_file_builder {
            Some(b) => b.location(),
            None => vstd::pervasive::unreached(),
        }
    }

    /// Stores the `statx` fields that the kernel wrote for this file.
    pub fn set_statx(&mut self, statx: StatxFields)
        requires
            old(self).spec_builder() is Some,
        ensures
            final(self).spec_builder() matches Some(b) && b.spec_statx() == statx
                && b.spec_location() == old(self).spec_builder().unwrap().spec_location()
                && b.spec_file_descriptor() == old(self).spec_builder().unwrap().spec_file_descriptor()
                && b.spec_statx_initialised() == old(self).spec_builder().unwrap().spec_statx_initialised(),
            final(self).spec_ranges() == old(self).spec_ranges(),
            final(self).spec_user_data() == old(self).spec_user_data(),
            final(self).spec_n_cqes_received() == old(self).spec_n_cqes_received(),
            final(self).spec_error_reported() == old(self).spec_error_reported(),
    {
        match &mut self.open_file_builder {
            Some(b) => b.set_statx(statx),
            None => {},
        }
    }

    /// One `GetRange` per requested range, all sharing the opened file.
    fn submit_get_range_ops(&mut self) -> (r: Vec<GetRange>)
        requires
            old(self).spec_builder() matches Some(b) && b.spec_is_ready(),
            old(self).spec_ranges().len() == old(self).spec_user_data().len(),
            ranges_fit_one_read(old(self).spec_ranges()),
        ensures
            final(self).spec_builder() is None,
            final(self).spec_ranges() == old(self).spec_ranges(),
            final(self).spec_user_data() == old(self).spec_user_data(),
            final(self).spec_error_reported() == old(self).spec_error_reported(),
            final(self).spec_n_cqes_received() == old(self).spec_n_cqes_received(),
            r.len() == old(self).spec_ranges().len(),
            forall|i: int|
                0 <= i < r.len() ==> {
                    &&& (#[trigger] r[i]).spec_range() == old(self).spec_ranges()[i]
                    &&& r[i].spec_user_data() == old(self).spec_user_data()[i]
                    &&& r[i].spec_buffer() is None
                    &&& r[i].spec_file() matches Some(f) && file_built_from(f, old(self).spec_builder().unwrap())
                },
    {
        let mut taken: Option<OpenFileBuilder> = None;
        std::mem::swap(&mut taken, &mut self.open_file_builder);
        let builder = match taken {
            Some(b) => b,
            None => vstd::pervasive::unreached(),
        };
        let ghost b = builder;
        let file = Arc::new(builder.build());
        assert(file_built_from(*file, b));
        let mut ops: Vec<GetRange> = Vec::new();
        let n = self.ranges.len();
        let mut i: usize = 0;
        while i < n
            invariant
                n == self.ranges.len(),
                n == self.user_data.len(),
                i <= n,
                ranges_fit_one_read(self.ranges@),
                file_built_from(*file, b),
                ops.len() == i,
                forall|k: int|
                    0 <= k < i ==> {
                        &&& (#[trigger] ops[k]).spec_range() == self.ranges@[k]
                        &&& ops[k].spec_user_data() == self.user_data@[k]
                        &&& ops[k].spec_buffer() is None
                        &&& ops[k].spec_file() == Some(*file)
                    },
            decreases n - i,
        {
            let range = self.ranges[i].start..self.ranges[i].end;
            assert(range == self.ranges@[i as int]);
            let op = GetRange::new(file.clone(), range, self.user_data[i]);
            ops.push(op);
            i = i + 1;
        }
        ops
    }

    /// A completion for `openat` or `statx` arrived with `cqe_result`. A successful `openat`
    /// records the file descriptor and a successful `statx` marks the size and alignment as
    /// known. The first failed completion is reported to the user as an error naming the file;
    /// a later one is not, so a missing file gives one error. After the second completion the
    /// operation is done; if both succeeded it spawns one `GetRange` per range.
    ///
    /// At most two completions may arrive, a successful one must be for `openat` or `statx`,
    /// the result must not be `i32::MIN`, and when ranges are spawned each must fit one `read`.
    pub fn process_opcode_and_submit_next_step(
        &mut self,
        idx_and_opcode: &UringUserData,
        cqe_result: i32,
    ) -> (r: (NextStep, Vec<GetRange>, Option<OperationError>))
        requires
            old(self).spec_builder() is Some,
            old(self).spec_n_cqes_received() < N_CQES_EXPECTED,
            old(self).spec_ranges().len() == old(self).spec_user_data().len(),
            cqe_result != i32::MIN,
            cqe_result >= 0 ==> (idx_and_opcode.spec_opcode().0 == OPENAT
                || idx_and_opcode.spec_opcode().0 == STATX),
            spawns_get_ranges(old(self).spec_builder().unwrap(), old(self).spec_n_cqes_received(), idx_and_opcode.spec_opcode().0, cqe_result)
                ==> ranges_fit_one_read(old(self).spec_ranges()),
        ensures
            final(self).spec_n_cqes_received() == old(self).spec_n_cqes_received() + 1,
            final(self).spec_ranges() == old(self).spec_ranges(),
            final(self).spec_user_data() == old(self).spec_user_data(),
            final(self).spec_error_reported() == (old(self).spec_error_reported() || cqe_result < 0),
            r.2 is Some <==> (cqe_result < 0 && !old(self).spec_error_reported()),
            idx_and_opcode.spec_opcode().0 != OPENAT && final(self).spec_builder() is Some ==> final(self).spec_builder().unwrap().spec_file_descriptor() == old(self).spec_builder().unwrap().spec_file_descriptor(),
            idx_and_opcode.spec_opcode().0 == OPENAT && cqe_result < 0 && final(self).spec_builder() is Some
                ==> final(self).spec_builder().unwrap().spec_file_descriptor() == old(self).spec_builder().unwrap().spec_file_descriptor(),
            idx_and_opcode.spec_opcode().0 != STATX && final(self).spec_builder() is Some ==> final(self).spec_builder().unwrap().spec_statx_initialised() == old(self).spec_builder().unwrap().spec_statx_initialised(),
            final(self).spec_builder() is None && idx_and_opcode.spec_opcode().0 == OPENAT && cqe_result >= 0
                ==> forall|i: int| 0 <= i < r.1.len() ==> (#[trigger] r.1[i]).spec_file().unwrap().spec_file_descriptor() == cqe_result,
            final(self).spec_builder() is None && !(idx_and_opcode.spec_opcode().0 == OPENAT && cqe_result >= 0)
                ==> old(self).spec_builder().unwrap().spec_file_descriptor() is Some
                && forall|i: int| 0 <= i < r.1.len() ==> (#[trigger] r.1[i]).spec_file().unwrap().spec_file_descriptor()
                    == old(self).spec_builder().unwrap().spec_file_descriptor().unwrap(),
            r.2 matches Some(e) ==> open_error(e, -cqe_result, old(self).spec_builder().unwrap().spec_location()),
            old(self).spec_n_cqes_received() + 1 < N_CQES_EXPECTED ==> r.0 is Pending,
            old(self).spec_n_cqes_received() + 1 == N_CQES_EXPECTED ==> r.0 is Done,
            spawns_get_ranges(old(self).spec_builder().unwrap(), old(self).spec_n_cqes_received(), idx_and_opcode.spec_opcode().0, cqe_result) ==> {
                &&& final(self).spec_builder() is None
                &&& r.1.len() == old(self).spec_ranges().len()
                &&& forall|i: int|
                    0 <= i < r.1.len() ==> {
                        &&& (#[trigger] r.1[i]).spec_range() == old(self).spec_ranges()[i]
                        &&& r.1[i].spec_user_data() == old(self).spec_user_data()[i]
                        &&& r.1[i].spec_buffer() is None
                        &&& r.1[i].spec_file() matches Some(f) && f.spec_location()
                            == old(self).spec_builder().unwrap().spec_location()
                            && Some(f.spec_file_descriptor()) == fd_after(old(self).spec_builder().unwrap(), idx_and_opcode.spec_opcode().0, cqe_result)
                            && f.spec_size() == old(self).spec_builder().unwrap().spec_statx().stx_size
                            && f.spec_alignment() == old(self).spec_builder().unwrap().spec_statx().stx_dio_mem_align
                    }
            },
            !spawns_get_ranges(old(self).spec_builder().unwrap(), old(self).spec_n_cqes_received(), idx_and_opcode.spec_opcode().0, cqe_result) ==> {
                &&& r.1.len() == 0
                &&& final(self).spec_builder() matches Some(nb) && builder_after_cqe(
                    old(self).spec_builder().unwrap(),
                    nb,
                    idx_and_opcode.spec_opcode().0,
                    cqe_result,
                )
            },
    {
        self.n_cqes_received = self.n_cqes_received + 1;
        let error = if cqe_result < 0 && !self.error_reported {
            let location = match &self.open_file_builder {
                Some(b) => copy_bytes(b.location()),
                None => vstd::pervasive::unreached(),
            };
            Some(OperationError { errno: -cqe_result, location, range: None, user_data: None })
        } else {
            None
        };
        if cqe_result < 0 {
            self.error_reported = true;
        }
        if cqe_result >= 0 {
            let code = idx_and_opcode.opcode().value();
            match &mut self.open_file_builder {
                Some(b) => {
                    if code == openat_code() {
                        b.set_file_descriptor(cqe_result);
                    } else {
                        b.assume_statx_is_initialised();
                    }
                },
                None => {},
            }
        }
        if self.n_cqes_received == N_CQES_EXPECTED {
            let ready = match &self.open_file_builder {
                Some(b) => b.is_ready(),
                None => false,
            };
            if ready {
                let ops = self.submit_get_range_ops();
                (NextStep::Done, ops, error)
            } else {
                // Every completion has arrived but the file is not ready, so at least one of
                // them reported an error. Nevertheless, the operation is done.
                (NextStep::Done, Vec::new(), error)
            }
        } else {
            // One more completion is expected.
            (NextStep::Pending, Vec::new(), error)
        }
    }
}

/// The file descriptor that a builder holds after a completion: a successful `openat` sets
/// it to the result.
pub open spec fn fd_after(b: OpenFileBuilder, opcode: u8, cqe_result: i32) -> Option<i32> {
    if cqe_result >= 0 && opcode == OPENAT {
        Some(cqe_result)
    } else {
        b.spec_file_descriptor()
    }
}

/// Whether a builder's `statx` fields are known after a completion: a successful `statx`
/// marks them so.
pub open spec fn statx_known_after(b: OpenFileBuilder, opcode: u8, cqe_result: i32) -> bool {
    b.spec_statx_initialised() || (cqe_result >= 0 && opcode == STATX)
}

/// `nb` is the builder `b` after a completion with `opcode` and `cqe_result`.
pub open spec fn builder_after_cqe(b: OpenFileBuilder, nb: OpenFileBuilder, opcode: u8, cqe_result: i32) -> bool {
    &&& nb.spec_location() == b.spec_location()
    &&& nb.spec_statx() == b.spec_statx()
    &&& nb.spec_file_descriptor() == fd_after(b, opcode, cqe_result)
    &&& nb.spec_statx_initialised() == statx_known_after(b, opcode, cqe_result)
}

/// The completion is the last one expected and both `openat` and `statx` have succeeded, so
/// the ranges are read.
pub open spec fn spawns_get_ranges(b: OpenFileBuilder, n_received: u8, opcode: u8, cqe_result: i32) -> bool {
    &&& n_received + 1 == N_CQES_EXPECTED
    &&& fd_after(b, opcode, cqe_result) is Some
    &&& statx_known_after(b, opcode, cqe_result)
}

/// A `GetRanges` reads only from a file that its `openat` opened: from a builder with no
/// descriptor and no `statx` fields, after the `openat` and `statx` completions in either
/// order, the reads are spawned exactly when both succeeded, and the descriptor they read from
/// is the `openat` completion's result, never the `statx` one's.
pub proof fn lemma_reads_use_the_opened_descriptor(
    b0: OpenFileBuilder,
    b1: OpenFileBuilder,
    first: u8,
    first_result: i32,
    second: u8,
    second_result: i32,
)
    requires
        b0.spec_file_descriptor() is None,
        !b0.spec_statx_initialised(),
        (first == OPENAT && second == STATX) || (first == STATX && second == OPENAT),
        builder_after_cqe(b0, b1, first, first_result),
    ensures
        spawns_get_ranges(b1, 1, second, second_result) <==> (first_result >= 0 && second_result >= 0),
        spawns_get_ranges(b1, 1, second, second_result) ==> fd_after(b1, second, second_result) == Some(
            if first == OPENAT { first_result } else { second_result },
        ),
{
}

/// `f` holds the file that builder `b` describes once the completion with `opcode` and
/// `cqe_result` is recorded: its path, descriptor, size and alignment.
pub open spec fn file_opened_by(f: Option<OpenFile>, b: OpenFileBuilder, opcode: u8, cqe_result: i32) -> bool {
    &&& f is Some
    &&& f.unwrap().spec_location() == b.spec_location()
    &&& Some(f.unwrap().spec_file_descriptor()) == fd_after(b, opcode, cqe_result)
    &&& f.unwrap().spec_size() == b.spec_statx().stx_size
    &&& f.unwrap().spec_alignment() == b.spec_statx().stx_dio_mem_align
}

/// `f` is the file that a ready builder `b` describes.
pub open spec fn file_built_from(f: OpenFile, b: OpenFileBuilder) -> bool {
    &&& f.spec_location() == b.spec_location()
    &&& Some(f.spec_file_descriptor()) == b.spec_file_descriptor()
    &&& f.spec_size() == b.spec_statx().stx_size
    &&& f.spec_alignment() == b.spec_statx().stx_dio_mem_align
}

/// An operation that a worker keeps in its tracker while its submissions are in flight.
#[derive(Debug)]
pub enum Operation {
    GetRanges(GetRanges),
    GetRange(GetRange),
    Close(Close),
}

/// What the worker submits first for an operation.
#[derive(Debug)]
pub enum FirstStep {
    /// Submit `openat` and `statx` with these `user_data` words.
    OpenAndStatx { openat_user_data: u64, statx_user_data: u64 },
    /// Submit this read.
    Read(ReadRange),
    /// Submit `close` of this file descriptor with this `user_data`.
    Close { file_descriptor: i32, user_data: u64 },
}

/// Everything that follows one completion: what to do with the operation, the output to send
/// to the user, and new operations to queue.
#[derive(Debug)]
pub struct StepResult {
    pub next: NextStep,
    pub output: Option<Result<Output, OperationError>>,
    pub new_ops: Vec<Operation>,
}

/// What handing a completion with `opcode` and `cqe_result` to `operation` gives: what happens to the
/// operation next, the output for the user, and the operations to queue.
pub open spec fn step_spec(
    operation: Operation,
    opcode: u8,
    cqe_result: i32,
    next: NextStep,
    output: Option<Result<Output, OperationError>>,
    new_ops: Seq<Operation>,
) -> bool {
    match operation {
        Operation::GetRanges(g) => {
            &&& (output is Some <==> (cqe_result < 0 && !g.spec_error_reported()))
            &&& (output matches Some(o) ==> (o matches Err(e) && open_error(e, -cqe_result,
                g.spec_builder().unwrap().spec_location())))
            &&& (next is Pending <==> g.spec_n_cqes_received() + 1 < N_CQES_EXPECTED)
            &&& (next is Done <==> g.spec_n_cqes_received() + 1 == N_CQES_EXPECTED)
            &&& (spawns_get_ranges(g.spec_builder().unwrap(), g.spec_n_cqes_received(), opcode, cqe_result)
                ==> new_ops.len() == g.spec_ranges().len())
            &&& (!spawns_get_ranges(g.spec_builder().unwrap(), g.spec_n_cqes_received(), opcode, cqe_result)
                ==> new_ops.len() == 0)
            &&& forall|i: int|
                0 <= i < new_ops.len() ==> (#[trigger] new_ops[i] matches Operation::GetRange(op)
                    && op.spec_range() == g.spec_ranges()[i] && op.spec_user_data() == g.spec_user_data()[i]
                    && op.spec_buffer() is None
                    && file_opened_by(op.spec_file(), g.spec_builder().unwrap(), opcode, cqe_result))
        },
        Operation::GetRange(g) => {
            &&& new_ops.len() == 0
            &&& output is Some
            &&& (output.unwrap() is Ok <==> cqe_result >= 0)
            &&& (output matches Some(Ok(Output::Chunk(c))) ==> c.buffer@ == g.spec_buffer().unwrap()
                && c.user_data == g.spec_user_data())
            &&& (output matches Some(Err(e)) ==> read_error(e, -cqe_result,
                g.spec_file().unwrap().spec_location(), g.spec_range(), g.spec_user_data()))
            &&& (next is Done || next is ReplaceWith)
            &&& (next matches NextStep::ReplaceWith(op) ==> (op matches Operation::Close(c)
                && c.spec_file() == g.spec_file().unwrap()))
        },
        Operation::Close(_) => next is Done && output is None && new_ops.len() == 0,
    }
}

/// What `operation` has become, as `after`, once it has taken a completion with `opcode` and
/// `cqe_result` and answered with `next`. A `GetRanges` counts the completion, records what a
/// success reported and whether an error was reported, and hands its file over to the reads
/// it spawns; a `GetRange` hands out its buffer after a successful read and gives up the file
/// when it is replaced by a `Close`; a `Close` is unchanged.
pub open spec fn state_after(operation: Operation, after: Operation, opcode: u8, cqe_result: i32, next: NextStep) -> bool {
    match operation {
        Operation::GetRanges(g) => {
            let ng = after->GetRanges_0;
            let spawns = spawns_get_ranges(g.spec_builder().unwrap(), g.spec_n_cqes_received(), opcode, cqe_result);
            &&& after is GetRanges
            &&& ng.spec_n_cqes_received() == g.spec_n_cqes_received() + 1
            &&& ng.spec_ranges() == g.spec_ranges()
            &&& ng.spec_user_data() == g.spec_user_data()
            &&& ng.spec_error_reported() == (g.spec_error_reported() || cqe_result < 0)
            &&& spawns ==> ng.spec_builder() is None
            &&& !spawns ==> ng.spec_builder() is Some && builder_after_cqe(
                g.spec_builder().unwrap(),
                ng.spec_builder().unwrap(),
                opcode,
                cqe_result,
            )
        },
        Operation::GetRange(g) => {
            let ng = after->GetRange_0;
            &&& after is GetRange
            &&& ng.spec_range() == g.spec_range()
            &&& ng.spec_user_data() == g.spec_user_data()
            &&& cqe_result >= 0 ==> ng.spec_buffer() is None
            &&& cqe_result < 0 ==> ng.spec_buffer() == g.spec_buffer()
            &&& next is Done ==> ng.spec_file() == g.spec_file()
            &&& next is ReplaceWith ==> ng.spec_file() is None
        },
        Operation::Close(_) => after == operation,
    }
}

impl Operation {
    /// Returns whether the first step can be taken for the operation at `index_of_op`.
    pub fn first_step_allowed(&self, index_of_op: usize) -> (r: bool)
        ensures
            r == self.first_step_ok(index_of_op),
    {
        if index_of_op >= u32::MAX as usize {
            return false;
        }
        match self {
            Operation::GetRanges(_) => true,
            Operation::GetRange(g) => match &g.file {
                Some(f) => can_build_read_range(index_of_op, f.size(), &g.range),
                None => false,
            },
            Operation::Close(_) => true,
        }
    }

    /// Returns whether the operation can take a completion with this opcode and result.
    pub fn process_allowed(&self, opcode: u8, cqe_result: i32) -> (r: bool)
        ensures
            r == self.can_process(opcode, cqe_result),
    {
        match self {
            Operation::GetRanges(g) => {
                let b = match &g.open_file_builder {
                    Some(b) => b,
                    None => return false,
                };
                if g.n_cqes_received >= N_CQES_EXPECTED || g.ranges.len() != g.user_data.len()
                    || cqe_result == i32::MIN {
                    return false;
                }
                if cqe_result >= 0 && !(opcode == OPENAT || opcode == STATX) {
                    return false;
                }
                let fd_known = b.has_file_descriptor() || (cqe_result >= 0 && opcode == OPENAT);
                let statx_known = b.statx_is_initialised() || (cqe_result >= 0 && opcode == STATX);
                let spawns = g.n_cqes_received + 1 == N_CQES_EXPECTED && fd_known && statx_known;
                if !spawns {
                    return true;
                }
                all_fit_one_read(&g.ranges)
            },
            Operation::GetRange(g) => opcode == READ && g.file.is_some() && cqe_result != i32::MIN
                && (cqe_result < 0 || g.buffer.is_some()),
            Operation::Close(_) => opcode == CLOSE,
        }
    }

    /// The inputs on which an operation's first step can be taken.
    pub open spec fn first_step_ok(self, index_of_op: usize) -> bool {
        &&& index_of_op < u32::MAX
        &&& match self {
            Operation::GetRanges(_) => true,
            Operation::GetRange(g) => g.spec_file() is Some && read_range_ok(
                index_of_op,
                g.spec_file().unwrap().spec_size(),
                g.spec_range(),
            ),
            Operation::Close(_) => true,
        }
    }

    /// The inputs on which an operation can take a completion.
    pub open spec fn can_process(self, opcode: u8, cqe_result: i32) -> bool {
        match self {
            Operation::GetRanges(g) => {
                &&& g.spec_builder() is Some
                &&& g.spec_n_cqes_received() < N_CQES_EXPECTED
                &&& g.spec_ranges().len() == g.spec_user_data().len()
                &&& cqe_result != i32::MIN
                &&& cqe_result >= 0 ==> (opcode == OPENAT || opcode == STATX)
                &&& spawns_get_ranges(g.spec_builder().unwrap(), g.spec_n_cqes_received(), opcode, cqe_result)
                    ==> ranges_fit_one_read(g.spec_ranges())
            },
            Operation::GetRange(g) => {
                &&& opcode == READ
                &&& g.spec_file() is Some
                &&& cqe_result != i32::MIN
                &&& cqe_result >= 0 ==> g.spec_buffer() is Some
            },
            Operation::Close(_) => opcode == CLOSE,
        }
    }

    /// The first submissions of the operation at `index_of_op`.
    pub fn first_step(&mut self, index_of_op: usize) -> (r: FirstStep)
        requires
            old(self).first_step_ok(index_of_op),
        ensures
            match *old(self) {
                Operation::GetRanges(_) => r == FirstStep::OpenAndStatx {
                    openat_user_data: spec_encode(index_of_op as u32, OPENAT),
                    statx_user_data: spec_encode(index_of_op as u32, STATX),
                } && *final(self) == *old(self),
                Operation::GetRange(g) => {
                    &&& r matches FirstStep::Read(plan)
                    &&& read_planned(plan, index_of_op, g.spec_file().unwrap().spec_size(), g.spec_range())
                    &&& *final(self) matches Operation::GetRange(ng)
                    &&& ng.spec_buffer() == Some(plan.buffer@)
                    &&& ng.spec_file() == g.spec_file()
                    &&& ng.spec_range() == g.spec_range()
                    &&& ng.spec_user_data() == g.spec_user_data()
                },
                Operation::Close(c) => r == FirstStep::Close {
                    file_descriptor: c.spec_file().spec_file_descriptor(),
                    user_data: spec_encode(index_of_op as u32, CLOSE),
                } && *final(self) == *old(self),
            },
    {
        match self {
            Operation::GetRanges(g) => {
                let (openat_user_data, statx_user_data) = g.first_step(index_of_op);
                FirstStep::OpenAndStatx { openat_user_data, statx_user_data }
            },
            Operation::GetRange(g) => FirstStep::Read(g.first_step(index_of_op)),
            Operation::Close(c) => {
                let (file_descriptor, user_data) = c.first_step(index_of_op);
                FirstStep::Close { file_descriptor, user_data }
            },
        }
    }

    /// Hands a completion to the operation it belongs to.
    pub fn process_opcode_and_get_next_step(
        &mut self,
        idx_and_opcode: &UringUserData,
        cqe_result: i32,
    ) -> (r: StepResult)
        requires
            old(self).can_process(idx_and_opcode.spec_opcode().0, cqe_result),
        ensures
            step_spec(*old(self), idx_and_opcode.spec_opcode().0, cqe_result, r.next, r.output, r.new_ops@),
            state_after(*old(self), *final(self), idx_and_opcode.spec_opcode().0, cqe_result, r.next),
    {
        match self {
            Operation::GetRanges(g) => {
                let (next, ops, error) = g.process_opcode_and_submit_next_step(idx_and_opcode, cqe_result);
                let mut new_ops: Vec<Operation> = Vec::new();
                let n = ops.len();
                let mut ops = ops;
                let ghost all = ops@;
                let mut i: usize = 0;
                let mut rest: Vec<GetRange> = Vec::new();
                // Keep the order of the ranges: move the ops out from the back, then back again.
                while ops.len() > 0
                    invariant
                        ops.len() + rest.len() == n,
                        n == all.len(),
                        ops@ == all.subrange(0, ops.len() as int),
                        forall|k: int| 0 <= k < rest.len() ==> #[trigger] rest@[k] == all[n - 1 - k],
                    decreases ops.len(),
                {
                    let op = ops.pop().unwrap();
                    rest.push(op);
                }
                while i < n
                    invariant
                        rest.len() == n - i,
                        n == all.len(),
                        i <= n,
                        new_ops.len() == i,
                        forall|k: int| 0 <= k < rest.len() ==> #[trigger] rest@[k] == all[n - 1 - k],
                        forall|k: int| 0 <= k < i ==> #[trigger] new_ops@[k] == Operation::GetRange(all[k]),
                    decreases n - i,
                {
                    let op = rest.pop().unwrap();
                    assert(op == all[i as int]);
                    new_ops.push(Operation::GetRange(op));
                    i = i + 1;
                }
                let output = match error {
                    Some(e) => Some(Err(e)),
                    None => None,
                };
                StepResult { next, output, new_ops }
            },
            Operation::GetRange(g) => {
                let (next, output) = g.process_opcode_and_submit_next_step(idx_and_opcode, cqe_result);
                StepResult { next, output: Some(output), new_ops: Vec::new() }
            },
            Operation::Close(c) => {
                let next = c.process_opcode_and_submit_next_step(idx_and_opcode);
                StepResult { next, output: None, new_ops: Vec::new() }
            },
        }
    }
}

} // verus!
