//! Operations that open a file into a registered ("fixed") file slot and then submit a linked
//! `read` and `close` chain. Each operation is driven by `next_step`: called first with no
//! completion to get the `openat` submission, then once after each completion.

use crate::aligned_buffer::AlignedBuffer;
use crate::aligned_bytes::{padded_len, valid_buffer_request};
use crate::opcode::{close_code, openat_code, read_code, CLOSE, OPENAT, READ};
use crate::operation::MAX_READ_LEN;
use crate::read_range::{lemma_align_is_pow2, ALIGN};
use std::ops::Range;
use vstd::prelude::*;

verus! {

/// The `user_data` word for the submission of `opcode` by the operation at `index_of_op`:
/// the index in the upper 32 bits and the opcode in the lower ones.
pub open spec fn chain_user_data(index_of_op: usize, opcode: u8) -> u64 {
    (((index_of_op as u64) << 32u64) | (opcode as u64)) as u64
}

fn user_data_for(index_of_op: usize, opcode: u8) -> (r: u64)
    ensures
        r == chain_user_data(index_of_op, opcode),
{
    ((index_of_op as u64) << 32u64) | (opcode as u64)
}

/// One submission queue entry to build.
#[derive(Debug, PartialEq, Eq, Clone, Copy, Structural)]
pub enum SqePlan {
    /// Open the file into an automatically chosen fixed file slot.
    OpenAt { user_data: u64 },
    /// Read `len` bytes at `offset` from the fixed file into the operation's buffer; the next
    /// entry is linked to this one.
    Read { fixed_fd: u32, len: u32, offset: u64, user_data: u64 },
    /// Close the fixed file.
    Close { fixed_fd: u32, user_data: u64 },
}

/// What to do next with an operation.
#[derive(Debug)]
pub enum ChainNextStep {
    /// Submit these entries in one go; `register_file` says whether they register a file.
    SubmitEntries { entries: Vec<SqePlan>, register_file: bool },
    /// Wait for more completions.
    Pending,
    /// The operation is finished; `unregister_file` says whether a file slot was released.
    Done { unregister_file: bool },
}

/// How an error reported by a completion is handled.
#[derive(Debug, PartialEq, Eq, Clone, Copy, Structural)]
pub enum ErrorReport {
    /// Send this `errno` to the user; it is the operation's first error.
    Send { errno: i32, opcode: u8 },
    /// An error was already sent, so this one can only be logged.
    AlreadySent { errno: i32, opcode: u8 },
}

/// State shared by the chained operations: the output buffer, whether an error has occurred,
/// the last completion and the number of steps taken.
#[derive(Debug)]
pub struct InnerState {
    pub output: Option<AlignedBuffer>,
    pub error_has_occurred: bool,
    pub last_cqe_result: Option<i32>,
    pub last_opcode: Option<u8>,
    pub n_steps_completed: usize,
}

impl InnerState {
    /// The state of an operation that has taken no step.
    pub open spec fn spec_fresh() -> InnerState {
        InnerState {
            output: None,
            error_has_occurred: false,
            last_cqe_result: None,
            last_opcode: None,
            n_steps_completed: 0,
        }
    }

    pub fn new() -> (r: Self)
        ensures
            r.output is None,
            !r.error_has_occurred,
            r.last_cqe_result is None,
            r.last_opcode is None,
            r.n_steps_completed == 0,
            r == Self::spec_fresh(),
    {
        InnerState {
            output: None,
            error_has_occurred: false,
            last_cqe_result: None,
            last_opcode: None,
            n_steps_completed: 0,
        }
    }

    /// Records a completion: its opcode from the low 32 bits of `user_data` (as a byte) and its
    /// result. A negative result is an error: the first is to be sent to the user, later ones
    /// only logged. The result must not be `i32::MIN`.
    pub fn process_cqe(&mut self, user_data: u64, cqe_result: i32) -> (r: Option<ErrorReport>)
        requires
            cqe_result != i32::MIN,
        ensures
            final(self).last_opcode == Some(((user_data & 0xFFFF_FFFFu64) as u8)),
            final(self).last_cqe_result == Some(cqe_result),
            final(self).output == old(self).output,
            final(self).n_steps_completed == old(self).n_steps_completed,
            final(self).error_has_occurred == (old(self).error_has_occurred || cqe_result < 0),
            *final(self) == record_cqe(*old(self), (user_data & 0xFFFF_FFFFu64) as u8, cqe_result),
            r matches Some(ErrorReport::Send { .. }) <==> reports_error(*old(self), cqe_result),
            cqe_result >= 0 ==> r is None,
            cqe_result < 0 && !old(self).error_has_occurred ==> r == Some(
                ErrorReport::Send { errno: -cqe_result as i32, opcode: (user_data & 0xFFFF_FFFFu64) as u8 },
            ),
            cqe_result < 0 && old(self).error_has_occurred ==> r == Some(
                ErrorReport::AlreadySent { errno: -cqe_result as i32, opcode: (user_data & 0xFFFF_FFFFu64) as u8 },
            ),
    {
        let opcode = (user_data & 0xFFFF_FFFFu64) as u8;
        self.last_opcode = Some(opcode);
        self.last_cqe_result = Some(cqe_result);
        if cqe_result < 0 {
            let report = if self.error_has_occurred {
                ErrorReport::AlreadySent { errno: -cqe_result, opcode }
            } else {
                ErrorReport::Send { errno: -cqe_result, opcode }
            };
            self.error_has_occurred = true;
            Some(report)
        } else {
            None
        }
    }

    /// Takes the output buffer to send to the user. There must be one.
    pub fn send_output(&mut self) -> (r: AlignedBuffer)
        requires
            old(self).output is Some,
        ensures
            r == old(self).output.unwrap(),
            final(self).output is None,
            final(self).error_has_occurred == old(self).error_has_occurred,
            final(self).last_cqe_result == old(self).last_cqe_result,
            final(self).last_opcode == old(self).last_opcode,
            final(self).n_steps_completed == old(self).n_steps_completed,
    {
        let mut taken: Option<AlignedBuffer> = None;
        std::mem::swap(&mut taken, &mut self.output);
        match taken {
            Some(b) => b,
            None => vstd::pervasive::unreached(),
        }
    }
}

/// The linked `read` and `close` entries for a fixed file, reading `len` bytes at `offset`.
fn linked_read_close(index_of_op: usize, fixed_fd: u32, len: u32, offset: u64) -> (r: Vec<SqePlan>)
    ensures
        r@ == seq![
            SqePlan::Read { fixed_fd, len, offset, user_data: chain_user_data(index_of_op, READ) },
            SqePlan::Close { fixed_fd, user_data: chain_user_data(index_of_op, CLOSE) },
        ],
{
    let read = SqePlan::Read { fixed_fd, len, offset, user_data: user_data_for(index_of_op, read_code()) };
    let close = SqePlan::Close { fixed_fd, user_data: user_data_for(index_of_op, close_code()) };
    let mut v: Vec<SqePlan> = Vec::new();
    v.push(read);
    v.push(close);
    v
}

/// Plans the linked `read` of `range` (at offset `range.start`) and `close` of the fixed file
/// `fixed_fd`, with a buffer for the range's bytes. The read asks for the buffer's whole
/// aligned length.
pub fn create_linked_read_range_close_sqes(range: &Range<isize>, fixed_fd: u32, index_of_op: usize) -> (r: (Vec<SqePlan>, AlignedBuffer))
    requires
        range.start < range.end,
        valid_buffer_request(range.end - range.start, ALIGN as int),
    ensures
        r.1.spec_len() == range.end - range.start,
        r.1.spec_start_offset() == 0,
        r.1.spec_aligned_len() == padded_len(range.end - range.start, ALIGN as int),
        r.1.spec_align() == ALIGN,
        r.0@ == seq![
            SqePlan::Read {
                fixed_fd,
                len: r.1.spec_aligned_len() as u32,
                offset: range.start as u64,
                user_data: chain_user_data(index_of_op, READ),
            },
            SqePlan::Close { fixed_fd, user_data: chain_user_data(index_of_op, CLOSE) },
        ],
{
    let buffer = AlignedBuffer::new((range.end - range.start) as usize, ALIGN, 0);
    let entries = linked_read_close(index_of_op, fixed_fd, buffer.aligned_len() as u32, range.start as u64);
    (entries, buffer)
}

/// Plans the linked `read` of a whole file of `filesize` bytes and `close` of the fixed file
/// `fixed_fd`, with a buffer for the file's bytes.
pub fn create_linked_read_close_sqes(filesize: usize, fixed_fd: u32, index_of_op: usize) -> (r: (Vec<SqePlan>, AlignedBuffer))
    requires
        valid_buffer_request(filesize as int, ALIGN as int),
    ensures
        r.1.spec_len() == filesize,
        r.1.spec_start_offset() == 0,
        r.1.spec_aligned_len() == padded_len(filesize as int, ALIGN as int),
        r.1.spec_align() == ALIGN,
        r.0@ == seq![
            SqePlan::Read {
                fixed_fd,
                len: r.1.spec_aligned_len() as u32,
                offset: 0,
                user_data: chain_user_data(index_of_op, READ),
            },
            SqePlan::Close { fixed_fd, user_data: chain_user_data(index_of_op, CLOSE) },
        ],
{
    let buffer = AlignedBuffer::new(filesize, ALIGN, 0);
    let entries = linked_read_close(index_of_op, fixed_fd, buffer.aligned_len() as u32, 0);
    (entries, buffer)
}

/// Returns whether a buffer for the non-empty `range` can be allocated.
fn valid_read_range_buffer(range: &Range<isize>) -> (r: bool)
    requires
        range.start < range.end,
    ensures
        r == valid_buffer_request(range.end - range.start, ALIGN as int),
{
    let len = range.end as i128 - range.start as i128;
    proof {
        lemma_align_is_pow2();
    }
    if len > isize::MAX as i128 {
        return false;
    }
    let padded: i128 = ((len + 511) / 512) * 512;
    proof {
        assert(padded_len(len as int, 512) == padded);
    }
    padded <= isize::MAX as i128
}

/// Returns whether a buffer for a whole file of `filesize` bytes can be allocated.
fn valid_whole_file_buffer(filesize: usize) -> (r: bool)
    ensures
        r == valid_buffer_request(filesize as int, ALIGN as int),
{
    proof {
        lemma_align_is_pow2();
    }
    if filesize == 0 {
        return false;
    }
    let len = filesize as i128;
    let padded: i128 = ((len + 511) / 512) * 512;
    proof {
        assert(padded_len(len as int, 512) == padded);
    }
    padded <= isize::MAX as i128
}

/// The single `openat` entry of an operation's first step.
fn build_openat_sqe(index_of_op: usize) -> (r: Vec<SqePlan>)
    ensures
        r@ == seq![SqePlan::OpenAt { user_data: chain_user_data(index_of_op, OPENAT) }],
{
    let mut v: Vec<SqePlan> = Vec::new();
    v.push(SqePlan::OpenAt { user_data: user_data_for(index_of_op, openat_code()) });
    v
}

/// The number of bytes a read of `len` bytes is expected to report: at least one aligned
/// block, since a direct read never reads less.
pub open spec fn expected_read_result(len: int) -> int {
    if len > ALIGN as int { len } else { ALIGN as int }
}

/// The state after recording a completion with `opcode` and `cqe_result`.
pub open spec fn record_cqe(s: InnerState, opcode: u8, cqe_result: i32) -> InnerState {
    InnerState {
        last_opcode: Some(opcode),
        last_cqe_result: Some(cqe_result),
        error_has_occurred: s.error_has_occurred || cqe_result < 0,
        ..s
    }
}

/// The completion reports the operation's first error, which is sent to the user.
pub open spec fn reports_error(s: InnerState, cqe_result: i32) -> bool {
    cqe_result < 0 && !s.error_has_occurred
}

/// No completion has been recorded: the step is the first, which registers a file.
pub open spec fn registers(s: InnerState) -> bool {
    s.last_cqe_result is None
}

/// The step releases the file slot: after a failed `openat`, or after the `close`.
pub open spec fn releases(s: InnerState) -> bool {
    &&& s.last_cqe_result is Some
    &&& (s.last_opcode == Some(OPENAT) && s.error_has_occurred) || s.last_opcode == Some(CLOSE)
}

/// The number of file registrations, releases of the file slot and messages to the user (an
/// error sent or a buffer handed out) of a run whose completions are `openat` with `open`,
/// then, if it succeeded, the linked `read` with `read` and `close` with `close`, starting
/// from `s`, with a step after each completion and one before the first.
pub open spec fn run_counts(s: InnerState, open: i32, read: i32, close: i32) -> (int, int, int) {
    let count = |b: bool| if b { 1int } else { 0int };
    let s1 = record_cqe(s, OPENAT, open);
    let s2 = record_cqe(s1, READ, read);
    let s3 = record_cqe(s2, CLOSE, close);
    if open < 0 {
        (
            count(registers(s)) + count(registers(s1)),
            count(releases(s)) + count(releases(s1)),
            count(sends_read(s)) + count(reports_error(s, open)) + count(sends_read(s1)),
        )
    } else {
        (
            count(registers(s)) + count(registers(s1)) + count(registers(s2)) + count(registers(s3)),
            count(releases(s)) + count(releases(s1)) + count(releases(s2)) + count(releases(s3)),
            count(sends_read(s)) + count(reports_error(s, open)) + count(sends_read(s1))
                + count(reports_error(s1, read)) + count(sends_read(s2))
                + count(reports_error(s2, close)) + count(sends_read(s3)),
        )
    }
}

/// A chained read, from its fresh state, registers one file, releases its slot once and
/// sends the user exactly one message (its buffer or its first error), when the `close`
/// after a successful `read` succeeds. (The `close` linked to a failed `read` fails too; its
/// error is only logged.)
pub proof fn lemma_one_message_per_run(open: i32, read: i32, close: i32)
    requires
        read >= 0 ==> close >= 0,
    ensures
        run_counts(InnerState::spec_fresh(), open, read, close) == (1int, 1int, 1int),
{
}

/// The last completion was a successful `openat`: the step plans the linked `read` and
/// `close`.
pub open spec fn opens_reads(s: InnerState) -> bool {
    s.last_cqe_result is Some && s.last_opcode == Some(OPENAT) && !s.error_has_occurred
}

/// The last completion was a successful `read`: the step hands the buffer out.
pub open spec fn sends_read(s: InnerState) -> bool {
    s.last_cqe_result is Some && s.last_opcode == Some(READ) && !s.error_has_occurred
}

/// Reads one byte range of a file through a fixed file slot.
#[derive(Debug)]
pub struct GetRange {
    pub path: Vec<u8>,
    pub range: Range<isize>,
    pub fixed_fd: Option<u32>,
    pub inner: InnerState,
}

/// What [`GetRange::next_step`] decides, given the state before the call.
pub open spec fn get_range_step_ok(s: GetRange) -> bool {
    &&& s.inner.n_steps_completed < usize::MAX
    &&& s.inner.last_cqe_result is None ==> s.inner.n_steps_completed == 0
    &&& s.inner.last_cqe_result is Some ==> s.inner.last_opcode is Some && {
        let op = s.inner.last_opcode.unwrap();
        &&& op == OPENAT || op == READ || op == CLOSE
        &&& op == OPENAT && !s.inner.error_has_occurred ==> {
            &&& s.range.start < s.range.end
            &&& valid_buffer_request(s.range.end - s.range.start, ALIGN as int)
        }
        &&& op == READ && !s.inner.error_has_occurred ==> {
            &&& s.inner.output is Some
            &&& s.inner.output.unwrap().spec_len() <= MAX_READ_LEN
            &&& s.inner.last_cqe_result.unwrap() == expected_read_result(
                s.inner.output.unwrap().spec_len() as int,
            )
        }
    }
}

/// After a successful `read` of a range whose buffer holds `len` bytes, the next step is
/// allowed exactly when the read reported `len` bytes, or one whole block of 512 bytes when
/// `len` is smaller: a direct read never reports less than a block.
pub proof fn lemma_read_reports_at_least_a_block(s: GetRange)
    requires
        s.inner.n_steps_completed < usize::MAX,
        s.inner.last_cqe_result is Some,
        s.inner.last_opcode == Some(READ),
        !s.inner.error_has_occurred,
        s.inner.output is Some,
        s.inner.output.unwrap().spec_len() <= MAX_READ_LEN,
    ensures
        get_range_step_ok(s) <==> (if s.inner.output.unwrap().spec_len() < 512 {
            s.inner.last_cqe_result.unwrap() == 512
        } else {
            s.inner.last_cqe_result.unwrap() == s.inner.output.unwrap().spec_len()
        }),
{
}

/// Returns whether `len` is the byte count a read of `requested` bytes must report.
fn is_expected_read_result(result: i32, requested: usize) -> (r: bool)
    ensures
        r == (result == expected_read_result(requested as int)),
{
    if requested > 512 {
        result as i128 == requested as i128
    } else {
        result == 512
    }
}

impl GetRange {
    /// Returns whether [`GetRange::next_step`] can be taken now.
    pub fn step_allowed(&self) -> (r: bool)
        ensures
            r == get_range_step_ok(*self),
    {
        if self.inner.n_steps_completed == usize::MAX {
            return false;
        }
        match self.inner.last_cqe_result {
            None => self.inner.n_steps_completed == 0,
            Some(res) => match self.inner.last_opcode {
                None => false,
                Some(op) => {
                    if op == OPENAT {
                        self.inner.error_has_occurred || (self.range.start < self.range.end
                            && valid_read_range_buffer(&self.range))
                    } else if op == READ {
                        self.inner.error_has_occurred || match &self.inner.output {
                            Some(b) => b.len() <= MAX_READ_LEN && is_expected_read_result(res, b.len()),
                            None => false,
                        }
                    } else {
                        op == CLOSE
                    }
                },
            },
        }
    }

    pub fn new(path: Vec<u8>, range: Range<isize>) -> (r: Self)
        ensures
            r.path == path,
            r.range == range,
            r.fixed_fd is None,
            r.inner.output is None,
            !r.inner.error_has_occurred,
            r.inner.last_cqe_result is None,
            r.inner.n_steps_completed == 0,
    {
        GetRange { path, range, fixed_fd: None, inner: InnerState::new() }
    }

    /// The next step after the last completion recorded in the state (or the first step if
    /// there is none):
    /// - first step: submit `openat`, which registers a file;
    /// - `openat` failed: done, releasing the file slot;
    /// - `openat` succeeded: its result is the fixed file slot; submit the linked `read` and
    ///   `close`, and keep a buffer for the range;
    /// - `read` completed: unless an error occurred, the byte count must be the requested
    ///   length (at least one aligned block) and the buffer is sent to the user; either way,
    ///   wait for the `close`;
    /// - `close` completed: done, releasing the file slot.
    ///
    /// Returns the step and, after a successful `read`, the buffer to send.
    pub fn next_step(&mut self, index_of_op: usize) -> (r: (ChainNextStep, Option<AlignedBuffer>))
        requires
            get_range_step_ok(*old(self)),
        ensures
            final(self).inner.n_steps_completed == old(self).inner.n_steps_completed + 1,
            final(self).path == old(self).path,
            final(self).range == old(self).range,
            final(self).inner.last_cqe_result == old(self).inner.last_cqe_result,
            final(self).inner.last_opcode == old(self).inner.last_opcode,
            final(self).inner.error_has_occurred == old(self).inner.error_has_occurred,
            !opens_reads(old(self).inner) ==> final(self).fixed_fd == old(self).fixed_fd,
            !opens_reads(old(self).inner) && !sends_read(old(self).inner) ==> final(self).inner.output
                == old(self).inner.output,
            ((r.0 matches ChainNextStep::SubmitEntries { register_file, .. }) && r.0->register_file) <==> registers(
                old(self).inner,
            ),
            ((r.0 matches ChainNextStep::Done { .. }) && r.0->unregister_file) <==> releases(old(self).inner),
            r.1 is Some <==> sends_read(old(self).inner),
            old(self).inner.last_cqe_result is None ==> r.1 is None && (r.0 matches ChainNextStep::SubmitEntries { entries, register_file }
                && register_file && entries@ == seq![SqePlan::OpenAt { user_data: chain_user_data(index_of_op, OPENAT) }]),
            old(self).inner.last_cqe_result is Some ==> ({
                let op = old(self).inner.last_opcode.unwrap();
                let res = old(self).inner.last_cqe_result.unwrap();
                let err = old(self).inner.error_has_occurred;
                &&& op == OPENAT && err ==> r.1 is None && r.0 == (ChainNextStep::Done { unregister_file: true })
                &&& op == OPENAT && !err ==> {
                    &&& r.1 is None
                    &&& final(self).fixed_fd == Some(res as u32)
                    &&& final(self).inner.output matches Some(b) && b.spec_len() == old(self).range.end - old(self).range.start
                        && b.spec_start_offset() == 0 && b.spec_align() == ALIGN
                        && b.spec_aligned_len() == padded_len(old(self).range.end - old(self).range.start, ALIGN as int)
                    &&& r.0 matches ChainNextStep::SubmitEntries { entries, register_file } && !register_file
                        && entries@ == seq![
                            SqePlan::Read {
                                fixed_fd: res as u32,
                                len: final(self).inner.output.unwrap().spec_aligned_len() as u32,
                                offset: old(self).range.start as u64,
                                user_data: chain_user_data(index_of_op, READ),
                            },
                            SqePlan::Close { fixed_fd: res as u32, user_data: chain_user_data(index_of_op, CLOSE) },
                        ]
                }
                &&& op == READ ==> r.0 is Pending
                &&& op == READ && !err ==> r.1 == old(self).inner.output && final(self).inner.output is None
                &&& op == READ && err ==> r.1 is None
                &&& op == CLOSE ==> r.1 is None && r.0 == (ChainNextStep::Done { unregister_file: true })
            }),
    {
        self.inner.n_steps_completed = self.inner.n_steps_completed + 1;
        match self.inner.last_cqe_result {
            None => {
                // Build the first entry.
                (ChainNextStep::SubmitEntries { entries: build_openat_sqe(index_of_op), register_file: true }, None)
            },
            Some(cqe_result) => {
                let op = match self.inner.last_opcode {
                    Some(op) => op,
                    None => vstd::pervasive::unreached(),
                };
                if op == openat_code() {
                    if self.inner.error_has_occurred {
                        // The file could not be opened, so there is nothing to read or close.
                        (ChainNextStep::Done { unregister_file: true }, None)
                    } else {
                        let fixed_fd = cqe_result as u32;
                        self.fixed_fd = Some(fixed_fd);
                        let (entries, buffer) = create_linked_read_range_close_sqes(&self.range, fixed_fd, index_of_op);
                        self.inner.output = Some(buffer);
                        (ChainNextStep::SubmitEntries { entries, register_file: false }, None)
                    }
                } else if op == read_code() {
                    if !self.inner.error_has_occurred {
                        let buffer = self.inner.send_output();
                        // Not done yet: the linked `close` has still to complete.
                        (ChainNextStep::Pending, Some(buffer))
                    } else {
                        (ChainNextStep::Pending, None)
                    }
                } else {
                    (ChainNextStep::Done { unregister_file: true }, None)
                }
            },
        }
    }
}

/// Reads a whole file through a fixed file slot.
#[derive(Debug)]
pub struct Get {
    pub path: Vec<u8>,
    pub fixed_fd: Option<u32>,
    pub inner: InnerState,
}

/// The states in which [`Get::next_step`] can be taken, given the file size it is handed.
pub open spec fn get_step_ok(s: Get, filesize: usize) -> bool {
    &&& s.inner.n_steps_completed < usize::MAX
    &&& s.inner.last_cqe_result is None ==> s.inner.n_steps_completed == 0
    &&& s.inner.last_cqe_result is Some ==> s.inner.last_opcode is Some && {
        let op = s.inner.last_opcode.unwrap();
        &&& op == OPENAT || op == READ || op == CLOSE
        &&& op == OPENAT && !s.inner.error_has_occurred ==> valid_buffer_request(filesize as int, ALIGN as int)
        &&& op == READ && !s.inner.error_has_occurred ==> s.inner.output is Some
    }
}

impl Get {
    /// Returns whether [`Get::next_step`] can be taken now with this file size.
    pub fn step_allowed(&self, filesize: usize) -> (r: bool)
        ensures
            r == get_step_ok(*self, filesize),
    {
        if self.inner.n_steps_completed == usize::MAX {
            return false;
        }
        match self.inner.last_cqe_result {
            None => self.inner.n_steps_completed == 0,
            Some(_) => match self.inner.last_opcode {
                None => false,
                Some(op) => {
                    if op == OPENAT {
                        self.inner.error_has_occurred || valid_whole_file_buffer(filesize)
                    } else if op == READ {
                        self.inner.error_has_occurred || self.inner.output.is_some()
                    } else {
                        op == CLOSE
                    }
                },
            },
        }
    }

    pub fn new(path: Vec<u8>) -> (r: Self)
        ensures
            r.path == path,
            r.fixed_fd is None,
            r.inner.output is None,
            !r.inner.error_has_occurred,
            r.inner.last_cqe_result is None,
            r.inner.n_steps_completed == 0,
    {
        Get { path, fixed_fd: None, inner: InnerState::new() }
    }

    /// The next step, as for [`GetRange::next_step`], reading the whole file: `filesize` is the
    /// file's size, which is only read after a successful `openat`.
    pub fn next_step(&mut self, index_of_op: usize, filesize: usize) -> (r: (ChainNextStep, Option<AlignedBuffer>))
        requires
            get_step_ok(*old(self), filesize),
        ensures
            final(self).inner.n_steps_completed == old(self).inner.n_steps_completed + 1,
            final(self).path == old(self).path,
            final(self).inner.last_cqe_result == old(self).inner.last_cqe_result,
            final(self).inner.last_opcode == old(self).inner.last_opcode,
            final(self).inner.error_has_occurred == old(self).inner.error_has_occurred,
            !opens_reads(old(self).inner) ==> final(self).fixed_fd == old(self).fixed_fd,
            !opens_reads(old(self).inner) && !sends_read(old(self).inner) ==> final(self).inner.output
                == old(self).inner.output,
            ((r.0 matches ChainNextStep::SubmitEntries { register_file, .. }) && r.0->register_file) <==> registers(
                old(self).inner,
            ),
            ((r.0 matches ChainNextStep::Done { .. }) && r.0->unregister_file) <==> releases(old(self).inner),
            r.1 is Some <==> sends_read(old(self).inner),
            old(self).inner.last_cqe_result is None ==> r.1 is None && (r.0 matches ChainNextStep::SubmitEntries { entries, register_file }
                && register_file && entries@ == seq![SqePlan::OpenAt { user_data: chain_user_data(index_of_op, OPENAT) }]),
            old(self).inner.last_cqe_result is Some ==> ({
                let op = old(self).inner.last_opcode.unwrap();
                let res = old(self).inner.last_cqe_result.unwrap();
                let err = old(self).inner.error_has_occurred;
                &&& op == OPENAT && err ==> r.1 is None && r.0 == (ChainNextStep::Done { unregister_file: true })
                &&& op == OPENAT && !err ==> {
                    &&& r.1 is None
                    &&& final(self).fixed_fd == Some(res as u32)
                    &&& final(self).inner.output matches Some(b) && b.spec_len() == filesize && b.spec_start_offset() == 0
                        && b.spec_align() == ALIGN && b.spec_aligned_len() == padded_len(filesize as int, ALIGN as int)
                    &&& r.0 matches ChainNextStep::SubmitEntries { entries, register_file } && !register_file
                        && entries@ == seq![
                            SqePlan::Read {
                                fixed_fd: res as u32,
                                len: final(self).inner.output.unwrap().spec_aligned_len() as u32,
                                offset: 0,
                                user_data: chain_user_data(index_of_op, READ),
                            },
                            SqePlan::Close { fixed_fd: res as u32, user_data: chain_user_data(index_of_op, CLOSE) },
                        ]
                }
                &&& op == READ ==> r.0 is Pending
                &&& op == READ && !err ==> r.1 == old(self).inner.output && final(self).inner.output is None
                &&& op == READ && err ==> r.1 is None
                &&& op == CLOSE ==> r.1 is None && r.0 == (ChainNextStep::Done { unregister_file: true })
            }),
    {
        self.inner.n_steps_completed = self.inner.n_steps_completed + 1;
        match self.inner.last_cqe_result {
            None => (ChainNextStep::SubmitEntries { entries: build_openat_sqe(index_of_op), register_file: true }, None),
            Some(cqe_result) => {
                let op = match self.inner.last_opcode {
                    Some(op) => op,
                    None => vstd::pervasive::unreached(),
                };
                if op == openat_code() {
                    if self.inner.error_has_occurred {
                        // The file could not be opened, so there is nothing to read or close.
                        (ChainNextStep::Done { unregister_file: true }, None)
                    } else {
                        let fixed_fd = cqe_result as u32;
                        self.fixed_fd = Some(fixed_fd);
                        let (entries, buffer) = create_linked_read_close_sqes(filesize, fixed_fd, index_of_op);
                        self.inner.output = Some(buffer);
                        (ChainNextStep::SubmitEntries { entries, register_file: false }, None)
                    }
                } else if op == read_code() {
                    if !self.inner.error_has_occurred {
                        let buffer = self.inner.send_output();
                        (ChainNextStep::Pending, Some(buffer))
                    } else {
                        // Not done yet: the linked `close` has still to complete.
                        (ChainNextStep::Pending, None)
                    }
                } else {
                    (ChainNextStep::Done { unregister_file: true }, None)
                }
            },
        }
    }
}

} // verus!
