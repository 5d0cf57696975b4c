//! The io_uring operation codes that this library submits, and their names.

use vstd::prelude::*;

verus! {

/// `io_uring::opcode::OpenAt::CODE`: the kernel's number for `openat`, which the crate's
/// bindings give as 18 (`IORING_OP_OPENAT`).
#[verifier::external_body]
pub(crate) fn openat_code() -> (c: u8)
    ensures
        c == OPENAT,
{
    io_uring::opcode::OpenAt::CODE
}

/// `io_uring::opcode::Close::CODE`: the kernel's number for `close`, which the crate's
/// bindings give as 19 (`IORING_OP_CLOSE`).
#[verifier::external_body]
pub(crate) fn close_code() -> (c: u8)
    ensures
        c == CLOSE,
{
    io_uring::opcode::Close::CODE
}

/// `io_uring::opcode::Statx::CODE`: the kernel's number for `statx`, which the crate's
/// bindings give as 21 (`IORING_OP_STATX`).
#[verifier::external_body]
pub(crate) fn statx_code() -> (c: u8)
    ensures
        c == STATX,
{
    io_uring::opcode::Statx::CODE
}

/// `io_uring::opcode::Read::CODE`: the kernel's number for `read`, which the crate's bindings
/// give as 22 (`IORING_OP_READ`).
#[verifier::external_body]
pub(crate) fn read_code() -> (c: u8)
    ensures
        c == READ,
{
    io_uring::opcode::Read::CODE
}

/// The kernel's number for `openat`.
pub const OPENAT: u8 = 18;

/// The kernel's number for `close`.
pub const CLOSE: u8 = 19;

/// The kernel's number for `statx`.
pub const STATX: u8 = 21;

/// The kernel's number for `read`.
pub const READ: u8 = 22;

/// The name of an io_uring opcode, as shown in error messages.
pub open spec fn spec_opname(code: u8) -> Seq<char> {
    if code == OPENAT {
        "openat"@
    } else if code == READ {
        "read"@
    } else if code == CLOSE {
        "close"@
    } else {
        "Un-recognised opcode"@
    }
}

/// Returns the name of an io_uring opcode: `openat`, `read` or `close`, or
/// `Un-recognised opcode` for any other.
pub fn opcode_to_opname(code: u8) -> (name: &'static str)
    ensures
        name@ == spec_opname(code),
{
    if code == openat_code() {
        "openat"
    } else if code == read_code() {
        "read"
    } else if code == close_code() {
        "close"
    } else {
        "Un-recognised opcode"
    }
}

/// An io_uring opcode.
#[derive(Debug, PartialEq, Eq, Clone, Copy, Structural)]
pub struct OpCode(pub u8);

impl OpCode {
    pub fn new(op: u8) -> (r: Self)
        ensures
            r.0 == op,
    {
        OpCode(op)
    }

    /// The opcode's name: `openat`, `read` or `close`, or `Un-recognised opcode`.
    pub fn name(&self) -> (name: &'static str)
        ensures
            name@ == spec_opname(self.0),
    {
        opcode_to_opname(self.0)
    }

    pub fn value(&self) -> (r: u8)
        ensures
            r == self.0,
    {
        self.0
    }
}

} // verus!
