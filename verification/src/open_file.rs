//! A file opened through io_uring, and the builder that collects what the kernel reports about
//! it: the file descriptor from `openat` and the size and alignment from `statx`.

use vstd::prelude::*;

verus! {

/// An open file: its path, file descriptor, size in bytes, and the memory alignment that
/// direct I/O on it needs.
#[derive(Debug)]
pub struct OpenFile {
    location: Vec<u8>,
    file_descriptor: i32,
    size: u64,
    alignment: u32,
}

impl OpenFile {
    pub closed spec fn spec_location(self) -> Seq<u8> {
        self.location@
    }

    pub closed spec fn spec_file_descriptor(self) -> i32 {
        self.file_descriptor
    }

    pub closed spec fn spec_size(self) -> u64 {
        self.size
    }

    pub closed spec fn spec_alignment(self) -> u32 {
        self.alignment
    }

    pub fn file_descriptor(&self) -> (r: i32)
        ensures
            r == self.spec_file_descriptor(),
    {
        self.file_descriptor
    }

    /// The file size in bytes.
    pub fn size(&self) -> (r: u64)
        ensures
            r == self.spec_size(),
    {
        self.size
    }

    pub fn alignment(&self) -> (r: u32)
        ensures
            r == self.spec_alignment(),
    {
        self.alignment
    }

    /// The file's path, as bytes.
    pub fn location(&self) -> (r: &Vec<u8>)
        ensures
            r@ == self.spec_location(),
    {
        &self.location
    }
}

/// The fields of a `statx` result that this library reads.
#[derive(Debug, Clone, Copy, PartialEq, Eq, Structural)]
pub struct StatxFields {
    /// `stx_size`: the file size in bytes.
    pub stx_size: u64,
    /// `stx_dio_mem_align`: the memory alignment that direct I/O needs.
    pub stx_dio_mem_align: u32,
}

/// Collects the results of `openat` and `statx` for one file.
#[derive(Debug)]
pub struct OpenFileBuilder {
    location: Vec<u8>,
    file_descriptor: Option<i32>,
    statx: StatxFields,
    assume_statx_is_initialised: bool,
}

impl OpenFileBuilder {
    pub closed spec fn spec_location(self) -> Seq<u8> {
        self.location@
    }

    pub closed spec fn spec_file_descriptor(self) -> Option<i32> {
        self.file_descriptor
    }

    pub closed spec fn spec_statx(self) -> StatxFields {
        self.statx
    }

    pub closed spec fn spec_statx_initialised(self) -> bool {
        self.assume_statx_is_initialised
    }

    /// Both the file descriptor and the `statx` result have arrived.
    pub open spec fn spec_is_ready(self) -> bool {
        self.spec_file_descriptor() is Some && self.spec_statx_initialised()
    }

    /// A builder for the file at `location`, with nothing reported yet and a zeroed `statx`.
    pub fn new(location: Vec<u8>) -> (r: Self)
        ensures
            r.spec_location() == location@,
            r.spec_file_descriptor() is None,
            r.spec_statx() == (StatxFields { stx_size: 0, stx_dio_mem_align: 0 }),
            !r.spec_statx_initialised(),
    {
        OpenFileBuilder {
            location,
            file_descriptor: None,
            statx: StatxFields { stx_size: 0, stx_dio_mem_align: 0 },
            assume_statx_is_initialised: false,
        }
    }

    pub fn location(&self) -> (r: &Vec<u8>)
        ensures
            r@ == self.spec_location(),
    {
        &self.location
    }

    pub fn set_file_descriptor(&mut self, file_descriptor: i32)
        ensures
            final(self).spec_file_descriptor() == Some(file_descriptor),
            final(self).spec_location() == old(self).spec_location(),
            final(self).spec_statx() == old(self).spec_statx(),
            final(self).spec_statx_initialised() == old(self).spec_statx_initialised(),
    {
        self.file_descriptor = Some(file_descriptor);
    }

    /// Stores the `statx` fields that the kernel wrote.
    pub fn set_statx(&mut self, statx: StatxFields)
        ensures
            final(self).spec_statx() == statx,
            final(self).spec_location() == old(self).spec_location(),
            final(self).spec_file_descriptor() == old(self).spec_file_descriptor(),
            final(self).spec_statx_initialised() == old(self).spec_statx_initialised(),
    {
        self.statx = statx;
    }

    /// Records that the `statx` fields hold the kernel's answer.
    pub fn assume_statx_is_initialised(&mut self)
        ensures
            final(self).spec_statx_initialised(),
            final(self).spec_location() == old(self).spec_location(),
            final(self).spec_file_descriptor() == old(self).spec_file_descriptor(),
            final(self).spec_statx() == old(self).spec_statx(),
    {
        self.assume_statx_is_initialised = true;
    }

    /// Whether the file descriptor has arrived.
    pub fn has_file_descriptor(&self) -> (r: bool)
        ensures
            r == self.spec_file_descriptor() is Some,
    {
        self.file_descriptor.is_some()
    }

    /// Whether the `statx` fields are marked as known.
    pub fn statx_is_initialised(&self) -> (r: bool)
        ensures
            r == self.spec_statx_initialised(),
    {
        self.assume_statx_is_initialised
    }

    /// Returns true once both the file descriptor and the `statx` result have arrived.
    pub fn is_ready(&self) -> (r: bool)
        ensures
            r == self.spec_is_ready(),
    {
        self.file_descriptor.is_some() && self.assume_statx_is_initialised
    }

    /// The open file. The builder must be ready.
    pub fn build(self) -> (r: OpenFile)
        requires
            self.spec_is_ready(),
        ensures
            r.spec_location() == self.spec_location(),
            r.spec_file_descriptor() == self.spec_file_descriptor().unwrap(),
            r.spec_size() == self.spec_statx().stx_size,
            r.spec_alignment() == self.spec_statx().stx_dio_mem_align,
    {
        let fd = match self.file_descriptor {
            Some(fd) => fd,
            None => vstd::pervasive::unreached(),
        };
        OpenFile {
            location: self.location,
            file_descriptor: fd,
            size: self.statx.stx_size,
            alignment: self.statx.stx_dio_mem_align,
        }
    }
}

} // verus!
