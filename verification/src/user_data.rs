//! The 64-bit `user_data` that travels with each io_uring submission and comes back with its
//! completion: the index of the operation in the upper 32 bits and the opcode in the low bits.

use crate::opcode::OpCode;
use vstd::prelude::*;

verus! {

/// The index of an in-flight operation and the opcode of one of its submissions.
#[derive(Debug, PartialEq, Eq, Clone, Copy, Structural)]
pub struct UringUserData {
    index_of_op: u32,
    op: OpCode,
}

/// The `user_data` word for an index and an opcode.
pub open spec fn spec_encode(index_of_op: u32, op: u8) -> u64 {
    ((index_of_op as u64) << 32u64) | (op as u64)
}

/// The index that a `user_data` word carries.
pub open spec fn spec_decode_index(value: u64) -> u32 {
    (value >> 32u64) as u32
}

/// The opcode that a `user_data` word carries: its lowest byte.
pub open spec fn spec_decode_opcode(value: u64) -> u8 {
    (value & 0xFFu64) as u8
}

impl UringUserData {
    pub closed spec fn spec_index_of_op(self) -> u32 {
        self.index_of_op
    }

    pub closed spec fn spec_opcode(self) -> OpCode {
        self.op
    }

    pub fn new(index_of_op: u32, op: OpCode) -> (r: Self)
        ensures
            r.spec_index_of_op() == index_of_op,
            r.spec_opcode() == op,
    {
        UringUserData { index_of_op, op }
    }

    pub fn index_of_op(&self) -> (r: u32)
        ensures
            r == self.spec_index_of_op(),
    {
        self.index_of_op
    }

    pub fn opcode(&self) -> (r: &OpCode)
        ensures
            *r == self.spec_opcode(),
    {
        &self.op
    }

    /// Reads the index from the upper 32 bits of `value` and the opcode from its lowest byte.
    pub fn from_u64(value: u64) -> (r: Self)
        ensures
            r.spec_index_of_op() == spec_decode_index(value),
            r.spec_opcode() == OpCode(spec_decode_opcode(value)),
    {
        let index_of_op: u32 = (value >> 32u64) as u32;
        let op = OpCode::new((value & 0xFFu64) as u8);
        UringUserData { index_of_op, op }
    }

    /// Packs the index into the upper 32 bits and the opcode into the lowest byte. The index
    /// must be below `u32::MAX`.
    pub fn into_u64(self) -> (r: u64)
        requires
            self.spec_index_of_op() < u32::MAX,
        ensures
            r == spec_encode(self.spec_index_of_op(), self.spec_opcode().0),
    {
        let index_of_op: u64 = (self.index_of_op as u64) << 32u64;
        index_of_op | (self.op.value() as u64)
    }
}

impl From<u64> for UringUserData {
    fn from(value: u64) -> (r: Self)
        ensures
            r.spec_index_of_op() == spec_decode_index(value),
            r.spec_opcode() == OpCode(spec_decode_opcode(value)),
    {
        UringUserData::from_u64(value)
    }
}

impl vstd::std_specs::convert::FromSpecImpl<u64> for UringUserData {
    open spec fn obeys_from_spec() -> bool {
        true
    }

    closed spec fn from_spec(v: u64) -> Self {
        UringUserData { index_of_op: spec_decode_index(v), op: OpCode(spec_decode_opcode(v)) }
    }
}

/// Decoding an encoded `user_data` word gives back the index and the opcode.
pub proof fn lemma_user_data_round_trip(index_of_op: u32, op: u8)
    ensures
        spec_decode_index(spec_encode(index_of_op, op)) == index_of_op,
        spec_decode_opcode(spec_encode(index_of_op, op)) == op,
{
    assert((((index_of_op as u64) << 32u64) | (op as u64)) >> 32u64 == index_of_op as u64)
        by (bit_vector);
    assert((((index_of_op as u64) << 32u64) | (op as u64)) & 0xFFu64 == op as u64) by (bit_vector);
}

/// A `user_data` value survives being packed into a word and read back.
pub proof fn lemma_uring_user_data_round_trip(u: UringUserData)
    ensures
        spec_decode_index(spec_encode(u.spec_index_of_op(), u.spec_opcode().0)) == u.spec_index_of_op(),
        OpCode(spec_decode_opcode(spec_encode(u.spec_index_of_op(), u.spec_opcode().0))) == u.spec_opcode(),
{
    lemma_user_data_round_trip(u.spec_index_of_op(), u.spec_opcode().0);
}

} // verus!
