use io_uring::opcode;
use lsio::opcode::{opcode_to_opname, OpCode};
use lsio::user_data::UringUserData;

#[test]
fn test_uring_user_data_round_trip() {
    const INDEX: u32 = 100;
    let opcode_read: OpCode = OpCode::new(opcode::Read::CODE);
    let uring_user_data = UringUserData::new(INDEX, opcode_read);
    println!("{uring_user_data:?}");
    let user_data_u64: u64 = uring_user_data.into_u64();
    let uring_user_data = UringUserData::from(user_data_u64);
    assert_eq!(uring_user_data.index_of_op(), INDEX);
    assert_eq!(*uring_user_data.opcode(), opcode_read);
}

#[test]
fn user_data_layout() {
    let word = UringUserData::new(3, OpCode::new(opcode::Close::CODE)).into_u64();
    assert_eq!(word, (3u64 << 32) | 19);
    let decoded = UringUserData::from_u64(0xABCD_0000_1234_5616);
    assert_eq!(decoded.index_of_op(), 0xABCD_0000);
    assert_eq!(decoded.opcode().value(), 0x16);
}

#[test]
fn opcode_names() {
    assert_eq!(OpCode::new(opcode::OpenAt::CODE).name(), "openat");
    assert_eq!(OpCode::new(opcode::Read::CODE).name(), "read");
    assert_eq!(OpCode::new(opcode::Close::CODE).name(), "close");
    assert_eq!(OpCode::new(opcode::Statx::CODE).name(), "Un-recognised opcode");
    assert_eq!(opcode_to_opname(22), "read");
    assert_eq!(opcode_to_opname(0), "Un-recognised opcode");
    assert_eq!(lsio::opcode::READ, opcode::Read::CODE);
    assert_eq!(lsio::opcode::OPENAT, opcode::OpenAt::CODE);
    assert_eq!(lsio::opcode::CLOSE, opcode::Close::CODE);
    assert_eq!(lsio::opcode::STATX, opcode::Statx::CODE);
}
