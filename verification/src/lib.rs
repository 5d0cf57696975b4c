//! Verified core of a small io_uring-based I/O library.

pub mod aligned_buffer;
pub mod aligned_buffer_mut;
pub mod aligned_bytes;
pub mod batch;
pub mod bench;
pub mod byte_ranges;
pub mod chain_ops;
pub mod chain_worker;
pub mod cqe;
pub mod file_path;
pub mod io;
pub mod op_tracker;
pub mod open_file;
pub mod opcode;
pub mod operation;
pub mod park_manager;
pub mod read_range;
pub mod slot_tracker;
pub mod tracker;
pub mod user_data;
pub mod worker;
