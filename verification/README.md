# lsio

The verified core of a small I/O library that reads byte ranges of local files through Linux's
`io_uring`, with a benchmark program around it.

- `src/` is the library, verified with Verus: aligned buffer views that can be split and frozen
  (`aligned_bytes`), buffers that hand out exclusive slices (`aligned_buffer_mut`,
  `aligned_buffer`), trackers of in-flight operations (`tracker`, `slot_tracker`, `op_tracker`),
  the packing of io_uring `user_data` words (`user_data`, `opcode`), the planning of reads
  (`read_range`), the operations' state machines (`operation`, `chain_ops`), the decisions of
  worker loops and of the thread pool's park manager (`worker`, `chain_worker`, `batch`,
  `park_manager`), and the benchmark's chunking (`bench`).
- `app/` is the benchmark program: argument parsing, test files, the thread pool, the memory the
  kernel reads into, and the io_uring submission and completion loop that drives the library.
- `tests/` runs the library on concrete values.
