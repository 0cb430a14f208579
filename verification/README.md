# moturus_rt

Verified pieces of the Motor OS (moturus) user-space runtime.

- `src/algebra.rs` — flag sets as bit patterns: union, intersection,
  difference, symmetric difference, complement, truncation, and the laws
  that relate them.
- `src/flag_sets/` — concrete flag-set types (over `u8`, `i8`, `u16`,
  `u32` and `u128`), each with the full set of constructors, queries,
  in-place updates, operators and text forms, specified through
  `algebra` on the set's bit pattern. The exceptions are the `Extend` and
  `FromIterator` impls, which Verus cannot check over a generic
  `IntoIterator`: they are trusted, convert the caller's iterator and hand
  it to the verified `insert_iter` / `union_iter`, whose contracts state
  the union of the items for an iterator that keeps vstd's iterator laws.
- `src/flag_text.rs`, `src/radix.rs` — the `{:?}` text of a flag set and the
  `{:b}`/`{:o}`/`{:x}`/`{:X}` text of numbers.
- `src/backtrace.rs` — the decisions of the frame-pointer stack walk, as a
  state machine, and the `addr2line` report of its result.
- `src/backend.rs` — page rounding for the back-end allocator and the
  exit status handed to the kernel.
- `app/lib.rs` — the glue that performs the system calls, raw memory
  reads and allocator plumbing around the verified library.
