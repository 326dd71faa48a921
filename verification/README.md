# hringas

`io_uring` in Rust, at the same level of abstraction as `liburing`, with its queue
logic written and verified in [Verus](https://github.com/verus-lang/verus).

- `src/` is the library. It holds what is computed about a ring: the positions of
  the two queues, handing out and announcing submission queue entries, copying
  completions, the fields of each operation, provided buffer rings, and the steps
  in which a ring is set up. Every function states what it does, and
  `src/laws.rs` states and proves what holds across calls: each queue is first in
  first out, nothing that is queued is overwritten, and none of it is disturbed
  when the 32-bit positions wrap around. `src/run.rs` does so for runs of any
  length: what is pending is what was acquired less what was consumed.
- `app/` is the part that talks to the kernel: the mappings, the system calls and
  the atomic loads and stores. It carries what the kernel writes into the library
  and what the library writes out to the kernel.
- `tests/` run the library against a kernel that the tests play themselves.

The library makes no system call. It says which call is due, as a value such as
`Enter` or `Register`, and takes in what came of it.

Flag words are plain integers. `rustix` decides what it means to hold a flag or to
add one, and has the default parameters and sizes of the kernel's structures; the
few functions that call it are marked, and each says what is taken on trust.
