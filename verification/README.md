# rcore_kernel

A verified model of the core of a small RISC-V teaching kernel, written in
Verus.

* `src/task/` — tasks: control blocks (`task.rs`), saved contexts
  (`context.rs`), descriptor tables (`fd_table.rs`), address spaces as sets
  of mapped pages (`memory_set.rs`), the abstract kernel state with its
  invariant and transition lemmas (`state.rs`), the process table and FIFO
  scheduler (`manager.rs`), and the running task's operations: yield, exit,
  `mmap`, `munmap` (`mod.rs`).
* `src/syscall/` — the system calls over descriptors (`fs.rs`), processes
  and memory (`process.rs`), task information (`task.rs`), and the
  dispatcher that counts and carries out calls (`mod.rs`).
* `src/timer.rs` — tick conversions and the next timer deadline.
* `src/user.rs` — how user programs encode system-call requests.
* `app/main.rs` — boot, logging, the `mtime` counter, the SBI timer, the
  trap-side system-call entry and the user-side `ecall`.

Every operation on the kernel is specified over `KernelView` and keeps
`KernelView::wf`: identifiers are consistent, scheduling states match the
ready queue and the processor, and parent/child links form a consistent
tree under the initial process.
