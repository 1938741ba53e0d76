//! A verified model of the core of a small teaching kernel for RISC-V:
//! per-task file-descriptor tables, a process tree with fork / exit / waitpid,
//! a FIFO scheduler, per-task memory mappings with `mmap` / `munmap`, the
//! system-call dispatcher, timer arithmetic and the user-side system-call
//! encoding. Everything that touches hardware, user memory or the file
//! system is left to the host, which hands the results in as plain values.
pub mod config;
pub mod timer;
pub mod trap;
pub mod task;
pub mod syscall;
pub mod user;
