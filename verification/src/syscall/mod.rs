//! System calls: numbers, per-task accounting records, and the dispatcher.
pub mod fs;
pub mod process;
pub mod task;

use vstd::prelude::*;
use crate::task::task::{TaskStatus, MAX_SYSCALL_NUM};
use crate::task::fd_table::FileDesc;
use crate::task::manager::Kernel;
use crate::task::state::{KernelView, INITPROC_PID};
use fs::{sys_write, writable_file};
use process::{sys_exit, sys_yield};

verus! {

/// Number of the `write` system call.
pub const SYSCALL_WRITE: usize = 64;
/// Number of the `exit` system call.
pub const SYSCALL_EXIT: usize = 93;
/// Number of the `yield` system call.
pub const SYSCALL_YIELD: usize = 124;
/// Number of the `get_time` system call.
pub const SYSCALL_GET_TIME: usize = 169;

/// How often a task made one system call.
#[derive(Debug, Clone, Copy, PartialEq, Eq, Structural)]
pub struct SyscallInfo {
    /// System-call number.
    pub id: usize,
    /// Number of calls made.
    pub times: usize,
}

/// What a task reports about itself.
#[derive(Debug)]
pub struct TaskInfo {
    /// Task identifier.
    pub id: usize,
    /// Scheduling state.
    pub status: TaskStatus,
    /// Per-system-call counters.
    pub call: [SyscallInfo; MAX_SYSCALL_NUM],
    /// Running time.
    pub time: usize,
}

/// What the host is to do once the kernel has handled a system call.
#[derive(Debug, Clone, Copy, PartialEq, Eq, Structural)]
pub enum SyscallOutcome {
    /// Return this value to the calling task.
    Return(isize),
    /// Write `len` bytes of the user buffer at `buf` to `file`, and return
    /// the number of bytes written.
    Write { file: FileDesc, buf: usize, len: usize },
    /// Store the current time at user address `ts` and return 0.
    GetTime { ts: usize, tz: usize },
    /// The calling task exited; nothing is returned to it.
    Exited,
}

/// The system calls the dispatcher handles.
pub open spec fn is_supported(syscall_id: usize) -> bool {
    syscall_id == SYSCALL_WRITE || syscall_id == SYSCALL_EXIT || syscall_id == SYSCALL_YIELD
        || syscall_id == SYSCALL_GET_TIME
}

/// The state after the running task's counter for `syscall_id` grew by one.
pub open spec fn counted(v: KernelView, syscall_id: usize) -> KernelView {
    v.with_current(
        v.cur().with_calls(
            v.cur().calls.update(
                syscall_id as int,
                SyscallInfo {
                    times: (v.cur().calls[syscall_id as int].times + 1) as usize,
                    ..v.cur().calls[syscall_id as int]
                },
            ),
        ),
    )
}

/// Counting a system call raises the running task's counter for that call
/// by one and leaves every other counter and task as it was.
pub proof fn lemma_counted_changes_one_counter(v: KernelView, syscall_id: usize)
    requires
        v.wf(),
        v.current is Some,
        syscall_id < MAX_SYSCALL_NUM,
        v.cur().calls[syscall_id as int].times < usize::MAX,
    ensures
        counted(v, syscall_id).current == v.current,
        counted(v, syscall_id).cur().calls[syscall_id as int].times
            == v.cur().calls[syscall_id as int].times + 1,
        forall|j: int|
            0 <= j < v.cur().calls.len() && j != syscall_id ==> #[trigger] counted(
                v,
                syscall_id,
            ).cur().calls[j] == v.cur().calls[j],
        forall|p: usize|
            v.procs.contains_key(p) && p != v.current->0 ==> #[trigger] counted(v, syscall_id).procs[p]
                == v.procs[p],
        counted(v, syscall_id).procs.dom() == v.procs.dom(),
{
    assert(counted(v, syscall_id).procs.dom() =~= v.procs.dom());
}

/// Handles system call `syscall_id` with arguments `args` from the running
/// task: counts the call in the task's counters, then carries it out. An
/// unsupported number is a fatal kernel error, which the caller rules out.
pub fn syscall(kernel: &mut Kernel, syscall_id: usize, args: [usize; 3]) -> (r: SyscallOutcome)
    requires
        old(kernel).wf(),
        old(kernel)@.current is Some,
        is_supported(syscall_id),
        old(kernel)@.cur().calls[syscall_id as int].times < usize::MAX,
        syscall_id == SYSCALL_EXIT ==> old(kernel)@.current->0 != INITPROC_PID,
    ensures
        final(kernel).wf(),
        ({
            let c = counted(old(kernel)@, syscall_id);
            &&& syscall_id == SYSCALL_WRITE ==> final(kernel)@ == c && r == match writable_file(
                c,
                args[0] as int,
            ) {
                Some(f) => SyscallOutcome::Write { file: f, buf: args[1], len: args[2] },
                None => SyscallOutcome::Return(-1isize),
            }
            &&& syscall_id == SYSCALL_WRITE ==> {
                let t = old(kernel)@.cur().fd_table;
                if args[0] < t.len() && t[args[0] as int] is Some && t[args[0] as int]->0.writable {
                    r == SyscallOutcome::Write { file: t[args[0] as int]->0, buf: args[1], len: args[2] }
                } else {
                    r == SyscallOutcome::Return(-1isize)
                }
            }
            &&& syscall_id == SYSCALL_EXIT ==> final(kernel)@ == c.exited(args[0] as i32).run_next()
                && r == SyscallOutcome::Exited
            &&& syscall_id == SYSCALL_YIELD ==> final(kernel)@ == c.suspended().run_next() && r
                == SyscallOutcome::Return(0isize)
            &&& syscall_id == SYSCALL_GET_TIME ==> final(kernel)@ == c && r
                == SyscallOutcome::GetTime { ts: args[0], tz: args[1] }
        }),
{
    kernel.count_syscall(syscall_id);
    match syscall_id {
        SYSCALL_WRITE => match sys_write(kernel, args[0]) {
            Ok(file) => SyscallOutcome::Write { file, buf: args[1], len: args[2] },
            Err(e) => SyscallOutcome::Return(e),
        },
        SYSCALL_EXIT => {
            sys_exit(kernel, args[0] as i32);
            SyscallOutcome::Exited
        },
        SYSCALL_YIELD => SyscallOutcome::Return(sys_yield(kernel)),
        _ => SyscallOutcome::GetTime { ts: args[0], tz: args[1] },
    }
}

} // verus!
