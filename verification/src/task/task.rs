//! The task control block.
use vstd::prelude::*;
use super::context::TaskContext;
use super::fd_table::FileDesc;
use super::memory_set::MemorySet;
use crate::syscall::SyscallInfo;
use crate::trap::TrapContext;

verus! {

/// Number of slots of a task's per-system-call counters.
pub const MAX_SYSCALL_NUM: usize = 500;

/// The scheduling state of a task.
#[derive(Copy, Clone, PartialEq, Eq, Debug, Structural)]
pub enum TaskStatus {
    /// Created, not yet handed to the scheduler.
    UnInit,
    /// Waiting in the ready queue.
    Ready,
    /// Running on the processor.
    Running,
    /// Exited; kept until its parent collects the exit code.
    Exited,
}

/// Everything the kernel keeps about one task.
#[allow(non_snake_case)]
pub struct TaskControlBlock {
    /// Scheduling state.
    pub task_status: TaskStatus,
    /// Saved kernel context.
    pub task_cx: TaskContext,
    /// Process identifier.
    pub id: usize,
    /// Per-system-call usage counters, indexed by system-call number.
    pub call: [SyscallInfo; MAX_SYSCALL_NUM],
    /// Time at which the task was first scheduled.
    pub startTime: usize,
    /// Process identifier of the parent; `None` for the initial process.
    pub parent: Option<usize>,
    /// Process identifiers of the children, in order of creation.
    pub children: Vec<usize>,
    /// Exit code, meaningful once the task exited.
    pub exit_code: i32,
    /// File descriptor table.
    pub fd_table: Vec<Option<FileDesc>>,
    /// User address space.
    pub memory_set: MemorySet,
    /// User context saved when the task trapped into the kernel.
    pub trap_cx: TrapContext,
}

/// What loading a program yields: the address space holding it and the
/// user context it starts running in.
pub struct AppImage {
    /// Address space with the program's segments and user stack.
    pub memory_set: MemorySet,
    /// Initial user context: entry point and stack pointer.
    pub trap_cx: TrapContext,
}

/// Counters with every slot zero.
pub fn zero_calls() -> (call: [SyscallInfo; MAX_SYSCALL_NUM])
    ensures
        forall|i: int| 0 <= i < MAX_SYSCALL_NUM ==> call[i] == (SyscallInfo { id: 0, times: 0 }),
{
    [SyscallInfo { id: 0, times: 0 }; MAX_SYSCALL_NUM]
}

} // verus!
