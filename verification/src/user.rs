//! The user-side system-call interface: how a user program encodes its
//! requests into the system-call number and the three argument registers
//! that the trap hands to the kernel's dispatcher.
use vstd::prelude::*;

verus! {

/// Number of the `write` system call.
pub const SYSCALL_WRITE: usize = 64;
/// Number of the `exit` system call.
pub const SYSCALL_EXIT: usize = 93;
/// Number of the `add` system call.
pub const SYSCALL_ADD: usize = 1;

/// A system-call request: the number (register `a7`) and the arguments
/// (registers `a0`..`a2`).
#[derive(Debug, Clone, Copy)]
pub struct SyscallRequest {
    /// System-call number.
    pub id: usize,
    /// Arguments.
    pub args: [usize; 3],
}

/// The argument that carries exit code `exit_code`: the code sign-extended
/// to a register.
pub open spec fn exit_code_arg(exit_code: i32) -> usize {
    exit_code as usize
}

/// Requests writing the `buffer_len` bytes at user address `buffer_addr` to
/// descriptor `fd`.
pub fn sys_write(fd: usize, buffer_addr: usize, buffer_len: usize) -> (req: SyscallRequest)
    ensures
        req.id == SYSCALL_WRITE,
        req.args@ == seq![fd, buffer_addr, buffer_len],
{
    let req = SyscallRequest { id: SYSCALL_WRITE, args: [fd, buffer_addr, buffer_len] };
    proof {
        assert(req.args@ =~= seq![fd, buffer_addr, buffer_len]);
    }
    req
}

/// Requests that the calling program exit with `exit_code`.
pub fn sys_exit(exit_code: i32) -> (req: SyscallRequest)
    ensures
        req.id == SYSCALL_EXIT,
        req.args@ == seq![exit_code_arg(exit_code), 0usize, 0usize],
{
    let req = SyscallRequest { id: SYSCALL_EXIT, args: [exit_code as usize, 0, 0] };
    proof {
        assert(req.args@ =~= seq![exit_code_arg(exit_code), 0usize, 0usize]);
    }
    req
}

/// Requests the `add` service for `num`; the program reads the result
/// register as an unsigned number.
pub fn sys_add(num: usize) -> (req: SyscallRequest)
    ensures
        req.id == SYSCALL_ADD,
        req.args@ == seq![num, 0usize, 0usize],
{
    let req = SyscallRequest { id: SYSCALL_ADD, args: [num, 0, 0] };
    proof {
        assert(req.args@ =~= seq![num, 0usize, 0usize]);
    }
    req
}

/// The kernel reads back exactly the exit code a program passed: the
/// register that `sys_exit` fills, taken as an `i32` by the dispatcher, is
/// the exit code.
pub proof fn lemma_exit_code_round_trip(exit_code: i32)
    ensures
        exit_code_arg(exit_code) as i32 == exit_code,
{
    assert((exit_code as usize) as i32 == exit_code) by (bit_vector);
}

} // verus!
