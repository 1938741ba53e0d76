use rcore_kernel::syscall::process::{sys_fork, sys_get_time, sys_getpid, sys_waitpid};
use rcore_kernel::syscall::task::sys_get_task_info;
use rcore_kernel::syscall::{
    syscall, SyscallOutcome, SYSCALL_EXIT, SYSCALL_GET_TIME, SYSCALL_WRITE, SYSCALL_YIELD,
};
use rcore_kernel::task::add_initproc;
use rcore_kernel::task::fd_table::stdout;
use rcore_kernel::task::manager::Kernel;
use rcore_kernel::task::task::AppImage;
use rcore_kernel::trap::TrapContext;
use rcore_kernel::task::memory_set::MemorySet;
use rcore_kernel::user;

fn app_image(memory_set: MemorySet) -> AppImage {
    AppImage { memory_set, trap_cx: TrapContext { x: [0; 32], sstatus: 0, sepc: 0x1000 } }
}

fn booted() -> Kernel {
    let mut k = Kernel::new(app_image(MemorySet::new_bare()));
    add_initproc(&mut k);
    assert_eq!(k.run_next_task(), Some(0));
    k
}

#[test]
fn dispatcher_counts_each_call() {
    let mut k = booted();
    assert_eq!(k.current_syscall_times(SYSCALL_WRITE), 0);
    assert_eq!(
        syscall(&mut k, SYSCALL_WRITE, [1, 0x8000, 5]),
        SyscallOutcome::Write { file: stdout(), buf: 0x8000, len: 5 }
    );
    assert_eq!(k.current_syscall_times(SYSCALL_WRITE), 1);
    assert_eq!(syscall(&mut k, SYSCALL_WRITE, [0, 0x8000, 5]), SyscallOutcome::Return(-1));
    assert_eq!(k.current_syscall_times(SYSCALL_WRITE), 2);
    assert_eq!(k.current_syscall_times(SYSCALL_GET_TIME), 0);
    assert_eq!(
        syscall(&mut k, SYSCALL_GET_TIME, [0x100, 0, 0]),
        SyscallOutcome::GetTime { ts: 0x100, tz: 0 }
    );
    assert_eq!(k.current_syscall_times(SYSCALL_GET_TIME), 1);
    assert_eq!(k.current_syscall_times(SYSCALL_WRITE), 2);
    assert_eq!(k.current_syscall_times(SYSCALL_YIELD), 0);
}

#[test]
fn dispatcher_yield_and_exit() {
    let mut k = booted();
    assert_eq!(sys_fork(&mut k), 1);
    assert_eq!(syscall(&mut k, SYSCALL_YIELD, [0, 0, 0]), SyscallOutcome::Return(0));
    assert_eq!(k.current_pid(), Some(1));
    assert_eq!(k.current_syscall_times(SYSCALL_YIELD), 0);
    let req = user::sys_exit(-5);
    assert_eq!(syscall(&mut k, req.id, req.args), SyscallOutcome::Exited);
    assert_eq!(k.current_pid(), Some(0));
    assert_eq!(k.current_syscall_times(SYSCALL_YIELD), 1);
    assert_eq!(sys_waitpid(&mut k, -1), (1, Some(-5)));
    assert_eq!(sys_getpid(&k), 0);
}

#[test]
fn dispatcher_exit_from_user_write_request() {
    let mut k = booted();
    let req = user::sys_write(2, 0x4000, 12);
    assert_eq!(
        syscall(&mut k, req.id, req.args),
        SyscallOutcome::Write { file: stdout(), buf: 0x4000, len: 12 }
    );
    assert_eq!(SYSCALL_EXIT, 93);
}

#[test]
fn user_requests_encode_number_and_arguments() {
    let w = user::sys_write(1, 0x1234, 7);
    assert_eq!(w.id, 64);
    assert_eq!(w.args, [1, 0x1234, 7]);
    let e = user::sys_exit(-3);
    assert_eq!(e.id, 93);
    assert_eq!(e.args, [usize::MAX - 2, 0, 0]);
    assert_eq!(e.args[0] as i32, -3);
    let e2 = user::sys_exit(42);
    assert_eq!(e2.args, [42, 0, 0]);
    let a = user::sys_add(5);
    assert_eq!(a.id, 1);
    assert_eq!(a.args, [5, 0, 0]);
}

#[test]
fn get_time_splits_microseconds() {
    let tv = sys_get_time(3_500_000);
    assert_eq!((tv.sec, tv.usec), (3, 500_000));
    let tv = sys_get_time(999_999);
    assert_eq!((tv.sec, tv.usec), (0, 999_999));
    let tv = sys_get_time(0);
    assert_eq!((tv.sec, tv.usec), (0, 0));
}

#[test]
fn get_task_info_returns_zero() {
    assert_eq!(sys_get_task_info(), 0);
}
