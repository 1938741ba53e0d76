use rcore_kernel::syscall::process::{
    sys_exec, sys_exit, sys_fork, sys_getpid, sys_spawn, sys_waitpid, sys_yield,
};
use rcore_kernel::task::manager::Kernel;
use rcore_kernel::task::task::AppImage;
use rcore_kernel::trap::TrapContext;
use rcore_kernel::task::state::INITPROC_PID;
use rcore_kernel::task::memory_set::{MapPermission, MemorySet};
use rcore_kernel::task::task::TaskStatus;
use rcore_kernel::task::{add_initproc, exit_current_and_run_next, suspend_current_and_run_next};

fn app_image(memory_set: MemorySet) -> AppImage {
    AppImage { memory_set, trap_cx: TrapContext { x: [0; 32], sstatus: 0, sepc: 0x1000 } }
}

fn booted() -> Kernel {
    let mut k = Kernel::new(app_image(MemorySet::new_bare()));
    add_initproc(&mut k);
    assert_eq!(k.run_next_task(), Some(INITPROC_PID));
    k
}

fn image_with_page(vpn: usize) -> AppImage {
    let mut m = MemorySet::new_bare();
    m.map_page(vpn, MapPermission { r: true, w: false, x: true, u: true });
    app_image(m)
}

#[test]
fn new_kernel_holds_only_unscheduled_initproc() {
    let mut k = Kernel::new(app_image(MemorySet::new_bare()));
    assert!(k.has_task(INITPROC_PID));
    assert!(!k.has_task(1));
    assert_eq!(k.task_status(INITPROC_PID), TaskStatus::UnInit);
    assert_eq!(k.current_pid(), None);
    assert_eq!(k.ready_len(), 0);
    assert_eq!(k.next_pid(), 1);
    assert_eq!(k.run_next_task(), None);
    add_initproc(&mut k);
    assert_eq!(k.task_status(INITPROC_PID), TaskStatus::Ready);
    assert_eq!(k.ready_len(), 1);
    assert_eq!(k.run_next_task(), Some(0));
    assert_eq!(k.task_status(INITPROC_PID), TaskStatus::Running);
    assert_eq!(k.ready_len(), 0);
    assert_eq!(sys_getpid(&k), 0);
}

#[test]
fn fork_creates_ready_child_with_copied_resources() {
    let mut k = booted();
    let mut probe = image_with_page(7).memory_set;
    assert!(probe.find_vpn(7));
    probe.unmap(7);
    assert!(!probe.find_vpn(7));
    let mut image = image_with_page(7);
    image.trap_cx.x[10] = 5;
    image.trap_cx.sepc = 0x2000;
    assert_eq!(sys_exec(&mut k, Some(image), 0), 0);
    assert_eq!(k.current_trap_cx().x[10], 5);
    assert_eq!(sys_fork(&mut k), 1);
    assert_eq!(k.task_parent(1), Some(0));
    assert_eq!(k.task_children(0).clone(), vec![1]);
    assert_eq!(k.task_status(1), TaskStatus::Ready);
    assert_eq!(k.ready_len(), 1);
    assert_eq!(k.next_pid(), 2);
    // the child runs with a copy of the parent's address space and table
    assert_eq!(sys_yield(&mut k), 0);
    assert_eq!(sys_getpid(&k), 1);
    assert!(k.current_find_vpn(7));
    assert_eq!(k.current_fd_table_len(), 3);
    // fork returns 0 to the child, which resumes where the parent trapped
    assert_eq!(k.current_trap_cx().x[10], 0);
    assert_eq!(k.current_trap_cx().sepc, 0x2000);
    assert_eq!(sys_yield(&mut k), 0);
    assert_eq!(sys_getpid(&k), 0);
    assert_eq!(k.current_trap_cx().x[10], 5);
}

#[test]
fn yield_runs_ready_tasks_in_fifo_order() {
    let mut k = booted();
    assert_eq!(sys_fork(&mut k), 1);
    assert_eq!(sys_fork(&mut k), 2);
    assert_eq!(sys_yield(&mut k), 0);
    assert_eq!(k.current_pid(), Some(1));
    assert_eq!(k.task_status(0), TaskStatus::Ready);
    assert_eq!(sys_yield(&mut k), 0);
    assert_eq!(k.current_pid(), Some(2));
    suspend_current_and_run_next(&mut k);
    assert_eq!(k.current_pid(), Some(0));
    assert_eq!(k.task_status(2), TaskStatus::Ready);
}

#[test]
fn yield_alone_runs_the_same_task_again() {
    let mut k = booted();
    assert_eq!(sys_yield(&mut k), 0);
    assert_eq!(k.current_pid(), Some(0));
    assert_eq!(k.ready_len(), 0);
}

#[test]
fn waitpid_reports_missing_running_and_exited_children() {
    let mut k = booted();
    assert_eq!(sys_waitpid(&mut k, -1), (-1, None));
    assert_eq!(sys_fork(&mut k), 1);
    assert_eq!(sys_waitpid(&mut k, 5), (-1, None));
    assert_eq!(sys_waitpid(&mut k, -7), (-1, None));
    assert_eq!(sys_waitpid(&mut k, -1), (-2, None));
    assert_eq!(sys_waitpid(&mut k, 1), (-2, None));
    assert_eq!(sys_yield(&mut k), 0);
    assert_eq!(k.current_pid(), Some(1));
    sys_exit(&mut k, 7);
    assert_eq!(k.task_status(1), TaskStatus::Exited);
    assert_eq!(k.task_exit_code(1), 7);
    assert_eq!(k.current_pid(), Some(0));
    assert_eq!(sys_waitpid(&mut k, 1), (1, Some(7)));
    assert!(!k.has_task(1));
    assert!(k.task_children(0).is_empty());
    assert_eq!(sys_waitpid(&mut k, -1), (-1, None));
}

#[test]
fn waitpid_collects_the_first_exited_child() {
    let mut k = booted();
    assert_eq!(sys_fork(&mut k), 1);
    assert_eq!(sys_fork(&mut k), 2);
    assert_eq!(sys_fork(&mut k), 3);
    // run 1, 2, 3 in turn; 2 and 3 exit, 1 yields
    assert_eq!(sys_yield(&mut k), 0);
    assert_eq!(k.current_pid(), Some(1));
    assert_eq!(sys_yield(&mut k), 0);
    assert_eq!(k.current_pid(), Some(2));
    sys_exit(&mut k, 20);
    assert_eq!(k.current_pid(), Some(3));
    sys_exit(&mut k, 30);
    assert_eq!(k.current_pid(), Some(0));
    assert_eq!(sys_waitpid(&mut k, 3), (3, Some(30)));
    assert_eq!(sys_waitpid(&mut k, 1), (-2, None));
    assert_eq!(sys_waitpid(&mut k, -1), (2, Some(20)));
    assert_eq!(k.task_children(0).clone(), vec![1]);
}

#[test]
fn exit_hands_children_to_initproc() {
    let mut k = booted();
    assert_eq!(sys_fork(&mut k), 1);
    assert_eq!(sys_yield(&mut k), 0);
    assert_eq!(k.current_pid(), Some(1));
    assert_eq!(sys_fork(&mut k), 2);
    assert_eq!(k.task_parent(2), Some(1));
    exit_current_and_run_next(&mut k, 3);
    assert_eq!(k.current_pid(), Some(0));
    assert_eq!(k.task_parent(2), Some(0));
    assert_eq!(k.task_children(0).clone(), vec![1, 2]);
    assert!(k.task_children(1).is_empty());
    assert_eq!(sys_waitpid(&mut k, -1), (1, Some(3)));
    assert_eq!(k.task_children(0).clone(), vec![2]);
}

#[test]
fn exit_releases_the_address_space() {
    let mut k = booted();
    assert_eq!(sys_fork(&mut k), 1);
    assert_eq!(sys_yield(&mut k), 0);
    assert_eq!(sys_exec(&mut k, Some(image_with_page(4)), 1), 1);
    assert!(k.current_find_vpn(4));
    sys_exit(&mut k, -1);
    assert_eq!(k.task_exit_code(1), -1);
    assert_eq!(sys_waitpid(&mut k, 1), (1, Some(-1)));
}

#[test]
fn exec_replaces_the_address_space_or_fails() {
    let mut k = booted();
    assert_eq!(sys_exec(&mut k, None, 2), -1);
    assert!(!k.current_find_vpn(9));
    assert_eq!(sys_exec(&mut k, Some(image_with_page(9)), 2), 2);
    assert!(k.current_find_vpn(9));
    assert_eq!(sys_exec(&mut k, Some(app_image(MemorySet::new_bare())), 0), 0);
    assert!(!k.current_find_vpn(9));
}

#[test]
fn spawn_starts_a_child_with_a_fresh_table() {
    let mut k = booted();
    assert_eq!(sys_spawn(&mut k, None), -1);
    assert_eq!(k.next_pid(), 1);
    assert_eq!(sys_spawn(&mut k, Some(image_with_page(3))), 1);
    assert_eq!(k.task_parent(1), Some(0));
    assert_eq!(sys_yield(&mut k), 0);
    assert_eq!(sys_getpid(&k), 1);
    assert_eq!(k.current_fd_table_len(), 3);
    assert!(k.current_find_vpn(3));
}
