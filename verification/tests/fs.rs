use rcore_kernel::syscall::fs::{
    sys_close, sys_dup, sys_fstat, sys_link_at, sys_open, sys_pipe, sys_read, sys_unlink_at,
    sys_write,
};
use rcore_kernel::syscall::process::sys_fork;
use rcore_kernel::task::add_initproc;
use rcore_kernel::task::fd_table::{alloc_fd, copy_fd_table, new_std_fd_table, stdin, stdout, FileDesc};
use rcore_kernel::task::manager::Kernel;
use rcore_kernel::task::task::AppImage;
use rcore_kernel::trap::TrapContext;
use rcore_kernel::task::memory_set::MemorySet;

fn app_image(memory_set: MemorySet) -> AppImage {
    AppImage { memory_set, trap_cx: TrapContext { x: [0; 32], sstatus: 0, sepc: 0x1000 } }
}

fn booted() -> Kernel {
    let mut k = Kernel::new(app_image(MemorySet::new_bare()));
    add_initproc(&mut k);
    assert_eq!(k.run_next_task(), Some(0));
    k
}

fn file(id: usize) -> FileDesc {
    FileDesc { id, readable: true, writable: true }
}

#[test]
fn standard_table_holds_console() {
    let t = new_std_fd_table();
    assert_eq!(t, vec![Some(stdin()), Some(stdout()), Some(stdout())]);
    assert_eq!(stdin(), FileDesc { id: 0, readable: true, writable: false });
    assert_eq!(stdout(), FileDesc { id: 1, readable: false, writable: true });
    assert_eq!(copy_fd_table(&t), t);
}

#[test]
fn alloc_fd_takes_lowest_free_slot() {
    let mut t = vec![Some(file(1)), None, Some(file(2)), None];
    assert_eq!(alloc_fd(&mut t), 1);
    assert_eq!(t.len(), 4);
    t[1] = Some(file(3));
    assert_eq!(alloc_fd(&mut t), 3);
    t[3] = Some(file(4));
    assert_eq!(alloc_fd(&mut t), 4);
    assert_eq!(t.len(), 5);
    assert_eq!(t[4], None);
    let mut empty: Vec<Option<FileDesc>> = Vec::new();
    assert_eq!(alloc_fd(&mut empty), 0);
    assert_eq!(empty, vec![None]);
}

#[test]
fn write_and_read_check_descriptor_and_mode() {
    let k = booted();
    assert_eq!(sys_write(&k, 1), Ok(stdout()));
    assert_eq!(sys_write(&k, 2), Ok(stdout()));
    assert_eq!(sys_write(&k, 0), Err(-1));
    assert_eq!(sys_write(&k, 3), Err(-1));
    assert_eq!(sys_read(&k, 0), Ok(stdin()));
    assert_eq!(sys_read(&k, 1), Err(-1));
    assert_eq!(sys_read(&k, 99), Err(-1));
}

#[test]
fn write_to_closed_descriptor_fails() {
    let mut k = booted();
    assert_eq!(sys_close(&mut k, 1), 0);
    assert_eq!(sys_write(&k, 1), Err(-1));
    assert_eq!(sys_close(&mut k, 0), 0);
    assert_eq!(sys_read(&k, 0), Err(-1));
}

#[test]
fn open_installs_at_lowest_free_descriptor() {
    let mut k = booted();
    assert_eq!(sys_open(&mut k, None), -1);
    assert_eq!(k.current_fd_table_len(), 3);
    assert_eq!(sys_open(&mut k, Some(file(10))), 3);
    assert_eq!(k.current_fd(3), Some(file(10)));
    assert_eq!(sys_close(&mut k, 1), 0);
    assert_eq!(sys_open(&mut k, Some(file(11))), 1);
    assert_eq!(k.current_fd(1), Some(file(11)));
    assert_eq!(k.current_fd_table_len(), 4);
}

#[test]
fn close_frees_an_open_descriptor_only() {
    let mut k = booted();
    assert_eq!(sys_close(&mut k, 2), 0);
    assert_eq!(k.current_fd(2), None);
    assert_eq!(sys_close(&mut k, 2), -1);
    assert_eq!(sys_close(&mut k, 100), -1);
    assert_eq!(k.current_fd_table_len(), 3);
}

#[test]
fn close_after_open_restores_the_table() {
    let mut k = booted();
    assert_eq!(sys_close(&mut k, 1), 0);
    assert_eq!(sys_open(&mut k, Some(file(12))), 1);
    assert_eq!(sys_close(&mut k, 1), 0);
    assert_eq!(k.current_fd(0), Some(stdin()));
    assert_eq!(k.current_fd(1), None);
    assert_eq!(k.current_fd(2), Some(stdout()));
    // a table that had to grow keeps one free slot at its end
    assert_eq!(sys_open(&mut k, Some(file(13))), 1);
    assert_eq!(sys_open(&mut k, Some(file(14))), 3);
    assert_eq!(sys_close(&mut k, 3), 0);
    assert_eq!(k.current_fd_table_len(), 4);
    assert_eq!(k.current_fd(3), None);
}

#[test]
fn dup_shares_the_open_file() {
    let mut k = booted();
    assert_eq!(sys_dup(&mut k, 0), 3);
    assert_eq!(k.current_fd(3), Some(stdin()));
    assert_eq!(k.current_fd(0), Some(stdin()));
    assert_eq!(sys_dup(&mut k, 50), -1);
    assert_eq!(sys_close(&mut k, 2), 0);
    assert_eq!(sys_dup(&mut k, 2), -1);
    assert_eq!(sys_dup(&mut k, 1), 2);
    assert_eq!(k.current_fd(2), Some(stdout()));
    assert_eq!(k.current_fd_table_len(), 4);
}

#[test]
fn pipe_installs_both_ends_at_lowest_free_descriptors() {
    let mut k = booted();
    let r = FileDesc { id: 20, readable: true, writable: false };
    let w = FileDesc { id: 21, readable: false, writable: true };
    assert_eq!(sys_pipe(&mut k, r, w), (3, 4));
    assert_eq!(sys_read(&k, 3), Ok(r));
    assert_eq!(sys_write(&k, 4), Ok(w));
    assert_eq!(sys_write(&k, 3), Err(-1));
    assert_eq!(sys_close(&mut k, 3), 0);
    assert_eq!(sys_close(&mut k, 0), 0);
    assert_eq!(sys_pipe(&mut k, r, w), (0, 3));
}

#[test]
fn fstat_reports_the_open_file() {
    let mut k = booted();
    assert_eq!(sys_fstat(&k, 0), Ok(stdin()));
    assert_eq!(sys_close(&mut k, 2), 0);
    assert_eq!(sys_fstat(&k, 2), Err(-1));
}

#[test]
fn link_and_unlink_report_the_file_system_outcome() {
    assert_eq!(sys_link_at(true), 0);
    assert_eq!(sys_link_at(false), -1);
    assert_eq!(sys_unlink_at(true), 0);
    assert_eq!(sys_unlink_at(false), -1);
}

#[test]
fn forked_child_shares_parent_descriptors() {
    let mut k = booted();
    assert_eq!(sys_open(&mut k, Some(file(30))), 3);
    assert_eq!(sys_fork(&mut k), 1);
    k.suspend_current();
    assert_eq!(k.run_next_task(), Some(1));
    assert_eq!(k.current_fd(3), Some(file(30)));
    assert_eq!(k.current_fd_table_len(), 4);
}
