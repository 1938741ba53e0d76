//! File-system system calls: what the kernel decides about descriptors.
//!
//! Reading, writing, opening, linking and stat-ing the file objects is done
//! by the host; these functions check the descriptor arguments against the
//! running task's table, maintain the table, and tell the host which file
//! object to work on.
use vstd::prelude::*;
use crate::task::fd_table::{FileDesc, file_at, install_at, is_lowest_free_fd};
use crate::task::manager::Kernel;
use crate::task::state::KernelView;

verus! {

/// The file open at `fd` in the running task, if it may be written.
pub open spec fn writable_file(v: KernelView, fd: int) -> Option<FileDesc> {
    let f = file_at(v.cur().fd_table, fd);
    if f is Some && f->0.writable {
        f
    } else {
        None
    }
}

/// The file open at `fd` in the running task, if it may be read.
pub open spec fn readable_file(v: KernelView, fd: int) -> Option<FileDesc> {
    let f = file_at(v.cur().fd_table, fd);
    if f is Some && f->0.readable {
        f
    } else {
        None
    }
}

/// `write`: the file object the host is to write the user buffer to, or
/// -1 when `fd` is not an open, writable descriptor of the running task.
pub fn sys_write(kernel: &Kernel, fd: usize) -> (r: Result<FileDesc, isize>)
    requires
        kernel.wf(),
        kernel@.current is Some,
    ensures
        r == match writable_file(kernel@, fd as int) {
            Some(f) => Ok::<FileDesc, isize>(f),
            None => Err(-1isize),
        },
        forall|f: FileDesc|
            (0 <= fd < kernel@.cur().fd_table.len() && kernel@.cur().fd_table[fd as int] == Some(f)
                && f.writable) ==> r == Ok::<FileDesc, isize>(f),
        !(0 <= fd < kernel@.cur().fd_table.len() && kernel@.cur().fd_table[fd as int] is Some
            && kernel@.cur().fd_table[fd as int]->0.writable) ==> r == Err::<FileDesc, isize>(-1isize),
{
    if fd >= kernel.current_fd_table_len() {
        return Err(-1);
    }
    match kernel.current_fd(fd) {
        Some(file) => {
            if !file.writable {
                return Err(-1);
            }
            Ok(file)
        },
        None => Err(-1),
    }
}

/// `read` hands out exactly the files open for reading: a descriptor that
/// is a slot of the running task's table holding a readable file yields that
/// file, whatever else the file allows; any other descriptor is refused.
pub proof fn lemma_read_grants_readable_files(v: KernelView, fd: int)
    ensures
        forall|f: FileDesc|
            0 <= fd < v.cur().fd_table.len() && v.cur().fd_table[fd] == Some(f) && f.readable
                ==> readable_file(v, fd) == Some(f),
        !(0 <= fd < v.cur().fd_table.len() && v.cur().fd_table[fd] is Some
            && v.cur().fd_table[fd]->0.readable) ==> readable_file(v, fd) is None,
{
}

/// `write` hands out exactly the files open for writing: a descriptor that
/// is a slot of the running task's table holding a writable file yields that
/// file, whatever else the file allows; any other descriptor is refused.
pub proof fn lemma_write_grants_writable_files(v: KernelView, fd: int)
    ensures
        forall|f: FileDesc|
            0 <= fd < v.cur().fd_table.len() && v.cur().fd_table[fd] == Some(f) && f.writable
                ==> writable_file(v, fd) == Some(f),
        !(0 <= fd < v.cur().fd_table.len() && v.cur().fd_table[fd] is Some
            && v.cur().fd_table[fd]->0.writable) ==> writable_file(v, fd) is None,
{
}

/// `read`: the file object the host is to read into the user buffer from,
/// or -1 when `fd` is not an open, readable descriptor of the running task.
pub fn sys_read(kernel: &Kernel, fd: usize) -> (r: Result<FileDesc, isize>)
    requires
        kernel.wf(),
        kernel@.current is Some,
    ensures
        r == match readable_file(kernel@, fd as int) {
            Some(f) => Ok::<FileDesc, isize>(f),
            None => Err(-1isize),
        },
        forall|f: FileDesc|
            (0 <= fd < kernel@.cur().fd_table.len() && kernel@.cur().fd_table[fd as int] == Some(f)
                && f.readable) ==> r == Ok::<FileDesc, isize>(f),
        !(0 <= fd < kernel@.cur().fd_table.len() && kernel@.cur().fd_table[fd as int] is Some
            && kernel@.cur().fd_table[fd as int]->0.readable) ==> r == Err::<FileDesc, isize>(-1isize),
{
    if fd >= kernel.current_fd_table_len() {
        return Err(-1);
    }
    match kernel.current_fd(fd) {
        Some(file) => {
            if !file.readable {
                return Err(-1);
            }
            Ok(file)
        },
        None => Err(-1),
    }
}

/// The running task's descriptor table becomes `t`.
pub open spec fn with_fds(v: KernelView, t: Seq<Option<FileDesc>>) -> KernelView {
    v.with_current(v.cur().with_fd_table(t))
}

/// `open`, once the host has looked the path up: `opened` is the file it
/// opened, or `None` when there is none. An opened file is installed at the
/// lowest free descriptor, which is returned; otherwise -1.
pub fn sys_open(kernel: &mut Kernel, opened: Option<FileDesc>) -> (r: isize)
    requires
        old(kernel).wf(),
        old(kernel)@.current is Some,
        opened is Some ==> old(kernel)@.cur().fd_table.len() < isize::MAX,
    ensures
        final(kernel).wf(),
        match opened {
            Some(f) => {
                &&& is_lowest_free_fd(old(kernel)@.cur().fd_table, r as int)
                &&& final(kernel)@ == with_fds(
                    old(kernel)@,
                    install_at(old(kernel)@.cur().fd_table, r as int, Some(f)),
                )
            },
            None => r == -1 && final(kernel)@ == old(kernel)@,
        },
{
    match opened {
        Some(inode) => {
            let ghost o = old(kernel)@;
            let fd = kernel.alloc_current_fd();
            let ghost mid = kernel@;
            kernel.set_current_fd(fd, Some(inode));
            proof {
                lemma_alloc_then_set(o, mid, kernel@, fd as int, Some(inode));
            }
            fd as isize
        },
        None => -1,
    }
}

/// Allocating a descriptor and filling it installs the file at the lowest
/// free descriptor.
proof fn lemma_alloc_then_set(
    o: KernelView,
    mid: KernelView,
    n: KernelView,
    fd: int,
    f: Option<FileDesc>,
)
    requires
        o.current is Some,
        mid == o.with_current(o.cur().with_fd_table(mid.cur().fd_table)),
        crate::task::fd_table::alloc_fd_post(o.cur().fd_table, mid.cur().fd_table, fd),
        0 <= fd < mid.cur().fd_table.len(),
        n == mid.with_current(mid.cur().with_fd_table(mid.cur().fd_table.update(fd, f))),
    ensures
        n == with_fds(o, install_at(o.cur().fd_table, fd, f)),
{
    crate::task::state::lemma_with_current_twice(
        o,
        o.cur().with_fd_table(mid.cur().fd_table),
        mid.cur().with_fd_table(mid.cur().fd_table.update(fd, f)),
    );
    assert(mid.cur().with_fd_table(mid.cur().fd_table.update(fd, f))
        == o.cur().with_fd_table(install_at(o.cur().fd_table, fd, f))) by {
        if fd < o.cur().fd_table.len() {
        } else {
            assert(mid.cur().fd_table.update(fd, f) =~= o.cur().fd_table.push(f));
        }
    }
}

/// `close`: frees descriptor `fd` of the running task and returns 0, or
/// returns -1, changing nothing, when `fd` is not an open descriptor.
pub fn sys_close(kernel: &mut Kernel, fd: usize) -> (r: isize)
    requires
        old(kernel).wf(),
        old(kernel)@.current is Some,
    ensures
        final(kernel).wf(),
        file_at(old(kernel)@.cur().fd_table, fd as int) is None ==> r == -1 && final(kernel)@ == old(
            kernel,
        )@,
        file_at(old(kernel)@.cur().fd_table, fd as int) is Some ==> r == 0 && final(kernel)@
            == with_fds(old(kernel)@, old(kernel)@.cur().fd_table.update(fd as int, None)),
{
    if fd >= kernel.current_fd_table_len() {
        return -1;
    }
    if kernel.current_fd(fd).is_none() {
        return -1;
    }
    kernel.set_current_fd(fd, None);
    0
}

/// `pipe`, once the host has made the pipe's two ends: installs the read
/// end at the lowest free descriptor, then the write end at the lowest free
/// descriptor after that, and returns the two descriptors (which the host
/// stores in the user's array).
pub fn sys_pipe(kernel: &mut Kernel, pipe_read: FileDesc, pipe_write: FileDesc) -> (r: (usize, usize))
    requires
        old(kernel).wf(),
        old(kernel)@.current is Some,
        old(kernel)@.cur().fd_table.len() + 2 < isize::MAX,
    ensures
        final(kernel).wf(),
        ({
            let t0 = old(kernel)@.cur().fd_table;
            let t1 = install_at(t0, r.0 as int, Some(pipe_read));
            &&& is_lowest_free_fd(t0, r.0 as int)
            &&& is_lowest_free_fd(t1, r.1 as int)
            &&& final(kernel)@ == with_fds(old(kernel)@, install_at(t1, r.1 as int, Some(pipe_write)))
        }),
{
    let ghost o = old(kernel)@;
    let read_fd = kernel.alloc_current_fd();
    let ghost m1 = kernel@;
    kernel.set_current_fd(read_fd, Some(pipe_read));
    proof {
        lemma_alloc_then_set(o, m1, kernel@, read_fd as int, Some(pipe_read));
    }
    let ghost o2 = kernel@;
    let write_fd = kernel.alloc_current_fd();
    let ghost m2 = kernel@;
    kernel.set_current_fd(write_fd, Some(pipe_write));
    proof {
        lemma_alloc_then_set(o2, m2, kernel@, write_fd as int, Some(pipe_write));
        let t1 = install_at(o.cur().fd_table, read_fd as int, Some(pipe_read));
        crate::task::state::lemma_with_current_twice(
            o,
            o.cur().with_fd_table(t1),
            o2.cur().with_fd_table(install_at(t1, write_fd as int, Some(pipe_write))),
        );
    }
    (read_fd, write_fd)
}

/// `dup`: installs the file open at `fd` at the lowest free descriptor as
/// well and returns that descriptor, or returns -1, changing nothing, when
/// `fd` is not an open descriptor.
pub fn sys_dup(kernel: &mut Kernel, fd: usize) -> (r: isize)
    requires
        old(kernel).wf(),
        old(kernel)@.current is Some,
        file_at(old(kernel)@.cur().fd_table, fd as int) is Some ==> old(kernel)@.cur().fd_table.len()
            < isize::MAX,
    ensures
        final(kernel).wf(),
        file_at(old(kernel)@.cur().fd_table, fd as int) is None ==> r == -1 && final(kernel)@ == old(
            kernel,
        )@,
        file_at(old(kernel)@.cur().fd_table, fd as int) is Some ==> {
            &&& is_lowest_free_fd(old(kernel)@.cur().fd_table, r as int)
            &&& final(kernel)@ == with_fds(
                old(kernel)@,
                install_at(
                    old(kernel)@.cur().fd_table,
                    r as int,
                    file_at(old(kernel)@.cur().fd_table, fd as int),
                ),
            )
        },
{
    if fd >= kernel.current_fd_table_len() {
        return -1;
    }
    let file = kernel.current_fd(fd);
    if file.is_none() {
        return -1;
    }
    let ghost o = old(kernel)@;
    let new_fd = kernel.alloc_current_fd();
    let ghost mid = kernel@;
    kernel.set_current_fd(new_fd, file);
    proof {
        lemma_alloc_then_set(o, mid, kernel@, new_fd as int, file);
    }
    new_fd as isize
}

/// `linkat`, once the host has tried to link the two paths: 0 when it
/// linked them, -1 otherwise.
pub fn sys_link_at(linked: bool) -> (r: isize)
    ensures
        r == (if linked { 0isize } else { -1isize }),
{
    if linked == false {
        return -1;
    }
    0
}

/// `unlinkat`, once the host has tried to unlink the path: 0 when it
/// unlinked it, -1 otherwise.
pub fn sys_unlink_at(unlinked: bool) -> (r: isize)
    ensures
        r == (if unlinked { 0isize } else { -1isize }),
{
    if unlinked == false {
        return -1;
    }
    0
}

/// `fstat`: the file object whose status the host is to report, or -1
/// when descriptor `fd`, a slot of the running task's table, is free.
pub fn sys_fstat(kernel: &Kernel, fd: usize) -> (r: Result<FileDesc, isize>)
    requires
        kernel.wf(),
        kernel@.current is Some,
        fd < kernel@.cur().fd_table.len(),
    ensures
        r == match kernel@.cur().fd_table[fd as int] {
            Some(f) => Ok::<FileDesc, isize>(f),
            None => Err(-1isize),
        },
{
    match kernel.current_fd(fd) {
        Some(osinode) => Ok(osinode),
        None => Err(-1),
    }
}

} // verus!
