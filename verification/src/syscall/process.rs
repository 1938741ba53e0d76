//! Process system calls.
use vstd::prelude::*;
use crate::config::PAGE_SIZE;
use crate::task::{
    suspend_current_and_run_next, exit_current_and_run_next, mmap, munmap, mmap_post, munmap_post,
};
use crate::task::fd_table::std_fd_table;
use crate::task::manager::Kernel;
use crate::task::state::{KernelView, TaskView, INITPROC_PID, lemma_exited_wf};
use crate::task::memory_set::{floor_vpn, ceil_vpn};
use crate::task::task::{AppImage, TaskStatus};
use crate::trap::with_a0;

verus! {

/// A point in time, split into seconds and microseconds.
#[derive(Debug)]
pub struct TimeVal {
    /// Whole seconds.
    pub sec: usize,
    /// Microseconds past `sec`.
    pub usec: usize,
}

/// `exit`: the running task, which is not the initial process, exits with
/// `exit_code`, and the first ready task runs. The call does not return to
/// the exited task.
pub fn sys_exit(kernel: &mut Kernel, exit_code: i32)
    requires
        old(kernel).wf(),
        old(kernel)@.current is Some,
        old(kernel)@.current->0 != INITPROC_PID,
    ensures
        final(kernel).wf(),
        final(kernel)@ == old(kernel)@.exited(exit_code).run_next(),
{
    exit_current_and_run_next(kernel, exit_code);
}

/// `yield`: the running task goes to the end of the ready queue and the
/// first ready task runs; the call returns 0 to the task when it runs again.
pub fn sys_yield(kernel: &mut Kernel) -> (r: isize)
    requires
        old(kernel).wf(),
        old(kernel)@.current is Some,
    ensures
        final(kernel).wf(),
        final(kernel)@ == old(kernel)@.suspended().run_next(),
        r == 0,
{
    suspend_current_and_run_next(kernel);
    0
}

/// `getpid`: the running task's process identifier.
pub fn sys_getpid(kernel: &Kernel) -> (r: isize)
    requires
        kernel.wf(),
        kernel@.current is Some,
    ensures
        r == kernel@.current->0,
{
    kernel.current_pid().unwrap() as isize
}

/// `fork`: the running task gets a child with copies of its descriptor
/// table, address space and user context, to which the call returns 0;
/// returns the child's identifier to the running task.
pub fn sys_fork(kernel: &mut Kernel) -> (r: isize)
    requires
        old(kernel).wf(),
        old(kernel)@.current is Some,
        old(kernel)@.next_pid + 1 < isize::MAX,
    ensures
        final(kernel).wf(),
        r == old(kernel)@.next_pid,
        final(kernel)@ == old(kernel)@.with_child(
            TaskView::fresh(
                old(kernel)@.next_pid,
                old(kernel)@.current,
                old(kernel)@.cur().fd_table,
                old(kernel)@.cur().memory,
                with_a0(old(kernel)@.cur().trap_cx, 0),
            ),
        ),
{
    let new_pid = kernel.fork();
    new_pid as isize
}

/// `exec`, once the host has read the program and its `argc` arguments:
/// `image` is the program loaded with its arguments, or `None` when there
/// is no such program. The running task's address space and user context
/// are replaced and `argc` returned; otherwise -1.
pub fn sys_exec(kernel: &mut Kernel, image: Option<AppImage>, argc: usize) -> (r: isize)
    requires
        old(kernel).wf(),
        old(kernel)@.current is Some,
        argc <= isize::MAX,
    ensures
        final(kernel).wf(),
        match image {
            Some(app) => r == argc && final(kernel)@ == old(kernel)@.with_current(
                old(kernel)@.cur().with_image(app.memory_set@, app.trap_cx),
            ),
            None => r == -1 && final(kernel)@ == old(kernel)@,
        },
{
    match image {
        Some(app) => {
            kernel.exec_current(app);
            argc as isize
        },
        None => -1,
    }
}

/// Whether a child with identifier `child` answers `waitpid`'s `pid`: any
/// child when `pid` is -1, else the child with that identifier.
pub open spec fn pid_matches(pid: isize, child: usize) -> bool {
    pid == -1 || pid == child
}

/// Whether the child at position `i` of the running task's children
/// answers `pid` and has exited.
pub open spec fn reapable_at(v: KernelView, pid: isize, i: int) -> bool {
    &&& pid_matches(pid, v.cur().children[i])
    &&& v.procs[v.cur().children[i]].status == TaskStatus::Exited
}

/// `waitpid`: returns -1 when no child of the running task answers `pid`,
/// -2 when some do but none has exited; otherwise collects the first such
/// exited child in the order of the children, and returns its identifier
/// and its exit code (which the host stores for the user).
pub fn sys_waitpid(kernel: &mut Kernel, pid: isize) -> (r: (isize, Option<i32>))
    requires
        old(kernel).wf(),
        old(kernel)@.current is Some,
    ensures
        final(kernel).wf(),
        ({
            let o = old(kernel)@;
            let kids = o.cur().children;
            if !(exists|i: int| 0 <= i < kids.len() && pid_matches(pid, #[trigger] kids[i])) {
                r == (-1isize, None::<i32>) && final(kernel)@ == o
            } else if !(exists|i: int| 0 <= i < kids.len() && #[trigger] reapable_at(o, pid, i)) {
                r == (-2isize, None::<i32>) && final(kernel)@ == o
            } else {
                exists|i: int|
                    0 <= i < kids.len() && #[trigger] reapable_at(o, pid, i) && (forall|j: int|
                        0 <= j < i ==> !reapable_at(o, pid, j)) && final(kernel)@ == o.reaped(i)
                        && r == (kids[i] as isize, Some(o.procs[kids[i]].exit_code))
            }
        }),
{
    let ghost o = old(kernel)@;
    let children = kernel.current_children();
    let mut i: usize = 0;
    let mut found = false;
    while i < children.len() && !found
        invariant
            kernel.wf(),
            kernel@ == o,
            o.current is Some,
            children@ == o.cur().children,
            i <= children@.len(),
            !found ==> forall|j: int| 0 <= j < i ==> !pid_matches(pid, #[trigger] children@[j]),
            found ==> exists|j: int| 0 <= j < children@.len() && pid_matches(pid, #[trigger] children@[j]),
        decreases children@.len() - i + (if found { 0int } else { 1int }),
    {
        let child = children[i];
        if pid == -1 || (pid >= 0 && pid as usize == child) {
            found = true;
            proof {
                assert(pid_matches(pid, children@[i as int]));
            }
        } else {
            i = i + 1;
        }
    }
    if !found {
        return (-1, None);
    }
    proof {
        assert forall|j: int| 0 <= j < children@.len() implies o.procs.contains_key(#[trigger] children@[j]) by {
            assert(o.procs.contains_key(o.procs[o.current->0].children[j]));
        }
    }
    let mut k: usize = 0;
    let mut target: Option<usize> = None;
    while k < children.len() && target.is_none()
        invariant
            kernel.wf(),
            kernel@ == o,
            o.current is Some,
            children@ == o.cur().children,
            forall|j: int| 0 <= j < children@.len() ==> o.procs.contains_key(#[trigger] children@[j]),
            k <= children@.len(),
            target is None ==> forall|j: int| 0 <= j < k ==> !#[trigger] reapable_at(o, pid, j),
            target matches Some(t) ==> t < children@.len() && reapable_at(o, pid, t as int)
                && forall|j: int| 0 <= j < t ==> !#[trigger] reapable_at(o, pid, j),
        decreases children@.len() - k + (if target is None { 1int } else { 0int }),
    {
        let child = children[k];
        if (pid == -1 || (pid >= 0 && pid as usize == child))
            && kernel.task_status(child) == TaskStatus::Exited {
            target = Some(k);
        } else {
            k = k + 1;
        }
    }
    match target {
        Some(t) => {
            let (found_pid, exit_code) = kernel.reap_child(t);
            proof {
                assert(reapable_at(o, pid, t as int));
            }
            (found_pid as isize, Some(exit_code))
        },
        None => (-2, None),
    }
}

/// The exit code a task exits with is what its parent collects: when the
/// task that runs after the exit is the exited task's parent, its `waitpid`
/// for the exited task finds it collectable, and the only collectable child
/// answering that identifier is the exited task, holding that exit code.
pub proof fn lemma_wait_collects_exit_code(o: KernelView, exit_code: i32)
    requires
        o.wf(),
        o.current is Some,
        o.current->0 != INITPROC_PID,
        o.exited(exit_code).run_next().current == o.cur().parent,
    ensures
        ({
            let c = o.current->0;
            let e = o.exited(exit_code).run_next();
            &&& exists|i: int| 0 <= i < e.cur().children.len() && #[trigger] reapable_at(e, c as isize, i)
            &&& forall|i: int|
                0 <= i < e.cur().children.len() && #[trigger] reapable_at(e, c as isize, i)
                    ==> e.cur().children[i] == c
            &&& e.procs[c].exit_code == exit_code
        }),
{
    let c = o.current->0;
    let x = o.exited(exit_code);
    let e = x.run_next();
    lemma_exited_wf(o, exit_code);
    let q = o.procs[c].parent->0;
    assert(o.procs.contains_key(c));
    assert(o.procs[q].children.contains(c));
    assert(x.ready.len() > 0);
    assert(x.ready[0] == q);
    assert(q != c);
    assert(e.procs[q].children == x.procs[q].children);
    assert(x.procs[q].children.contains(c)) by {
        let j = choose|j: int| 0 <= j < o.procs[q].children.len() && o.procs[q].children[j] == c;
        if q == INITPROC_PID {
            assert((o.procs[q].children + o.procs[c].children)[j] == c);
        }
    }
    let j = choose|j: int| 0 <= j < x.procs[q].children.len() && x.procs[q].children[j] == c;
    assert(e.cur().children[j] == c);
    assert(e.procs[c].status == TaskStatus::Exited);
    assert(reapable_at(e, c as isize, j));
}

/// A child answers `waitpid`'s `pid` exactly when `pid` is -1 or names it;
/// a negative `pid` other than -1 names no child.
pub proof fn lemma_pid_matches_meaning(pid: isize, child: usize)
    requires
        child < isize::MAX,
    ensures
        pid_matches(pid, child) <==> (pid == -1 || (pid >= 0 && pid as usize == child)),
        pid < -1 ==> !pid_matches(pid, child),
{
}

/// A child is collectable by `waitpid(pid)` exactly when it answers `pid`
/// and has exited; a child that is ready, running or not yet scheduled is
/// never collected.
pub proof fn lemma_reapable_means_exited(v: KernelView, pid: isize, i: int)
    ensures
        reapable_at(v, pid, i) <==> ((pid == -1 || pid == v.cur().children[i])
            && v.procs[v.cur().children[i]].status == TaskStatus::Exited),
        v.procs[v.cur().children[i]].status != TaskStatus::Exited ==> !reapable_at(v, pid, i),
{
}

/// `get_time`: the time `us` microseconds since boot, split into seconds
/// and microseconds (which the host stores for the user; the call returns
/// 0).
pub fn sys_get_time(us: usize) -> (tv: TimeVal)
    ensures
        tv.sec == us / 1_000_000,
        tv.usec == us % 1_000_000,
        tv.sec * 1_000_000 + tv.usec == us,
        tv.usec < 1_000_000,
{
    TimeVal { sec: us / 1_000_000, usec: us % 1_000_000 }
}

/// `spawn`, once the host has looked the program up: `image` is the program
/// loaded, or `None` when there is no such program. The running task gets a
/// child that runs it, with the standard descriptor table; returns the
/// child's identifier, or -1.
pub fn sys_spawn(kernel: &mut Kernel, image: Option<AppImage>) -> (r: isize)
    requires
        old(kernel).wf(),
        old(kernel)@.current is Some,
        image is Some ==> old(kernel)@.next_pid + 1 < isize::MAX,
    ensures
        final(kernel).wf(),
        match image {
            Some(app) => r == old(kernel)@.next_pid && final(kernel)@ == old(kernel)@.with_child(
                TaskView::fresh(
                    old(kernel)@.next_pid,
                    old(kernel)@.current,
                    std_fd_table(),
                    app.memory_set@,
                    app.trap_cx,
                ),
            ),
            None => r == -1 && final(kernel)@ == old(kernel)@,
        },
{
    match image {
        Some(data) => {
            let pid = kernel.spawn(data);
            pid as isize
        },
        None => -1,
    }
}

/// Largest length `mmap` and `munmap` accept.
pub const MAX_MAP_SIZE: usize = 0x4000_0000;

/// `len` rounded up to a whole number of pages.
pub open spec fn page_round_up(len: int) -> int {
    (len + PAGE_SIZE - 1) / (PAGE_SIZE as int) * (PAGE_SIZE as int)
}

/// Whether `mmap`'s arguments pass its checks: a length of at most
/// `MAX_MAP_SIZE`, a page-aligned start and protection bits in 1..=7.
pub open spec fn mmap_args_ok(start: usize, len: usize, port: usize) -> bool {
    &&& len <= MAX_MAP_SIZE
    &&& start % PAGE_SIZE == 0
    &&& 1 <= port <= 7
}

proof fn lemma_page_bits(x: usize)
    ensures
        x & 0xfff == x % 4096,
        x & !0xfffusize == x / 4096 * 4096,
        (x / 4096 * 4096) % 4096 == 0,
{
    assert(x & 0xfff == x % 4096) by (bit_vector);
    assert(x & !0xfffusize == x / 4096 * 4096) by (bit_vector);
    assert((x / 4096 * 4096) % 4096 == 0) by (nonlinear_arith);
}

proof fn lemma_port_bits(port: usize)
    ensures
        (port & !0x7usize) != 0 || (port & 0x7) == 0 <==> !(1 <= port <= 7),
{
    assert((port & !0x7usize) != 0 || (port & 0x7) == 0 <==> !(1 <= port <= 7)) by (bit_vector);
}

proof fn lemma_aligned_end(start: int, len: int)
    requires
        start >= 0,
        len >= 0,
        start % 4096 == 0,
        len % 4096 == 0,
    ensures
        floor_vpn(start + len) == ceil_vpn(start + len),
        (start + len) % 4096 == 0,
{
    assert((start + len) % 4096 == 0) by (nonlinear_arith)
        requires
            start % 4096 == 0,
            len % 4096 == 0,
    ;
    assert((start + len + 4095) / 4096 == (start + len) / 4096) by (nonlinear_arith)
        requires
            (start + len) % 4096 == 0,
            start + len >= 0,
    ;
}

/// `mmap`: returns 0 for an empty length; -1 when the arguments fail the
/// checks (see `mmap_args_ok`); otherwise rounds the length up to whole
/// pages and maps the range (see `mmap_post`).
pub fn sys_mmap(kernel: &mut Kernel, start: usize, len: usize, port: usize) -> (r: isize)
    requires
        old(kernel).wf(),
        len != 0 && mmap_args_ok(start, len, port) ==> {
            &&& old(kernel)@.current is Some
            &&& start + page_round_up(len as int) + PAGE_SIZE - 1 <= usize::MAX
        },
    ensures
        final(kernel).wf(),
        len == 0 ==> r == 0 && final(kernel)@ == old(kernel)@,
        len != 0 && !mmap_args_ok(start, len, port) ==> r == -1 && final(kernel)@ == old(kernel)@,
        len != 0 && mmap_args_ok(start, len, port) ==> mmap_post(
            old(kernel)@,
            final(kernel)@,
            start as int,
            page_round_up(len as int),
            port,
            r,
        ),
{
    if len == 0 {
        return 0;
    }
    if len > MAX_MAP_SIZE {
        return -1;
    }
    proof {
        lemma_page_bits(start);
        lemma_page_bits(len);
        lemma_port_bits(port);
    }
    if start & PAGE_SIZE - 1 != 0 {
        return -1
    }
    if ((port & !0x7) != 0) || ((port & 0x7) == 0) {
        return -1;
    }
    proof {
        lemma_page_bits((len + PAGE_SIZE - 1) as usize);
    }
    let len = (len + PAGE_SIZE - 1) & (!(PAGE_SIZE - 1));
    proof {
        lemma_aligned_end(start as int, len as int);
    }
    let ret = mmap(kernel, start, len, port);
    ret
}

/// `munmap`: returns 0 for an empty length; -1 when the length exceeds
/// `MAX_MAP_SIZE` or the start is not page-aligned; otherwise rounds the
/// length up to whole pages and unmaps the range (see `munmap_post`).
pub fn sys_munmap(kernel: &mut Kernel, start: usize, len: usize) -> (r: isize)
    requires
        old(kernel).wf(),
        len != 0 && len <= MAX_MAP_SIZE && start % PAGE_SIZE == 0 ==> {
            &&& old(kernel)@.current is Some
            &&& start + page_round_up(len as int) <= usize::MAX
        },
    ensures
        final(kernel).wf(),
        len == 0 ==> r == 0 && final(kernel)@ == old(kernel)@,
        len != 0 && (len > MAX_MAP_SIZE || start % PAGE_SIZE != 0) ==> r == -1 && final(kernel)@
            == old(kernel)@,
        len != 0 && len <= MAX_MAP_SIZE && start % PAGE_SIZE == 0 ==> munmap_post(
            old(kernel)@,
            final(kernel)@,
            start as int,
            page_round_up(len as int),
            r,
        ),
{
    if len == 0 {
        return 0;
    }
    if len > MAX_MAP_SIZE {
        return -1;
    }
    proof {
        lemma_page_bits(start);
        lemma_page_bits(len);
    }
    if start & PAGE_SIZE - 1 != 0 {
        return -1
    }
    proof {
        lemma_page_bits((len + PAGE_SIZE - 1) as usize);
    }
    let len = (len + PAGE_SIZE - 1) & (!(PAGE_SIZE - 1));
    let ret = munmap(kernel, start, len);
    ret
}

} // verus!
