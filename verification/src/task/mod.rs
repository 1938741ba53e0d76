//! Tasks: their control blocks, descriptor tables and address spaces, the
//! kernel-wide process table with its scheduler, and the operations of the
//! running task that the system calls build on.
pub mod context;
pub mod fd_table;
pub mod manager;
pub mod memory_set;
pub mod state;
pub mod task;

use vstd::prelude::*;
use crate::config::PAGE_SIZE;
use manager::Kernel;
use state::{KernelView, INITPROC_PID, lemma_with_current_twice, lemma_with_current_same};
use memory_set::{MapPermission, area, floor_vpn, ceil_vpn};
use task::TaskStatus;

verus! {

/// The running task gives up the processor: it becomes ready and joins the
/// end of the ready queue, and the first ready task runs.
pub fn suspend_current_and_run_next(kernel: &mut Kernel)
    requires
        old(kernel).wf(),
        old(kernel)@.current is Some,
    ensures
        final(kernel).wf(),
        final(kernel)@ == old(kernel)@.suspended().run_next(),
        final(kernel)@.current is Some,
{
    kernel.suspend_current();
    kernel.run_next_task();
}

/// The running task, which is not the initial process, exits with
/// `exit_code` (see `KernelView::exited`), and the first ready task, if
/// any, runs.
pub fn exit_current_and_run_next(kernel: &mut Kernel, exit_code: i32)
    requires
        old(kernel).wf(),
        old(kernel)@.current is Some,
        old(kernel)@.current->0 != INITPROC_PID,
    ensures
        final(kernel).wf(),
        final(kernel)@ == old(kernel)@.exited(exit_code).run_next(),
{
    kernel.exit_current(exit_code);
    kernel.run_next_task();
}

/// Hands the initial process to the scheduler.
pub fn add_initproc(kernel: &mut Kernel)
    requires
        old(kernel).wf(),
        old(kernel)@.procs[INITPROC_PID].status == TaskStatus::UnInit,
    ensures
        final(kernel).wf(),
        final(kernel)@ == (KernelView {
            procs: old(kernel)@.procs.insert(
                INITPROC_PID,
                old(kernel)@.procs[INITPROC_PID].with_status(TaskStatus::Ready),
            ),
            ready: old(kernel)@.ready.push(INITPROC_PID),
            ..old(kernel)@
        }),
{
    kernel.add_task(INITPROC_PID);
}

/// The permission that `mmap` gives pages for the protection bits `port`
/// (bit 0 read, bit 1 write, bit 2 execute); always user-accessible, and
/// any value outside 1..=6 grants everything.
pub open spec fn port_permission(port: usize) -> MapPermission {
    if port == 1 {
        MapPermission { r: true, w: false, x: false, u: true }
    } else if port == 2 {
        MapPermission { r: false, w: true, x: false, u: true }
    } else if port == 3 {
        MapPermission { r: true, w: true, x: false, u: true }
    } else if port == 4 {
        MapPermission { r: false, w: false, x: true, u: true }
    } else if port == 5 {
        MapPermission { r: true, w: false, x: true, u: true }
    } else if port == 6 {
        MapPermission { r: false, w: true, x: true, u: true }
    } else {
        MapPermission { r: true, w: true, x: true, u: true }
    }
}

/// The page numbers `from <= vpn < to`.
pub open spec fn vpn_range(from: int, to: int) -> Set<usize> {
    Set::new(|v: usize| from <= v < to)
}

/// No page `from <= vpn < to` is mapped in `memory`.
pub open spec fn range_unmapped(memory: Map<usize, MapPermission>, from: int, to: int) -> bool {
    forall|v: usize| from <= v < to ==> !memory.contains_key(v)
}

/// Every page `from <= vpn < to` is mapped in `memory`.
pub open spec fn range_mapped(memory: Map<usize, MapPermission>, from: int, to: int) -> bool {
    forall|v: usize| from <= v < to ==> memory.contains_key(v)
}

/// The area that `mmap` maps, from the page holding `start` to the first
/// page at or above `start + len`, is free whenever the pages it checks,
/// those before the one holding `start + len`, are (the two differ only when
/// `start + len` is not page-aligned).
pub open spec fn mmap_remaps_nothing(o: KernelView, start: int, len: int) -> bool {
    range_unmapped(o.cur().memory, floor_vpn(start), floor_vpn(start + len))
        ==> range_unmapped(o.cur().memory, floor_vpn(start), ceil_vpn(start + len))
}

/// What `mmap` does: it fails with -1, changing nothing, when a page from
/// the one holding `start` up to (not including) the one holding
/// `start + len` is mapped; otherwise it maps every page that
/// `[start, start + len)` touches with the permission given by `port`, and
/// returns 0.
pub open spec fn mmap_post(o: KernelView, n: KernelView, start: int, len: int, port: usize, r: isize) -> bool {
    if range_unmapped(o.cur().memory, floor_vpn(start), floor_vpn(start + len)) {
        &&& r == 0
        &&& n == o.with_current(
            o.cur().with_memory(
                o.cur().memory.union_prefer_right(
                    area(floor_vpn(start), ceil_vpn(start + len), port_permission(port)),
                ),
            ),
        )
    } else {
        r == -1 && n == o
    }
}

/// What `munmap` does: it fails with -1, changing nothing, when some page
/// from the one holding `start` up to (not including) the one holding
/// `start + len` is not mapped; otherwise it unmaps those pages and returns
/// 0.
pub open spec fn munmap_post(o: KernelView, n: KernelView, start: int, len: int, r: isize) -> bool {
    if range_mapped(o.cur().memory, floor_vpn(start), floor_vpn(start + len)) {
        &&& r == 0
        &&& n == o.with_current(
            o.cur().with_memory(
                o.cur().memory.remove_keys(vpn_range(floor_vpn(start), floor_vpn(start + len))),
            ),
        )
    } else {
        r == -1 && n == o
    }
}

fn permission_from_port(port: usize) -> (perm: MapPermission)
    ensures
        perm == port_permission(port),
{
    match port {
        1 => MapPermission { r: true, w: false, x: false, u: true },
        2 => MapPermission { r: false, w: true, x: false, u: true },
        3 => MapPermission { r: true, w: true, x: false, u: true },
        4 => MapPermission { r: false, w: false, x: true, u: true },
        5 => MapPermission { r: true, w: false, x: true, u: true },
        6 => MapPermission { r: false, w: true, x: true, u: true },
        _ => MapPermission { r: true, w: true, x: true, u: true },
    }
}

/// Maps `[start, start + len)` into the running task's address space with
/// the permission given by `port` (see `port_permission`). Fails with -1,
/// changing nothing, when a page from the one holding `start` up to (not
/// including) the one holding `start + len` is already mapped; otherwise
/// maps every page the range touches and returns 0.
pub fn mmap(kernel: &mut Kernel, start: usize, len: usize, port: usize) -> (r: isize)
    requires
        old(kernel).wf(),
        old(kernel)@.current is Some,
        start + len + PAGE_SIZE - 1 <= usize::MAX,
        mmap_remaps_nothing(old(kernel)@, start as int, len as int),
    ensures
        final(kernel).wf(),
        mmap_post(old(kernel)@, final(kernel)@, start as int, len as int, port, r),
{
    let from: usize = start / PAGE_SIZE;
    let to: usize = (start + len) / PAGE_SIZE;
    let mut vpn: usize = from;
    while vpn < to
        invariant
            kernel.wf(),
            kernel@ == old(kernel)@,
            kernel@.current is Some,
            from == floor_vpn(start as int),
            to == floor_vpn(start + len),
            from <= vpn,
            range_unmapped(kernel@.cur().memory, from as int, vpn as int),
        decreases to - vpn,
    {
        if kernel.current_find_vpn(vpn) {
            return -1;
        }
        vpn = vpn + 1;
    }
    let permission = permission_from_port(port);
    kernel.current_insert_framed_area(start, start + len, permission);
    0
}

/// Unmaps `[start, start + len)` from the running task's address space.
/// Fails with -1, changing nothing, when some page from the one holding
/// `start` up to (not including) the one holding `start + len` is not
/// mapped; otherwise unmaps those pages and returns 0.
pub fn munmap(kernel: &mut Kernel, start: usize, len: usize) -> (r: isize)
    requires
        old(kernel).wf(),
        old(kernel)@.current is Some,
        start + len <= usize::MAX,
    ensures
        final(kernel).wf(),
        munmap_post(old(kernel)@, final(kernel)@, start as int, len as int, r),
{
    let from: usize = start / PAGE_SIZE;
    let to: usize = (start + len) / PAGE_SIZE;
    let mut vpn: usize = from;
    while vpn < to
        invariant
            kernel.wf(),
            kernel@ == old(kernel)@,
            kernel@.current is Some,
            from == floor_vpn(start as int),
            to == floor_vpn(start + len),
            from <= vpn,
            range_mapped(kernel@.cur().memory, from as int, vpn as int),
        decreases to - vpn,
    {
        if !kernel.current_find_vpn(vpn) {
            return -1;
        }
        vpn = vpn + 1;
    }
    let ghost o = old(kernel)@;
    proof {
        assert(from <= to) by (nonlinear_arith)
            requires
                from == start / 4096,
                to == (start + len) / 4096,
        ;
        assert(o.cur().memory.remove_keys(vpn_range(from as int, from as int)) =~= o.cur().memory);
        lemma_with_current_same(o);
    }
    let mut vpn: usize = from;
    while vpn < to
        invariant
            kernel.wf(),
            o == old(kernel)@,
            o.wf(),
            o.current is Some,
            kernel@ == o.with_current(
                o.cur().with_memory(o.cur().memory.remove_keys(vpn_range(from as int, vpn as int))),
            ),
            from == floor_vpn(start as int),
            to == floor_vpn(start + len),
            from <= vpn <= to,
            range_mapped(o.cur().memory, from as int, to as int),
        decreases to - vpn,
    {
        proof {
            assert(kernel@.cur().memory.contains_key(vpn));
        }
        kernel.current_unmap(vpn);
        proof {
            assert(o.cur().memory.remove_keys(vpn_range(from as int, vpn as int)).remove(vpn)
                =~= o.cur().memory.remove_keys(vpn_range(from as int, vpn + 1)));
            lemma_with_current_twice(
                o,
                o.cur().with_memory(o.cur().memory.remove_keys(vpn_range(from as int, vpn as int))),
                o.cur().with_memory(o.cur().memory.remove_keys(vpn_range(from as int, vpn + 1))),
            );
        }
        vpn = vpn + 1;
    }
    proof {
        assert(vpn == to);
    }
    0
}

/// Unmapping the range that `mmap` just mapped, with the same page-aligned
/// start and length, succeeds and restores the address space.
pub proof fn lemma_munmap_undoes_mmap(
    o: KernelView,
    n1: KernelView,
    n2: KernelView,
    start: int,
    len: int,
    port: usize,
    r2: isize,
)
    requires
        o.wf(),
        o.current is Some,
        start >= 0,
        len >= 0,
        start % (PAGE_SIZE as int) == 0,
        len % (PAGE_SIZE as int) == 0,
        range_unmapped(o.cur().memory, floor_vpn(start), floor_vpn(start + len)),
        mmap_post(o, n1, start, len, port, 0),
        munmap_post(n1, n2, start, len, r2),
    ensures
        r2 == 0,
        n2 == o,
{
    let from = floor_vpn(start);
    let to = floor_vpn(start + len);
    assert(ceil_vpn(start + len) == to) by (nonlinear_arith)
        requires
            start % 4096 == 0,
            len % 4096 == 0,
            start >= 0,
            len >= 0,
            to == (start + len) / 4096,
    {
        assert((start + len) % 4096 == 0);
    }
    let mem = o.cur().memory;
    let mapped = mem.union_prefer_right(area(from, to, port_permission(port)));
    lemma_with_current_twice(o, o.cur().with_memory(mapped), o.cur().with_memory(mapped));
    assert(n1.cur().memory == mapped);
    assert(range_mapped(n1.cur().memory, from, to));
    lemma_with_current_twice(
        o,
        o.cur().with_memory(mapped),
        o.cur().with_memory(mapped).with_memory(mapped.remove_keys(vpn_range(from, to))),
    );
    assert(mapped.remove_keys(vpn_range(from, to)) =~= mem);
    assert(o.cur().with_memory(mapped).with_memory(mem) == o.cur());
    lemma_with_current_same(o);
}

/// Round-robin: when the running task yields, the task at the head of the
/// ready queue runs next and the yielding task waits behind every task that
/// was ready before it; with nobody else ready, the yielding task runs on.
pub proof fn lemma_yield_round_robin(o: KernelView)
    requires
        o.wf(),
        o.current is Some,
    ensures
        o.ready.len() > 0 ==> o.suspended().run_next().current == Some(o.ready[0])
            && o.suspended().run_next().ready == o.ready.drop_first().push(o.current->0),
        o.ready.len() == 0 ==> o.suspended().run_next().current == o.current
            && o.suspended().run_next().ready.len() == 0,
{
    let s = o.suspended();
    if o.ready.len() > 0 {
        assert(s.ready[0] == o.ready[0]);
        assert(s.ready.drop_first() =~= o.ready.drop_first().push(o.current->0));
    } else {
        assert(s.ready[0] == o.current->0);
        assert(s.ready.drop_first() =~= Seq::<usize>::empty());
    }
}

/// The permission `mmap` gives for protection bits `port` in 1..=7: bit 0
/// grants reading, bit 1 writing, bit 2 execution, and the page is always
/// user-accessible.
pub proof fn lemma_port_permission_bits(port: usize)
    requires
        1 <= port <= 7,
    ensures
        port_permission(port) == (MapPermission {
            r: port & 1 != 0,
            w: port & 2 != 0,
            x: port & 4 != 0,
            u: true,
        }),
{
    assert(port & 1 != 0 <==> (port == 1 || port == 3 || port == 5 || port == 7)) by (bit_vector)
        requires
            1 <= port <= 7,
    ;
    assert(port & 2 != 0 <==> (port == 2 || port == 3 || port == 6 || port == 7)) by (bit_vector)
        requires
            1 <= port <= 7,
    ;
    assert(port & 4 != 0 <==> 4 <= port) by (bit_vector)
        requires
            1 <= port <= 7,
    ;
}

/// What `mmap` answers depends only on the pages it checks, from the one
/// holding `start` up to (not including) the one holding `start + len`: it
/// succeeds when none of them is mapped, whatever is mapped elsewhere, and
/// then every page the range touches is mapped with the permission of the
/// protection bits (for `port` in 1..=7: read for bit 0, write for bit 1,
/// execute for bit 2, always user), every other page kept as it was; it
/// fails, changing nothing, when one of them is mapped.
pub proof fn lemma_mmap_maps_free_ranges(
    o: KernelView,
    n: KernelView,
    start: int,
    len: int,
    port: usize,
    r: isize,
)
    requires
        o.current is Some,
        start >= 0,
        len >= 0,
        mmap_post(o, n, start, len, port, r),
    ensures
        (forall|v: usize|
            start / (PAGE_SIZE as int) <= v < (start + len) / (PAGE_SIZE as int)
                ==> !o.cur().memory.contains_key(v)) ==> {
            &&& r == 0
            &&& n.current == o.current
            &&& forall|v: usize|
                start / (PAGE_SIZE as int) <= v < (start + len + PAGE_SIZE - 1) / (PAGE_SIZE as int)
                    ==> #[trigger] n.cur().memory.contains_key(v) && n.cur().memory[v].u
                    && (1 <= port <= 7 ==> n.cur().memory[v] == (MapPermission {
                    r: port & 1 != 0,
                    w: port & 2 != 0,
                    x: port & 4 != 0,
                    u: true,
                }))
            &&& forall|v: usize|
                !(start / (PAGE_SIZE as int) <= v < (start + len + PAGE_SIZE - 1) / (PAGE_SIZE as int))
                    ==> (#[trigger] n.cur().memory.contains_key(v) == o.cur().memory.contains_key(v)
                    && (o.cur().memory.contains_key(v) ==> n.cur().memory[v] == o.cur().memory[v]))
        },
        forall|v: usize|
            start / (PAGE_SIZE as int) <= v < (start + len) / (PAGE_SIZE as int)
                && #[trigger] o.cur().memory.contains_key(v) ==> r == -1 && n == o,
{
    if 1 <= port <= 7 {
        lemma_port_permission_bits(port);
    }
    if range_unmapped(o.cur().memory, floor_vpn(start), floor_vpn(start + len)) {
        let m = o.cur().memory.union_prefer_right(
            area(floor_vpn(start), ceil_vpn(start + len), port_permission(port)),
        );
        lemma_with_current_twice(o, o.cur().with_memory(m), o.cur().with_memory(m));
        assert(n.cur().memory == m);
    }
}

/// `munmap` succeeds only on a fully mapped range: it returns 0 exactly when
/// every page from the one holding `start` up to (not including) the one
/// holding `start + len` was mapped, and then those pages, and only those,
/// are no longer mapped; when one of them was not mapped it returns -1 and
/// changes nothing.
pub proof fn lemma_munmap_needs_mapped_range(
    o: KernelView,
    n: KernelView,
    start: int,
    len: int,
    r: isize,
)
    requires
        o.current is Some,
        start >= 0,
        len >= 0,
        munmap_post(o, n, start, len, r),
    ensures
        r == 0 ==> forall|v: usize|
            start / (PAGE_SIZE as int) <= v < (start + len) / (PAGE_SIZE as int)
                ==> #[trigger] o.cur().memory.contains_key(v),
        forall|v: usize|
            start / (PAGE_SIZE as int) <= v < (start + len) / (PAGE_SIZE as int)
                && !#[trigger] o.cur().memory.contains_key(v) ==> r == -1 && n == o,
        (forall|v: usize|
            start / (PAGE_SIZE as int) <= v < (start + len) / (PAGE_SIZE as int)
                ==> o.cur().memory.contains_key(v)) ==> {
            &&& r == 0
            &&& n.current == o.current
            &&& forall|v: usize|
                start / (PAGE_SIZE as int) <= v < (start + len) / (PAGE_SIZE as int)
                    ==> !#[trigger] n.cur().memory.contains_key(v)
            &&& forall|v: usize|
                !(start / (PAGE_SIZE as int) <= v < (start + len) / (PAGE_SIZE as int))
                    ==> (#[trigger] n.cur().memory.contains_key(v) == o.cur().memory.contains_key(v)
                    && (o.cur().memory.contains_key(v) ==> n.cur().memory[v] == o.cur().memory[v]))
        },
{
    if range_mapped(o.cur().memory, floor_vpn(start), floor_vpn(start + len)) {
        let m = o.cur().memory.remove_keys(vpn_range(floor_vpn(start), floor_vpn(start + len)));
        lemma_with_current_twice(o, o.cur().with_memory(m), o.cur().with_memory(m));
        assert(n.cur().memory == m);
    }
}

} // verus!
