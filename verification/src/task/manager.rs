//! The kernel's process table and scheduler.
//!
//! `Kernel` holds every task by process identifier, the FIFO queue of ready
//! tasks and the task that runs on the processor. Its abstract view is a
//! `KernelView` (see `state`); every operation is specified over views and
//! keeps the invariant `KernelView::wf`.
use vstd::prelude::*;
use std::collections::BTreeMap;
use std::collections::VecDeque;
use super::context::TaskContext;
use super::fd_table::{FileDesc, new_std_fd_table, std_fd_table, alloc_fd, alloc_fd_post, copy_fd_table};
use super::memory_set::{MapPermission, MemorySet, area, floor_vpn, ceil_vpn};
use super::state::{
    KernelView, TaskView, INITPROC_PID, zero_call_seq, lemma_wf_update_resources,
    lemma_suspended_wf, lemma_exited_wf, lemma_with_child_wf, lemma_reaped_wf,
};
use super::task::{AppImage, TaskControlBlock, TaskStatus, MAX_SYSCALL_NUM, zero_calls};
use crate::trap::{TrapContext, with_a0};
use crate::config::PAGE_SIZE;
use crate::syscall::SyscallInfo;

verus! {

broadcast use vstd::std_specs::btree::group_btree_axioms;

/// The process table and scheduler.
pub struct Kernel {
    tasks: BTreeMap<usize, TaskControlBlock>,
    ready_queue: VecDeque<usize>,
    current: Option<usize>,
    next_pid: usize,
}

/// The abstract view of a table of control blocks.
pub open spec fn procs_view(m: Map<usize, TaskControlBlock>) -> Map<usize, TaskView> {
    m.map_values(|t: TaskControlBlock| t@)
}

proof fn lemma_procs_view_insert(m: Map<usize, TaskControlBlock>, k: usize, t: TaskControlBlock)
    ensures
        procs_view(m.insert(k, t)) == procs_view(m).insert(k, t@),
{
    assert(procs_view(m.insert(k, t)) =~= procs_view(m).insert(k, t@));
}

proof fn lemma_procs_view_remove(m: Map<usize, TaskControlBlock>, k: usize)
    ensures
        procs_view(m.remove(k)) == procs_view(m).remove(k),
{
    assert(procs_view(m.remove(k)) =~= procs_view(m).remove(k));
}

impl View for Kernel {
    type V = KernelView;

    closed spec fn view(&self) -> KernelView {
        KernelView {
            procs: procs_view(self.tasks@),
            ready: self.ready_queue@,
            current: self.current,
            next_pid: self.next_pid,
        }
    }
}

impl Kernel {
    /// The kernel invariant, over the abstract view.
    pub open spec fn wf(&self) -> bool {
        self@.wf()
    }

    /// Removes task `pid` from the table and hands it out.
    fn take_task(&mut self, pid: usize) -> (t: TaskControlBlock)
        requires
            old(self)@.procs.contains_key(pid),
        ensures
            t@ == old(self)@.procs[pid],
            final(self)@ == (KernelView { procs: old(self)@.procs.remove(pid), ..old(self)@ }),
    {
        proof {
            lemma_procs_view_remove(self.tasks@, pid);
        }
        self.tasks.remove(&pid).unwrap()
    }

    /// Stores task `t` under `pid`.
    fn put_task(&mut self, pid: usize, t: TaskControlBlock)
        ensures
            final(self)@ == (KernelView { procs: old(self)@.procs.insert(pid, t@), ..old(self)@ }),
    {
        proof {
            lemma_procs_view_insert(self.tasks@, pid, t);
        }
        self.tasks.insert(pid, t);
    }

    /// Hands task `pid`, created but not yet scheduled, to the scheduler:
    /// it becomes ready and joins the end of the ready queue.
    pub fn add_task(&mut self, pid: usize)
        requires
            old(self).wf(),
            old(self)@.procs.contains_key(pid),
            old(self)@.procs[pid].status == TaskStatus::UnInit,
        ensures
            final(self).wf(),
            final(self)@ == (KernelView {
                procs: old(self)@.procs.insert(pid, old(self)@.procs[pid].with_status(TaskStatus::Ready)),
                ready: old(self)@.ready.push(pid),
                ..old(self)@
            }),
    {
        let mut t = self.take_task(pid);
        t.task_status = TaskStatus::Ready;
        self.put_task(pid, t);
        self.ready_queue.push_back(pid);
        proof {
            let o = old(self)@;
            let n = self@;
            assert(n.procs =~= o.procs.insert(pid, o.procs[pid].with_status(TaskStatus::Ready)));
            assert(!o.ready.contains(pid));
            assert forall|p: usize, i: int|
                #![trigger n.procs[p].children[i]]
                n.procs.contains_key(p) && 0 <= i < n.procs[p].children.len()
                implies n.procs.contains_key(n.procs[p].children[i])
                    && n.procs[n.procs[p].children[i]].parent == Some(p) by {
                assert(o.procs[p].children[i] == n.procs[p].children[i]);
            }
            assert forall|p: usize| #[trigger] n.procs.contains_key(p) && p != INITPROC_PID implies {
                &&& n.procs[p].parent is Some
                &&& n.procs.contains_key(n.procs[p].parent->0)
                &&& n.procs[n.procs[p].parent->0].children.contains(p)
            } by {
                assert(o.procs.contains_key(p));
            }
            assert forall|i: int| 0 <= i < n.ready.len() implies n.procs.contains_key(#[trigger] n.ready[i])
                && n.procs[n.ready[i]].status == TaskStatus::Ready by {
                if i < o.ready.len() {
                    assert(n.ready[i] == o.ready[i]);
                }
            }
            assert forall|p: usize| #[trigger] n.procs.contains_key(p) && n.procs[p].status == TaskStatus::Ready
                implies n.ready.contains(p) by {
                if p != pid {
                    assert(o.ready.contains(p));
                    let j = choose|j: int| 0 <= j < o.ready.len() && o.ready[j] == p;
                    assert(n.ready[j] == p);
                } else {
                    assert(n.ready[o.ready.len() as int] == p);
                }
            }
        }
    }

    /// One step of the idle loop: when no task runs, the first ready task
    /// (if any) leaves the queue and runs. Returns the task that now runs.
    pub fn run_next_task(&mut self) -> (next: Option<usize>)
        requires
            old(self).wf(),
            old(self)@.current is None,
        ensures
            final(self).wf(),
            final(self)@ == old(self)@.run_next(),
            next == final(self)@.current,
    {
        let front = self.ready_queue.pop_front();
        match front {
            None => None,
            Some(n) => {
                proof {
                    assert(old(self)@.procs.contains_key(old(self)@.ready[0]));
                }
                let mut t = self.take_task(n);
                t.task_status = TaskStatus::Running;
                self.put_task(n, t);
                self.current = Some(n);
                proof {
                    let o = old(self)@;
                    let k = self@;
                    assert(o.ready.drop_first() =~= o.ready.subrange(1, o.ready.len() as int));
                    assert(k.procs =~= o.procs.insert(n, o.procs[n].with_status(TaskStatus::Running)));
                    assert(k == o.run_next());
                    assert forall|p: usize, i: int|
                        #![trigger k.procs[p].children[i]]
                        k.procs.contains_key(p) && 0 <= i < k.procs[p].children.len()
                        implies k.procs.contains_key(k.procs[p].children[i])
                            && k.procs[k.procs[p].children[i]].parent == Some(p) by {
                        assert(o.procs[p].children[i] == k.procs[p].children[i]);
                    }
                    assert forall|p: usize| #[trigger] k.procs.contains_key(p) && p != INITPROC_PID implies {
                        &&& k.procs[p].parent is Some
                        &&& k.procs.contains_key(k.procs[p].parent->0)
                        &&& k.procs[k.procs[p].parent->0].children.contains(p)
                    } by {
                        assert(o.procs.contains_key(p));
                    }
                    assert forall|i: int| 0 <= i < k.ready.len() implies k.procs.contains_key(#[trigger] k.ready[i])
                        && k.procs[k.ready[i]].status == TaskStatus::Ready by {
                        assert(k.ready[i] == o.ready[i + 1]);
                    }
                    assert forall|p: usize| #[trigger] k.procs.contains_key(p) && k.procs[p].status == TaskStatus::Ready
                        implies k.ready.contains(p) by {
                        assert(o.ready.contains(p));
                        let j = choose|j: int| 0 <= j < o.ready.len() && o.ready[j] == p;
                        assert(j != 0);
                        assert(k.ready[j - 1] == p);
                    }
                }
                Some(n)
            }
        }
    }

    /// The running task gives up the processor: it becomes ready and joins
    /// the end of the ready queue; no task runs afterwards.
    pub fn suspend_current(&mut self)
        requires
            old(self).wf(),
            old(self)@.current is Some,
        ensures
            final(self).wf(),
            final(self)@ == old(self)@.suspended(),
    {
        proof {
            lemma_suspended_wf(old(self)@);
        }
        let c = self.current.unwrap();
        let mut t = self.take_task(c);
        t.task_status = TaskStatus::Ready;
        self.put_task(c, t);
        self.ready_queue.push_back(c);
        self.current = None;
        proof {
            assert(self@.procs =~= old(self)@.suspended().procs);
        }
    }

    /// The running task, which is not the initial process, exits with
    /// `exit_code`: see `KernelView::exited`. No task runs afterwards.
    pub fn exit_current(&mut self, exit_code: i32)
        requires
            old(self).wf(),
            old(self)@.current is Some,
            old(self)@.current->0 != INITPROC_PID,
        ensures
            final(self).wf(),
            final(self)@ == old(self)@.exited(exit_code),
    {
        let ghost o = old(self)@;
        let ghost target = o.exited(exit_code);
        proof {
            lemma_exited_wf(o, exit_code);
        }
        let c = self.current.unwrap();
        let mut t = self.take_task(c);
        t.task_status = TaskStatus::Exited;
        t.exit_code = exit_code;
        let mut kids: Vec<usize> = Vec::new();
        std::mem::swap(&mut kids, &mut t.children);
        t.memory_set.recycle_data_pages();
        self.put_task(c, t);
        proof {
            assert(kids@ == o.procs[c].children);
            assert forall|j: int| 0 <= j < kids@.len() implies #[trigger] kids@[j] != c
                && kids@[j] != INITPROC_PID && o.procs.contains_key(kids@[j]) by {
                assert(o.procs[o.procs[c].children[j]].parent == Some(c));
            }
            assert(self@.procs[c] == target.procs[c]);
        }
        let mut i: usize = 0;
        while i < kids.len()
            invariant
                o.wf(),
                o.current == Some(c),
                c != INITPROC_PID,
                target == o.exited(exit_code),
                kids@ == o.procs[c].children,
                kids@.no_duplicates(),
                forall|j: int| 0 <= j < kids@.len() ==> #[trigger] kids@[j] != c
                    && kids@[j] != INITPROC_PID && o.procs.contains_key(kids@[j]),
                0 <= i <= kids@.len(),
                self@.procs.dom() == o.procs.dom(),
                self@.ready == o.ready,
                self@.current == o.current,
                self@.next_pid == o.next_pid,
                self@.procs[c] == target.procs[c],
                self@.procs[INITPROC_PID] == o.procs[INITPROC_PID].with_children(
                    o.procs[INITPROC_PID].children + kids@.subrange(0, i as int),
                ),
                forall|p: usize|
                    #![trigger self@.procs[p]]
                    self@.procs.contains_key(p) && p != c && p != INITPROC_PID ==> self@.procs[p] == (
                    if kids@.subrange(0, i as int).contains(p) {
                        o.procs[p].with_parent(Some(INITPROC_PID))
                    } else {
                        o.procs[p]
                    }),
            decreases kids@.len() - i,
        {
            let ch = kids[i];
            proof {
                assert(kids@[i as int] == ch);
            }
            let mut tc = self.take_task(ch);
            tc.parent = Some(INITPROC_PID);
            self.put_task(ch, tc);
            let mut ti = self.take_task(INITPROC_PID);
            ti.children.push(ch);
            self.put_task(INITPROC_PID, ti);
            proof {
                let sub = kids@.subrange(0, i as int);
                let sub1 = kids@.subrange(0, i + 1);
                assert(sub1 == sub.push(ch));
                assert(o.procs[INITPROC_PID].children + sub1 =~= (o.procs[INITPROC_PID].children + sub).push(ch));
                assert(!sub.contains(ch)) by {
                    if sub.contains(ch) {
                        let j = choose|j: int| 0 <= j < sub.len() && sub[j] == ch;
                        assert(kids@[j] == kids@[i as int]);
                    }
                }
                assert(self@.procs.dom() =~= o.procs.dom());
                assert forall|p: usize|
                    #![trigger self@.procs[p]]
                    self@.procs.contains_key(p) && p != c && p != INITPROC_PID implies self@.procs[p] == (
                    if sub1.contains(p) {
                        o.procs[p].with_parent(Some(INITPROC_PID))
                    } else {
                        o.procs[p]
                    }) by {
                    if p == ch {
                        assert(sub1[i as int] == ch);
                    } else {
                        assert(sub1.contains(p) == sub.contains(p)) by {
                            if sub1.contains(p) {
                                let j = choose|j: int| 0 <= j < sub1.len() && sub1[j] == p;
                                assert(sub[j] == p);
                            }
                            if sub.contains(p) {
                                let j = choose|j: int| 0 <= j < sub.len() && sub[j] == p;
                                assert(sub1[j] == p);
                            }
                        }
                    }
                }
            }
            i = i + 1;
        }
        self.current = None;
        proof {
            assert(kids@.subrange(0, kids@.len() as int) == kids@);
            assert(self@.procs.dom() =~= target.procs.dom());
            assert(self@.procs =~= target.procs);
        }
    }

    /// Stores a new ready child of the running task, with descriptor table
    /// `fd_table` and address space `memory`, under the next identifier,
    /// which it returns.
    fn add_child(
        &mut self,
        fd_table: Vec<Option<FileDesc>>,
        memory: MemorySet,
        trap_cx: TrapContext,
    ) -> (pid: usize)
        requires
            old(self).wf(),
            old(self)@.current is Some,
            old(self)@.next_pid + 1 < isize::MAX,
        ensures
            final(self).wf(),
            pid == old(self)@.next_pid,
            final(self)@ == old(self)@.with_child(
                TaskView::fresh(pid, old(self)@.current, fd_table@, memory@, trap_cx),
            ),
    {
        let ghost child = TaskView::fresh(
            old(self)@.next_pid,
            old(self)@.current,
            fd_table@,
            memory@,
            trap_cx,
        );
        proof {
            lemma_with_child_wf(old(self)@, child);
        }
        let c = self.current.unwrap();
        let pid = self.next_pid;
        let t = TaskControlBlock {
            task_status: TaskStatus::Ready,
            task_cx: TaskContext::zero_init(),
            id: pid,
            call: zero_calls(),
            startTime: 0,
            parent: Some(c),
            children: Vec::new(),
            exit_code: 0,
            fd_table,
            memory_set: memory,
            trap_cx,
        };
        let mut tp = self.take_task(c);
        tp.children.push(pid);
        self.put_task(c, tp);
        proof {
            assert(t.call@ =~= zero_call_seq());
            assert(t@ == child);
        }
        self.put_task(pid, t);
        self.ready_queue.push_back(pid);
        self.next_pid = pid + 1;
        proof {
            assert(self@.procs =~= old(self)@.with_child(child).procs);
        }
        pid
    }

    /// The running task forks: the child gets a copy of its descriptor
    /// table, of its address space and of its user context, in which the
    /// system call's result register `a0` is 0. Returns the child's
    /// identifier.
    pub fn fork(&mut self) -> (pid: usize)
        requires
            old(self).wf(),
            old(self)@.current is Some,
            old(self)@.next_pid + 1 < isize::MAX,
        ensures
            final(self).wf(),
            pid == old(self)@.next_pid,
            final(self)@ == old(self)@.with_child(
                TaskView::fresh(
                    pid,
                    old(self)@.current,
                    old(self)@.cur().fd_table,
                    old(self)@.cur().memory,
                    with_a0(old(self)@.cur().trap_cx, 0),
                ),
            ),
    {
        let c = self.current.unwrap();
        let t = self.tasks.get(&c).unwrap();
        let fds = copy_fd_table(&t.fd_table);
        let mem = MemorySet::from_existed_user(&t.memory_set);
        let mut trap_cx = t.trap_cx;
        trap_cx.set_a0(0);
        self.add_child(fds, mem, trap_cx)
    }

    /// The running task spawns a child that runs the loaded program
    /// `image`, with the standard descriptor table. Returns the child's
    /// identifier.
    pub fn spawn(&mut self, image: AppImage) -> (pid: usize)
        requires
            old(self).wf(),
            old(self)@.current is Some,
            old(self)@.next_pid + 1 < isize::MAX,
        ensures
            final(self).wf(),
            pid == old(self)@.next_pid,
            final(self)@ == old(self)@.with_child(
                TaskView::fresh(
                    pid,
                    old(self)@.current,
                    std_fd_table(),
                    image.memory_set@,
                    image.trap_cx,
                ),
            ),
    {
        let fds = new_std_fd_table();
        self.add_child(fds, image.memory_set, image.trap_cx)
    }

    /// The running task collects its exited child at position `idx` of its
    /// children. Returns the child's identifier and exit code.
    pub fn reap_child(&mut self, idx: usize) -> (r: (usize, i32))
        requires
            old(self).wf(),
            old(self)@.current is Some,
            idx < old(self)@.cur().children.len(),
            old(self)@.procs[old(self)@.cur().children[idx as int]].status == TaskStatus::Exited,
        ensures
            final(self).wf(),
            final(self)@ == old(self)@.reaped(idx as int),
            r.0 == old(self)@.cur().children[idx as int],
            r.1 == old(self)@.procs[r.0].exit_code,
    {
        proof {
            lemma_reaped_wf(old(self)@, idx as int);
        }
        let c = self.current.unwrap();
        let mut t = self.take_task(c);
        let child = t.children.remove(idx);
        proof {
            assert(self@.procs.contains_key(child));
        }
        let tc = self.take_task(child);
        let code = tc.exit_code;
        self.put_task(c, t);
        proof {
            assert(self@.procs =~= old(self)@.reaped(idx as int).procs);
        }
        (child, code)
    }

    /// Puts back the running task's entry, taken out of `pre`, as `t`, which
    /// differs from it only in what the invariant does not speak of.
    fn update_current(&mut self, t: TaskControlBlock, Ghost(pre): Ghost<KernelView>)
        requires
            pre.wf(),
            pre.current is Some,
            old(self)@ == (KernelView { procs: pre.procs.remove(pre.current->0), ..pre }),
            t@.status == pre.cur().status,
            t@.id == pre.cur().id,
            t@.parent == pre.cur().parent,
            t@.children == pre.cur().children,
        ensures
            final(self).wf(),
            final(self)@ == pre.with_current(t@),
    {
        proof {
            lemma_wf_update_resources(pre, pre.current->0, t@);
        }
        let c = self.current.unwrap();
        self.put_task(c, t);
        proof {
            assert(self@.procs =~= pre.with_current(t@).procs);
        }
    }

    /// The identifier of the running task, if any.
    pub fn current_pid(&self) -> (r: Option<usize>)
        ensures
            r == self@.current,
    {
        self.current
    }

    /// The scheduling state of task `pid`.
    pub fn task_status(&self, pid: usize) -> (s: TaskStatus)
        requires
            self@.procs.contains_key(pid),
        ensures
            s == self@.procs[pid].status,
    {
        self.tasks.get(&pid).unwrap().task_status
    }

    /// The running task's children.
    pub fn current_children(&self) -> (r: &Vec<usize>)
        requires
            self.wf(),
            self@.current is Some,
        ensures
            r@ == self@.cur().children,
    {
        &self.tasks.get(&self.current.unwrap()).unwrap().children
    }

    /// The length of the running task's descriptor table.
    pub fn current_fd_table_len(&self) -> (len: usize)
        requires
            self.wf(),
            self@.current is Some,
        ensures
            len == self@.cur().fd_table.len(),
    {
        self.tasks.get(&self.current.unwrap()).unwrap().fd_table.len()
    }

    /// Entry `fd` of the running task's descriptor table.
    pub fn current_fd(&self, fd: usize) -> (f: Option<FileDesc>)
        requires
            self.wf(),
            self@.current is Some,
            fd < self@.cur().fd_table.len(),
        ensures
            f == self@.cur().fd_table[fd as int],
    {
        self.tasks.get(&self.current.unwrap()).unwrap().fd_table[fd]
    }

    /// Sets entry `fd` of the running task's descriptor table to `f`.
    pub fn set_current_fd(&mut self, fd: usize, f: Option<FileDesc>)
        requires
            old(self).wf(),
            old(self)@.current is Some,
            fd < old(self)@.cur().fd_table.len(),
        ensures
            final(self).wf(),
            final(self)@ == old(self)@.with_current(
                old(self)@.cur().with_fd_table(old(self)@.cur().fd_table.update(fd as int, f)),
            ),
    {
        let ghost pre = self@;
        let c = self.current.unwrap();
        let mut t = self.take_task(c);
        t.fd_table.set(fd, f);
        self.update_current(t, Ghost(pre));
    }

    /// Allocates a descriptor of the running task (see `alloc_fd`).
    pub fn alloc_current_fd(&mut self) -> (fd: usize)
        requires
            old(self).wf(),
            old(self)@.current is Some,
            old(self)@.cur().fd_table.len() < usize::MAX,
        ensures
            final(self).wf(),
            final(self)@ == old(self)@.with_current(
                old(self)@.cur().with_fd_table(final(self)@.cur().fd_table),
            ),
            alloc_fd_post(old(self)@.cur().fd_table, final(self)@.cur().fd_table, fd as int),
            fd < final(self)@.cur().fd_table.len(),
            final(self)@.cur().fd_table[fd as int] is None,
    {
        let ghost pre = self@;
        let c = self.current.unwrap();
        let mut t = self.take_task(c);
        let fd = alloc_fd(&mut t.fd_table);
        self.update_current(t, Ghost(pre));
        fd
    }

    /// Whether page `vpn` is mapped in the running task's address space.
    pub fn current_find_vpn(&self, vpn: usize) -> (mapped: bool)
        requires
            self.wf(),
            self@.current is Some,
        ensures
            mapped == self@.cur().memory.contains_key(vpn),
    {
        self.tasks.get(&self.current.unwrap()).unwrap().memory_set.find_vpn(vpn)
    }

    /// Maps an area in the running task's address space (see
    /// `MemorySet::insert_framed_area`).
    pub fn current_insert_framed_area(&mut self, start_va: usize, end_va: usize, perm: MapPermission)
        requires
            old(self).wf(),
            old(self)@.current is Some,
            start_va <= end_va,
            end_va + PAGE_SIZE - 1 <= usize::MAX,
            forall|v: usize|
                floor_vpn(start_va as int) <= v < ceil_vpn(end_va as int)
                    ==> !old(self)@.cur().memory.contains_key(v),
        ensures
            final(self).wf(),
            final(self)@ == old(self)@.with_current(
                old(self)@.cur().with_memory(
                    old(self)@.cur().memory.union_prefer_right(
                        area(floor_vpn(start_va as int), ceil_vpn(end_va as int), perm),
                    ),
                ),
            ),
    {
        let ghost pre = self@;
        let c = self.current.unwrap();
        let mut t = self.take_task(c);
        t.memory_set.insert_framed_area(start_va, end_va, perm);
        self.update_current(t, Ghost(pre));
    }

    /// Unmaps page `vpn`, which must be mapped, from the running task's
    /// address space.
    pub fn current_unmap(&mut self, vpn: usize)
        requires
            old(self).wf(),
            old(self)@.current is Some,
            old(self)@.cur().memory.contains_key(vpn),
        ensures
            final(self).wf(),
            final(self)@ == old(self)@.with_current(
                old(self)@.cur().with_memory(old(self)@.cur().memory.remove(vpn)),
            ),
    {
        let ghost pre = self@;
        let c = self.current.unwrap();
        let mut t = self.take_task(c);
        t.memory_set.unmap(vpn);
        self.update_current(t, Ghost(pre));
    }

    /// The running task starts running the loaded program `image`: its
    /// address space and user context are replaced.
    pub fn exec_current(&mut self, image: AppImage)
        requires
            old(self).wf(),
            old(self)@.current is Some,
        ensures
            final(self).wf(),
            final(self)@ == old(self)@.with_current(
                old(self)@.cur().with_image(image.memory_set@, image.trap_cx),
            ),
    {
        let ghost pre = self@;
        let c = self.current.unwrap();
        let mut t = self.take_task(c);
        t.memory_set = image.memory_set;
        t.trap_cx = image.trap_cx;
        self.update_current(t, Ghost(pre));
    }

    /// The running task's user context.
    pub fn current_trap_cx(&self) -> (cx: TrapContext)
        requires
            self.wf(),
            self@.current is Some,
        ensures
            cx == self@.cur().trap_cx,
    {
        self.tasks.get(&self.current.unwrap()).unwrap().trap_cx
    }

    /// Counts one more call of system call `id` by the running task.
    pub fn count_syscall(&mut self, id: usize)
        requires
            old(self).wf(),
            old(self)@.current is Some,
            id < MAX_SYSCALL_NUM,
            old(self)@.cur().calls[id as int].times < usize::MAX,
        ensures
            final(self).wf(),
            final(self)@ == old(self)@.with_current(
                old(self)@.cur().with_calls(
                    old(self)@.cur().calls.update(
                        id as int,
                        SyscallInfo {
                            times: (old(self)@.cur().calls[id as int].times + 1) as usize,
                            ..old(self)@.cur().calls[id as int]
                        },
                    ),
                ),
            ),
    {
        let ghost pre = self@;
        let c = self.current.unwrap();
        let mut t = self.take_task(c);
        let mut info = t.call[id];
        info.times = info.times + 1;
        t.call[id] = info;
        self.update_current(t, Ghost(pre));
    }

    /// Whether task `pid` is in the table.
    pub fn has_task(&self, pid: usize) -> (r: bool)
        ensures
            r == self@.procs.contains_key(pid),
    {
        self.tasks.contains_key(&pid)
    }

    /// The parent of task `pid`.
    pub fn task_parent(&self, pid: usize) -> (r: Option<usize>)
        requires
            self@.procs.contains_key(pid),
        ensures
            r == self@.procs[pid].parent,
    {
        self.tasks.get(&pid).unwrap().parent
    }

    /// The exit code recorded for task `pid`.
    pub fn task_exit_code(&self, pid: usize) -> (r: i32)
        requires
            self@.procs.contains_key(pid),
        ensures
            r == self@.procs[pid].exit_code,
    {
        self.tasks.get(&pid).unwrap().exit_code
    }

    /// The children of task `pid`.
    pub fn task_children(&self, pid: usize) -> (r: &Vec<usize>)
        requires
            self@.procs.contains_key(pid),
        ensures
            r@ == self@.procs[pid].children,
    {
        &self.tasks.get(&pid).unwrap().children
    }

    /// How often the running task made system call `id`.
    pub fn current_syscall_times(&self, id: usize) -> (r: usize)
        requires
            self.wf(),
            self@.current is Some,
            id < MAX_SYSCALL_NUM,
        ensures
            r == self@.cur().calls[id as int].times,
    {
        self.tasks.get(&self.current.unwrap()).unwrap().call[id].times
    }

    /// Identifier that the next created task will get.
    pub fn next_pid(&self) -> (r: usize)
        ensures
            r == self@.next_pid,
    {
        self.next_pid
    }

    /// Number of ready tasks.
    pub fn ready_len(&self) -> (r: usize)
        ensures
            r == self@.ready.len(),
    {
        self.ready_queue.len()
    }

    /// A kernel whose only task is the initial process, running the loaded
    /// program `initproc_image` and not yet handed to the scheduler.
    pub fn new(initproc_image: AppImage) -> (k: Self)
        ensures
            k.wf(),
            k@.procs == Map::<usize, TaskView>::empty().insert(
                INITPROC_PID,
                TaskView::fresh(
                    INITPROC_PID,
                    None,
                    std_fd_table(),
                    initproc_image.memory_set@,
                    initproc_image.trap_cx,
                ).with_status(TaskStatus::UnInit),
            ),
            k@.ready == Seq::<usize>::empty(),
            k@.current is None,
            k@.next_pid == 1,
    {
        let init = TaskControlBlock {
            task_status: TaskStatus::UnInit,
            task_cx: TaskContext::zero_init(),
            id: INITPROC_PID,
            call: zero_calls(),
            startTime: 0,
            parent: None,
            children: Vec::new(),
            exit_code: 0,
            fd_table: new_std_fd_table(),
            memory_set: initproc_image.memory_set,
            trap_cx: initproc_image.trap_cx,
        };
        let mut k = Kernel {
            tasks: BTreeMap::new(),
            ready_queue: VecDeque::new(),
            current: None,
            next_pid: 1,
        };
        proof {
            assert(init.call@ =~= zero_call_seq());
        }
        k.put_task(INITPROC_PID, init);
        proof {
            assert(procs_view(Map::<usize, TaskControlBlock>::empty()) =~= Map::<usize, TaskView>::empty());
        }
        k
    }
}

} // verus!
