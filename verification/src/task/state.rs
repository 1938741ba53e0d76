//! The abstract state of tasks and of the kernel, the kernel invariant,
//! and the state transitions of the process table and scheduler, with the
//! proofs that each transition keeps the invariant.
use vstd::prelude::*;
use super::context::{TaskContext, zero_cx};
use super::fd_table::FileDesc;
use super::memory_set::MapPermission;
use super::task::{TaskControlBlock, TaskStatus, MAX_SYSCALL_NUM};
use crate::syscall::SyscallInfo;
use crate::trap::TrapContext;

verus! {

/// Process identifier of the initial process, which adopts orphans.
pub const INITPROC_PID: usize = 0;

/// The abstract state of one task.
pub struct TaskView {
    /// Scheduling state.
    pub status: TaskStatus,
    /// Process identifier.
    pub id: usize,
    /// Parent's identifier; `None` for the initial process.
    pub parent: Option<usize>,
    /// Children's identifiers, in order of adoption or creation.
    pub children: Seq<usize>,
    /// Exit code, meaningful once the task exited.
    pub exit_code: i32,
    /// Descriptor table.
    pub fd_table: Seq<Option<FileDesc>>,
    /// Mapped pages and their permissions.
    pub memory: Map<usize, MapPermission>,
    /// Per-system-call counters.
    pub calls: Seq<SyscallInfo>,
    /// Time at which the task was first scheduled.
    pub start_time: usize,
    /// Saved kernel context.
    pub cx: TaskContext,
    /// Saved user context.
    pub trap_cx: TrapContext,
}

impl View for TaskControlBlock {
    type V = TaskView;

    open spec fn view(&self) -> TaskView {
        TaskView {
            status: self.task_status,
            id: self.id,
            parent: self.parent,
            children: self.children@,
            exit_code: self.exit_code,
            fd_table: self.fd_table@,
            memory: self.memory_set@,
            calls: self.call@,
            start_time: self.startTime,
            cx: self.task_cx,
            trap_cx: self.trap_cx,
        }
    }
}

/// Every counter of a fresh task: all zero.
pub open spec fn zero_call_seq() -> Seq<SyscallInfo> {
    Seq::new(MAX_SYSCALL_NUM as nat, |i: int| SyscallInfo { id: 0, times: 0 })
}

impl TaskView {
    /// The same task in scheduling state `s`.
    pub open spec fn with_status(self, s: TaskStatus) -> TaskView {
        TaskView { status: s, ..self }
    }

    /// The same task with children `c`.
    pub open spec fn with_children(self, c: Seq<usize>) -> TaskView {
        TaskView { children: c, ..self }
    }

    /// The same task with parent `p`.
    pub open spec fn with_parent(self, p: Option<usize>) -> TaskView {
        TaskView { parent: p, ..self }
    }

    /// The same task with descriptor table `t`.
    pub open spec fn with_fd_table(self, t: Seq<Option<FileDesc>>) -> TaskView {
        TaskView { fd_table: t, ..self }
    }

    /// The same task with address space `m` and user context `cx`, as after
    /// it loads a new program.
    pub open spec fn with_image(self, m: Map<usize, MapPermission>, cx: TrapContext) -> TaskView {
        TaskView { memory: m, trap_cx: cx, ..self }
    }

    /// The same task with address space `m`.
    pub open spec fn with_memory(self, m: Map<usize, MapPermission>) -> TaskView {
        TaskView { memory: m, ..self }
    }

    /// The same task with counters `c`.
    pub open spec fn with_calls(self, c: Seq<SyscallInfo>) -> TaskView {
        TaskView { calls: c, ..self }
    }

    /// A task created by the kernel: ready to run, with identifier `id`,
    /// parent `parent`, no child, descriptor table `fd_table`, address space
    /// `memory`, user context `trap_cx`, zero counters and a zero kernel
    /// context.
    pub open spec fn fresh(
        id: usize,
        parent: Option<usize>,
        fd_table: Seq<Option<FileDesc>>,
        memory: Map<usize, MapPermission>,
        trap_cx: TrapContext,
    ) -> TaskView {
        TaskView {
            status: TaskStatus::Ready,
            id,
            parent,
            children: Seq::empty(),
            exit_code: 0,
            fd_table,
            memory,
            calls: zero_call_seq(),
            start_time: 0,
            cx: zero_cx(),
            trap_cx,
        }
    }
}

/// The abstract state of the kernel.
pub struct KernelView {
    /// Every task, by process identifier.
    pub procs: Map<usize, TaskView>,
    /// Identifiers of the ready tasks, in the order they run.
    pub ready: Seq<usize>,
    /// Identifier of the task on the processor.
    pub current: Option<usize>,
    /// Identifier that the next created task gets.
    pub next_pid: usize,
}

impl KernelView {
    /// Identifiers: the initial process exists, each task is stored under
    /// its own identifier, and identifiers are below `next_pid`, which fits
    /// an `isize`.
    pub open spec fn ids_wf(self) -> bool {
        &&& self.procs.contains_key(INITPROC_PID)
        &&& self.next_pid < isize::MAX
        &&& forall|p: usize| #[trigger]
            self.procs.contains_key(p) ==> self.procs[p].id == p && p < self.next_pid
                && self.procs[p].calls.len() == MAX_SYSCALL_NUM
    }

    /// Scheduling: the running task is the one on the processor, and the
    /// ready tasks are exactly those in the queue, each once.
    pub open spec fn sched_wf(self) -> bool {
        &&& (self.current matches Some(c) ==> self.procs.contains_key(c)
            && self.procs[c].status == TaskStatus::Running)
        &&& forall|p: usize| #[trigger]
            self.procs.contains_key(p) && self.procs[p].status == TaskStatus::Running
                ==> self.current == Some(p)
        &&& self.ready.no_duplicates()
        &&& forall|i: int|
            0 <= i < self.ready.len() ==> self.procs.contains_key(#[trigger] self.ready[i])
                && self.procs[self.ready[i]].status == TaskStatus::Ready
        &&& forall|p: usize| #[trigger]
            self.procs.contains_key(p) && self.procs[p].status == TaskStatus::Ready
                ==> self.ready.contains(p)
    }

    /// Process tree: each child names its parent, each task but the initial
    /// one is listed once among its parent's children, and an exited task
    /// has no children left.
    pub open spec fn tree_wf(self) -> bool {
        &&& self.procs[INITPROC_PID].parent is None
        &&& self.procs[INITPROC_PID].status != TaskStatus::Exited
        &&& forall|p: usize| #[trigger]
            self.procs.contains_key(p) ==> self.procs[p].parent != Some(p)
        &&& forall|p: usize, i: int|
            #![trigger self.procs[p].children[i]]
            self.procs.contains_key(p) && 0 <= i < self.procs[p].children.len()
                ==> self.procs.contains_key(self.procs[p].children[i])
                && self.procs[self.procs[p].children[i]].parent == Some(p)
        &&& forall|p: usize| #[trigger]
            self.procs.contains_key(p) && p != INITPROC_PID ==> {
                &&& self.procs[p].parent is Some
                &&& self.procs.contains_key(self.procs[p].parent->0)
                &&& self.procs[self.procs[p].parent->0].children.contains(p)
            }
        &&& forall|p: usize| #[trigger]
            self.procs.contains_key(p) ==> self.procs[p].children.no_duplicates()
        &&& forall|p: usize| #[trigger]
            self.procs.contains_key(p) && self.procs[p].status == TaskStatus::Exited
                ==> self.procs[p].children.len() == 0
    }

    /// The kernel invariant.
    pub open spec fn wf(self) -> bool {
        &&& self.ids_wf()
        &&& self.sched_wf()
        &&& self.tree_wf()
    }

    /// The state after the running task gives up the processor: it becomes
    /// ready and joins the end of the ready queue, and no task runs.
    pub open spec fn suspended(self) -> KernelView {
        let c = self.current->0;
        KernelView {
            procs: self.procs.insert(c, self.procs[c].with_status(TaskStatus::Ready)),
            ready: self.ready.push(c),
            current: None,
            next_pid: self.next_pid,
        }
    }

    /// The state after the running task exits with `exit_code`: it becomes
    /// an exited task that keeps its exit code for its parent, its address
    /// space is released, its children are handed to the initial process
    /// (appended to that process's children, in order), and no task runs.
    pub open spec fn exited(self, exit_code: i32) -> KernelView {
        let c = self.current->0;
        let kids = self.procs[c].children;
        KernelView {
            procs: Map::new(
                |p: usize| self.procs.contains_key(p),
                |p: usize|
                    if p == c {
                        TaskView {
                            status: TaskStatus::Exited,
                            exit_code,
                            children: Seq::empty(),
                            memory: Map::empty(),
                            ..self.procs[c]
                        }
                    } else if p == INITPROC_PID {
                        self.procs[p].with_children(self.procs[p].children + kids)
                    } else if kids.contains(p) {
                        self.procs[p].with_parent(Some(INITPROC_PID))
                    } else {
                        self.procs[p]
                    },
            ),
            ready: self.ready,
            current: None,
            next_pid: self.next_pid,
        }
    }

    /// The state after the running task gets a new child `child`: the child
    /// is stored under the next identifier, appended to the running task's
    /// children and to the ready queue.
    pub open spec fn with_child(self, child: TaskView) -> KernelView {
        let c = self.current->0;
        let n = self.next_pid;
        KernelView {
            procs: self.procs.insert(c, self.procs[c].with_children(self.procs[c].children.push(n)))
                .insert(n, child),
            ready: self.ready.push(n),
            current: self.current,
            next_pid: (n + 1) as usize,
        }
    }

    /// The state after the running task collects its exited child at
    /// position `idx` of its children: the child leaves the table and the
    /// list of children.
    pub open spec fn reaped(self, idx: int) -> KernelView {
        let c = self.current->0;
        let r = self.procs[c].children[idx];
        KernelView {
            procs: self.procs.remove(r).insert(
                c,
                self.procs[c].with_children(self.procs[c].children.remove(idx)),
            ),
            ..self
        }
    }

    /// The state after the running task's entry `t` is replaced by `t`.
    pub open spec fn with_current(self, t: TaskView) -> KernelView {
        KernelView { procs: self.procs.insert(self.current->0, t), ..self }
    }

    /// The running task's abstract state.
    pub open spec fn cur(self) -> TaskView {
        self.procs[self.current->0]
    }

    /// The state after the processor, found idle, takes the first ready
    /// task (if any) and runs it.
    pub open spec fn run_next(self) -> KernelView {
        if self.ready.len() == 0 {
            self
        } else {
            let n = self.ready[0];
            KernelView {
                procs: self.procs.insert(n, self.procs[n].with_status(TaskStatus::Running)),
                ready: self.ready.drop_first(),
                current: Some(n),
                next_pid: self.next_pid,
            }
        }
    }
}

/// Changing, in one task, only what the invariant does not speak of (its
/// descriptor table, address space, counters, exit code, start time or
/// context) keeps the invariant.
pub proof fn lemma_wf_update_resources(o: KernelView, pid: usize, t: TaskView)
    requires
        o.wf(),
        o.procs.contains_key(pid),
        t.status == o.procs[pid].status,
        t.id == o.procs[pid].id,
        t.parent == o.procs[pid].parent,
        t.children == o.procs[pid].children,
        t.calls.len() == MAX_SYSCALL_NUM,
    ensures
        (KernelView { procs: o.procs.insert(pid, t), ..o }).wf(),
{
    let n = KernelView { procs: o.procs.insert(pid, t), ..o };
    assert forall|p: usize| #[trigger] n.procs.contains_key(p) implies n.procs[p].id == p
        && p < n.next_pid && n.procs[p].calls.len() == MAX_SYSCALL_NUM by {
        assert(o.procs.contains_key(p));
    }
    assert forall|p: usize, i: int|
        #![trigger n.procs[p].children[i]]
        n.procs.contains_key(p) && 0 <= i < n.procs[p].children.len()
        implies n.procs.contains_key(n.procs[p].children[i])
            && n.procs[n.procs[p].children[i]].parent == Some(p) by {
        assert(o.procs[p].children[i] == n.procs[p].children[i]);
    }
    assert forall|p: usize| #[trigger] n.procs.contains_key(p) && p != INITPROC_PID implies {
        &&& n.procs[p].parent is Some
        &&& n.procs.contains_key(n.procs[p].parent->0)
        &&& n.procs[n.procs[p].parent->0].children.contains(p)
    } by {
        assert(o.procs.contains_key(p));
    }
    assert forall|i: int| 0 <= i < n.ready.len() implies n.procs.contains_key(#[trigger] n.ready[i])
        && n.procs[n.ready[i]].status == TaskStatus::Ready by {
        assert(o.procs.contains_key(o.ready[i]));
    }
}

/// Suspending the running task keeps the invariant.
pub proof fn lemma_suspended_wf(o: KernelView)
    requires
        o.wf(),
        o.current is Some,
    ensures
        o.suspended().wf(),
{
    let c = o.current->0;
    let n = o.suspended();
    assert(!o.ready.contains(c));
    assert forall|p: usize, i: int|
        #![trigger n.procs[p].children[i]]
        n.procs.contains_key(p) && 0 <= i < n.procs[p].children.len()
        implies n.procs.contains_key(n.procs[p].children[i])
            && n.procs[n.procs[p].children[i]].parent == Some(p) by {
        assert(o.procs[p].children[i] == n.procs[p].children[i]);
    }
    assert forall|p: usize| #[trigger] n.procs.contains_key(p) && p != INITPROC_PID implies {
        &&& n.procs[p].parent is Some
        &&& n.procs.contains_key(n.procs[p].parent->0)
        &&& n.procs[n.procs[p].parent->0].children.contains(p)
    } by {
        assert(o.procs.contains_key(p));
    }
    assert forall|i: int| 0 <= i < n.ready.len() implies n.procs.contains_key(#[trigger] n.ready[i])
        && n.procs[n.ready[i]].status == TaskStatus::Ready by {
        if i < o.ready.len() {
            assert(n.ready[i] == o.ready[i]);
        }
    }
    assert forall|p: usize| #[trigger] n.procs.contains_key(p) && n.procs[p].status == TaskStatus::Ready
        implies n.ready.contains(p) by {
        if p != c {
            assert(o.ready.contains(p));
            let j = choose|j: int| 0 <= j < o.ready.len() && o.ready[j] == p;
            assert(n.ready[j] == p);
        } else {
            assert(n.ready[o.ready.len() as int] == p);
        }
    }
}

/// Exiting the running task, other than the initial process, keeps the
/// invariant.
pub proof fn lemma_exited_wf(o: KernelView, exit_code: i32)
    requires
        o.wf(),
        o.current is Some,
        o.current->0 != INITPROC_PID,
    ensures
        o.exited(exit_code).wf(),
{
    let c = o.current->0;
    let kids = o.procs[c].children;
    let n = o.exited(exit_code);
    let init = INITPROC_PID;
    assert(n.procs.dom() =~= o.procs.dom());
    assert forall|p: usize| #[trigger] n.procs.contains_key(p) implies n.procs[p].id == p
        && p < n.next_pid by {
        assert(o.procs.contains_key(p));
    }
    // every child of c names c as its parent, so c and init are not among them
    assert(!kids.contains(c));
    assert(!kids.contains(init));
    assert forall|p: usize| #[trigger] n.procs.contains_key(p) && n.procs[p].status == TaskStatus::Running
        implies n.current == Some(p) by {
        assert(o.procs.contains_key(p));
        assert(o.procs[p].status == TaskStatus::Running);
    }
    assert forall|i: int| 0 <= i < n.ready.len() implies n.procs.contains_key(#[trigger] n.ready[i])
        && n.procs[n.ready[i]].status == TaskStatus::Ready by {
        assert(o.procs.contains_key(o.ready[i]));
        assert(o.procs[o.ready[i]].status == TaskStatus::Ready);
    }
    assert forall|p: usize| #[trigger] n.procs.contains_key(p) && n.procs[p].status == TaskStatus::Ready
        implies n.ready.contains(p) by {
        assert(o.procs.contains_key(p));
    }
    assert forall|p: usize, i: int|
        #![trigger n.procs[p].children[i]]
        n.procs.contains_key(p) && 0 <= i < n.procs[p].children.len()
        implies n.procs.contains_key(n.procs[p].children[i])
            && n.procs[n.procs[p].children[i]].parent == Some(p) by {
        let x = n.procs[p].children[i];
        if p == c {
        } else if p == init {
            let oc = o.procs[init].children;
            if i < oc.len() {
                assert(x == oc[i]);
                assert(o.procs[oc[i]].parent == Some(init));
                if kids.contains(x) {
                    let j = choose|j: int| 0 <= j < kids.len() && kids[j] == x;
                    assert(o.procs[kids[j]].parent == Some(c));
                }
            } else {
                assert(x == kids[i - oc.len()]);
                assert(o.procs[kids[i - oc.len()]].parent == Some(c));
                assert(kids.contains(x));
            }
        } else {
            assert(x == o.procs[p].children[i]);
            assert(o.procs[o.procs[p].children[i]].parent == Some(p));
            if kids.contains(x) {
                let j = choose|j: int| 0 <= j < kids.len() && kids[j] == x;
                assert(o.procs[kids[j]].parent == Some(c));
            }
        }
    }
    assert forall|p: usize| #[trigger] n.procs.contains_key(p) && p != INITPROC_PID implies {
        &&& n.procs[p].parent is Some
        &&& n.procs.contains_key(n.procs[p].parent->0)
        &&& n.procs[n.procs[p].parent->0].children.contains(p)
    } by {
        assert(o.procs.contains_key(p));
        let q = o.procs[p].parent->0;
        assert(o.procs[q].children.contains(p));
        if kids.contains(p) {
            let j = choose|j: int| 0 <= j < kids.len() && kids[j] == p;
            let oc = o.procs[init].children;
            assert((oc + kids)[oc.len() + j] == p);
        } else if p == c {
            if q == init {
                let j = choose|j: int| 0 <= j < o.procs[init].children.len() && o.procs[init].children[j] == p;
                assert((o.procs[init].children + kids)[j] == p);
            }
        } else {
            if q == c {
                assert(kids.contains(p));
            }
            if q == init {
                let j = choose|j: int| 0 <= j < o.procs[init].children.len() && o.procs[init].children[j] == p;
                assert((o.procs[init].children + kids)[j] == p);
            }
        }
    }
    assert forall|p: usize| #[trigger] n.procs.contains_key(p) implies n.procs[p].children.no_duplicates() by {
        if p == init {
            let oc = o.procs[init].children;
            let all = oc + kids;
            assert forall|i: int, j: int| 0 <= i < all.len() && 0 <= j < all.len() && i != j
                implies all[i] != all[j] by {
                if i < oc.len() && j >= oc.len() {
                    assert(o.procs[oc[i]].parent == Some(init));
                    assert(o.procs[kids[j - oc.len()]].parent == Some(c));
                }
                if j < oc.len() && i >= oc.len() {
                    assert(o.procs[oc[j]].parent == Some(init));
                    assert(o.procs[kids[i - oc.len()]].parent == Some(c));
                }
            }
        }
    }
    assert forall|p: usize| #[trigger] n.procs.contains_key(p) implies n.procs[p].parent != Some(p) by {
        assert(o.procs.contains_key(p));
    }
    assert forall|p: usize| #[trigger] n.procs.contains_key(p) && n.procs[p].status == TaskStatus::Exited
        implies n.procs[p].children.len() == 0 by {
        assert(o.procs.contains_key(p));
    }
}

/// Adding a ready child of the running task under the next identifier keeps
/// the invariant.
pub proof fn lemma_with_child_wf(o: KernelView, child: TaskView)
    requires
        o.wf(),
        o.current is Some,
        o.next_pid + 1 < isize::MAX,
        child.status == TaskStatus::Ready,
        child.id == o.next_pid,
        child.parent == o.current,
        child.children.len() == 0,
        child.calls.len() == MAX_SYSCALL_NUM,
    ensures
        o.with_child(child).wf(),
{
    let c = o.current->0;
    let np = o.next_pid;
    let n = o.with_child(child);
    assert(!o.procs.contains_key(np));
    assert(!o.ready.contains(np)) by {
        if o.ready.contains(np) {
            let j = choose|j: int| 0 <= j < o.ready.len() && o.ready[j] == np;
            assert(o.procs.contains_key(o.ready[j]));
        }
    }
    assert(!o.procs[c].children.contains(np)) by {
        if o.procs[c].children.contains(np) {
            let j = choose|j: int| 0 <= j < o.procs[c].children.len() && o.procs[c].children[j] == np;
            assert(o.procs.contains_key(o.procs[c].children[j]));
        }
    }
    assert forall|p: usize| #[trigger] n.procs.contains_key(p) implies n.procs[p].id == p
        && p < n.next_pid && n.procs[p].calls.len() == MAX_SYSCALL_NUM by {
        if p != np {
            assert(o.procs.contains_key(p));
        }
    }
    assert forall|p: usize| #[trigger] n.procs.contains_key(p) && n.procs[p].status == TaskStatus::Running
        implies n.current == Some(p) by {
        if p != np {
            assert(o.procs.contains_key(p));
        }
    }
    assert forall|i: int| 0 <= i < n.ready.len() implies n.procs.contains_key(#[trigger] n.ready[i])
        && n.procs[n.ready[i]].status == TaskStatus::Ready by {
        if i < o.ready.len() {
            assert(n.ready[i] == o.ready[i]);
            assert(o.procs.contains_key(o.ready[i]));
        }
    }
    assert forall|p: usize| #[trigger] n.procs.contains_key(p) && n.procs[p].status == TaskStatus::Ready
        implies n.ready.contains(p) by {
        if p != np {
            assert(o.ready.contains(p));
            let j = choose|j: int| 0 <= j < o.ready.len() && o.ready[j] == p;
            assert(n.ready[j] == p);
        } else {
            assert(n.ready[o.ready.len() as int] == p);
        }
    }
    assert forall|p: usize, i: int|
        #![trigger n.procs[p].children[i]]
        n.procs.contains_key(p) && 0 <= i < n.procs[p].children.len()
        implies n.procs.contains_key(n.procs[p].children[i])
            && n.procs[n.procs[p].children[i]].parent == Some(p) by {
        if p != np {
            assert(o.procs.contains_key(p));
            if p == c && i == o.procs[c].children.len() {
            } else {
                assert(n.procs[p].children[i] == o.procs[p].children[i]);
                assert(o.procs.contains_key(o.procs[p].children[i]));
            }
        }
    }
    assert forall|p: usize| #[trigger] n.procs.contains_key(p) && p != INITPROC_PID implies {
        &&& n.procs[p].parent is Some
        &&& n.procs.contains_key(n.procs[p].parent->0)
        &&& n.procs[n.procs[p].parent->0].children.contains(p)
    } by {
        if p == np {
            assert(n.procs[c].children[o.procs[c].children.len() as int] == np);
        } else {
            assert(o.procs.contains_key(p));
            let q = o.procs[p].parent->0;
            assert(o.procs[q].children.contains(p));
            if q == c {
                let j = choose|j: int| 0 <= j < o.procs[c].children.len() && o.procs[c].children[j] == p;
                assert(n.procs[c].children[j] == p);
            }
        }
    }
    assert forall|p: usize| #[trigger] n.procs.contains_key(p) implies n.procs[p].children.no_duplicates() by {
        if p != np {
            assert(o.procs.contains_key(p));
        }
    }
    assert forall|p: usize| #[trigger] n.procs.contains_key(p) implies n.procs[p].parent != Some(p) by {
        if p != np {
            assert(o.procs.contains_key(p));
        }
    }
    assert forall|p: usize| #[trigger] n.procs.contains_key(p) && n.procs[p].status == TaskStatus::Exited
        implies n.procs[p].children.len() == 0 by {
        if p != np {
            assert(o.procs.contains_key(p));
        }
    }
}

/// Collecting an exited child of the running task keeps the invariant.
pub proof fn lemma_reaped_wf(o: KernelView, idx: int)
    requires
        o.wf(),
        o.current is Some,
        0 <= idx < o.cur().children.len(),
        o.procs[o.cur().children[idx]].status == TaskStatus::Exited,
    ensures
        o.reaped(idx).wf(),
{
    let c = o.current->0;
    let kids = o.procs[c].children;
    let r = kids[idx];
    let n = o.reaped(idx);
    assert(o.procs.contains_key(r));
    assert(o.procs[r].parent == Some(c));
    assert(r != c);
    assert(r != INITPROC_PID);
    assert(o.procs[r].children.len() == 0);
    assert forall|p: usize| #[trigger] n.procs.contains_key(p) implies n.procs[p].id == p
        && p < n.next_pid by {
        assert(o.procs.contains_key(p));
    }
    assert forall|p: usize| #[trigger] n.procs.contains_key(p) && n.procs[p].status == TaskStatus::Running
        implies n.current == Some(p) by {
        assert(o.procs.contains_key(p));
    }
    assert forall|i: int| 0 <= i < n.ready.len() implies n.procs.contains_key(#[trigger] n.ready[i])
        && n.procs[n.ready[i]].status == TaskStatus::Ready by {
        assert(o.procs.contains_key(o.ready[i]));
    }
    assert forall|p: usize| #[trigger] n.procs.contains_key(p) && n.procs[p].status == TaskStatus::Ready
        implies n.ready.contains(p) by {
        assert(o.procs.contains_key(p));
    }
    assert forall|p: usize, i: int|
        #![trigger n.procs[p].children[i]]
        n.procs.contains_key(p) && 0 <= i < n.procs[p].children.len()
        implies n.procs.contains_key(n.procs[p].children[i])
            && n.procs[n.procs[p].children[i]].parent == Some(p) by {
        assert(o.procs.contains_key(p));
        if p == c {
            let j = if i < idx { i } else { i + 1 };
            assert(n.procs[p].children[i] == kids[j]);
            assert(o.procs.contains_key(kids[j]));
            assert(kids[j] != r);
        } else {
            assert(n.procs[p].children[i] == o.procs[p].children[i]);
            assert(o.procs.contains_key(o.procs[p].children[i]));
            assert(o.procs[p].children[i] != r);
        }
    }
    assert forall|p: usize| #[trigger] n.procs.contains_key(p) && p != INITPROC_PID implies {
        &&& n.procs[p].parent is Some
        &&& n.procs.contains_key(n.procs[p].parent->0)
        &&& n.procs[n.procs[p].parent->0].children.contains(p)
    } by {
        assert(o.procs.contains_key(p));
        let q = o.procs[p].parent->0;
        assert(o.procs[q].children.contains(p));
        assert(q != r) by {
            if q == r {
                let j = choose|j: int| 0 <= j < o.procs[r].children.len() && o.procs[r].children[j] == p;
            }
        }
        if q == c {
            let j = choose|j: int| 0 <= j < kids.len() && kids[j] == p;
            assert(j != idx);
            let j2 = if j < idx { j } else { j - 1 };
            assert(n.procs[c].children[j2] == p);
        }
    }
    assert forall|p: usize| #[trigger] n.procs.contains_key(p) implies n.procs[p].children.no_duplicates() by {
        assert(o.procs.contains_key(p));
        if p == c {
            let m = kids.remove(idx);
            assert forall|i: int, j: int| 0 <= i < m.len() && 0 <= j < m.len() && i != j implies m[i] != m[j] by {
                let i2 = if i < idx { i } else { i + 1 };
                let j2 = if j < idx { j } else { j + 1 };
                assert(m[i] == kids[i2]);
                assert(m[j] == kids[j2]);
            }
        }
    }
    assert forall|p: usize| #[trigger] n.procs.contains_key(p) implies n.procs[p].parent != Some(p) by {
        assert(o.procs.contains_key(p));
    }
    assert forall|p: usize| #[trigger] n.procs.contains_key(p) && n.procs[p].status == TaskStatus::Exited
        implies n.procs[p].children.len() == 0 by {
        assert(o.procs.contains_key(p));
    }
}

/// Replacing the running task's entry twice is replacing it once, by the
/// second value.
pub proof fn lemma_with_current_twice(o: KernelView, a: TaskView, b: TaskView)
    ensures
        o.with_current(a).with_current(b) == o.with_current(b),
        o.with_current(a).cur() == a,
{
    assert(o.with_current(a).with_current(b).procs =~= o.with_current(b).procs);
}

/// Replacing the running task's entry by itself changes nothing.
pub proof fn lemma_with_current_same(o: KernelView)
    requires
        o.current is Some,
        o.procs.contains_key(o.current->0),
    ensures
        o.with_current(o.cur()) == o,
{
    assert(o.with_current(o.cur()).procs =~= o.procs);
}

/// What an exit does, task by task: the exiting task is kept as an exited
/// task with the given exit code, no children and no mapped page; each of
/// its children now has the initial process as parent and is listed among
/// the initial process's children after the ones it had; every other task
/// is untouched, and no task runs.
pub proof fn lemma_exited_effects(o: KernelView, exit_code: i32)
    requires
        o.wf(),
        o.current is Some,
        o.current->0 != INITPROC_PID,
    ensures
        ({
            let c = o.current->0;
            let e = o.exited(exit_code);
            let kids = o.procs[c].children;
            &&& e.current is None
            &&& e.ready == o.ready
            &&& e.procs.dom() == o.procs.dom()
            &&& e.procs[c].status == TaskStatus::Exited
            &&& e.procs[c].exit_code == exit_code
            &&& e.procs[c].children.len() == 0
            &&& e.procs[c].memory.dom().len() == 0
            &&& e.procs[c].parent == o.procs[c].parent
            &&& e.procs[INITPROC_PID].children == o.procs[INITPROC_PID].children + kids
            &&& forall|i: int| 0 <= i < kids.len() ==> e.procs[#[trigger] kids[i]].parent == Some(
                INITPROC_PID,
            )
            &&& forall|p: usize|
                o.procs.contains_key(p) && p != c && p != INITPROC_PID && !kids.contains(p)
                    ==> #[trigger] e.procs[p] == o.procs[p]
        }),
{
    let c = o.current->0;
    let kids = o.procs[c].children;
    let e = o.exited(exit_code);
    assert(e.procs.dom() =~= o.procs.dom());
    assert(e.procs[c].memory.dom() =~= Set::<usize>::empty());
    assert forall|i: int| 0 <= i < kids.len() implies e.procs[#[trigger] kids[i]].parent == Some(
        INITPROC_PID,
    ) by {
        assert(o.procs[kids[i]].parent == Some(c));
        assert(o.procs.contains_key(kids[i]));
        assert(kids.contains(kids[i]));
    }
}

/// The idle processor runs the task at the head of the ready queue, which
/// leaves the queue; with an empty queue nothing changes.
pub proof fn lemma_run_next_takes_head(o: KernelView)
    ensures
        o.ready.len() > 0 ==> {
            &&& o.run_next().current == Some(o.ready[0])
            &&& o.run_next().ready == o.ready.subrange(1, o.ready.len() as int)
            &&& o.run_next().procs[o.ready[0]].status == TaskStatus::Running
        },
        o.ready.len() == 0 ==> o.run_next() == o,
{
    if o.ready.len() > 0 {
        assert(o.ready.drop_first() =~= o.ready.subrange(1, o.ready.len() as int));
    }
}

/// What creating a child does: the child is stored under the next
/// identifier with the running task as parent, joins the end of the ready
/// queue and the end of its parent's children, and identifiers move on by
/// one; every other task is untouched.
pub proof fn lemma_with_child_effects(o: KernelView, child: TaskView)
    requires
        o.wf(),
        o.current is Some,
    ensures
        ({
            let c = o.current->0;
            let n = o.with_child(child);
            &&& n.procs[o.next_pid] == child
            &&& n.procs[c].children == o.procs[c].children.push(o.next_pid)
            &&& n.ready == o.ready.push(o.next_pid)
            &&& n.current == o.current
            &&& n.next_pid == o.next_pid + 1
            &&& n.procs.dom() == o.procs.dom().insert(o.next_pid)
            &&& forall|p: usize|
                o.procs.contains_key(p) && p != c ==> #[trigger] n.procs[p] == o.procs[p]
        }),
{
    let c = o.current->0;
    assert(o.procs.contains_key(c));
    assert(c != o.next_pid);
    assert(o.with_child(child).procs.dom() =~= o.procs.dom().insert(o.next_pid));
}

} // verus!
