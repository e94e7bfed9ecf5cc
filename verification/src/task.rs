//! Task registry and the cooperative round-robin scheduler.
//!
//! A [`TaskManager`] owns a fixed table of task control blocks and a parallel
//! diagnostics table. Task identity is the table index, assigned once and
//! never reused. Scheduling functions return which task's saved context the
//! caller must restore; the register-level switch itself belongs to the
//! surrounding kernel's trampoline.

use vstd::prelude::*;

verus! {

use vstd::arithmetic::div_mod::{
    lemma_add_mod_noop, lemma_mod_add_multiples_vanish, lemma_mod_bound, lemma_small_mod,
};
use crate::syscall::TaskInfo;
use crate::{MAX_APP_NUM, MAX_SYSCALL_NUM};

/// Lifecycle status of one task slot. `UnInit` exists only before
/// initialization; `Exited` is terminal.
#[derive(Clone, Copy, Debug, PartialEq, Eq, Structural)]
pub enum TaskStatus {
    /// slot not yet initialized
    UnInit,
    /// runnable, waiting to be scheduled
    Ready,
    /// presently executing
    Running,
    /// finished for good; never scheduled again
    Exited,
}

/// How many callee-saved registers a context switch must preserve.
pub const SAVED_REGS: usize = 12;

/// Saved execution state sufficient to resume a task: a resume address, the
/// stack pointer active at the resumption point, and the callee-saved
/// registers a switch must carry across calls.
pub struct TaskContext {
    /// resume address: where execution continues when this context is restored
    pub ra: usize,
    /// stack pointer at the resumption point
    pub sp: usize,
    /// callee-saved registers
    pub s: Vec<usize>,
}

impl TaskContext {
    /// The register file has its full complement of saved registers.
    pub open spec fn wf(self) -> bool {
        self.s.len() == SAVED_REGS
    }

    /// All fields at zero.
    pub open spec fn is_zeroed(self) -> bool {
        &&& self.ra == 0
        &&& self.sp == 0
        &&& forall|j: int| 0 <= j < self.s.len() ==> self.s[j] == 0
    }

    /// A zeroed placeholder, used only as a throwaway save target while
    /// bootstrapping into the first task.
    pub fn zero_init() -> (cx: TaskContext)
        ensures
            cx.wf(),
            cx.is_zeroed(),
    {
        TaskContext { ra: 0, sp: 0, s: zeroed_regs() }
    }

    /// A context that, once restored, enters the restore trampoline at
    /// `restore_entry` with `kstack_ptr` as its initial stack: the shape the
    /// loader's preloaded entry contexts take.
    pub fn goto_restore(restore_entry: usize, kstack_ptr: usize) -> (cx: TaskContext)
        ensures
            cx.wf(),
            cx.ra == restore_entry,
            cx.sp == kstack_ptr,
            forall|j: int| 0 <= j < cx.s.len() ==> cx.s[j] == 0,
    {
        TaskContext { ra: restore_entry, sp: kstack_ptr, s: zeroed_regs() }
    }
}

/// A register file of zeros.
fn zeroed_regs() -> (s: Vec<usize>)
    ensures
        s.len() == SAVED_REGS,
        forall|j: int| 0 <= j < SAVED_REGS ==> s[j] == 0,
{
    let mut s: Vec<usize> = Vec::new();
    let mut i: usize = 0;
    while i < SAVED_REGS
        invariant
            i <= SAVED_REGS,
            s.len() == i,
            forall|j: int| 0 <= j < i ==> s[j] == 0,
        decreases SAVED_REGS - i,
    {
        s.push(0);
        i += 1;
    }
    s
}

/// The first `Ready` status at wrapped index `(cur + d) % len`, probing
/// offsets `d, d + 1, ..., len` in that order, or `None` when none of those
/// probes is `Ready`.
pub open spec fn find_ready_from(st: Seq<TaskStatus>, cur: int, d: int) -> Option<int>
    decreases st.len() + 1 - d,
    when 1 <= d <= st.len() + 1 && st.len() >= 1
{
    let n = st.len() as int;
    if d > n {
        None
    } else if st[(cur + d) % n] is Ready {
        Some((cur + d) % n)
    } else {
        find_ready_from(st, cur, d + 1)
    }
}

/// The round-robin choice: the first `Ready` task scanning ids upward from
/// `cur + 1`, wrapping modulo the task count, with `cur` itself probed last.
pub open spec fn spec_find_next(st: Seq<TaskStatus>, cur: int) -> Option<int> {
    find_ready_from(st, cur, 1)
}

/// What the scan yields: a `Some` id is in range and `Ready`; a `None` means
/// every probe from offset `d` onward saw a task that was not `Ready`.
pub proof fn lemma_find_ready_from_props(st: Seq<TaskStatus>, cur: int, d: int)
    requires
        st.len() >= 1,
        0 <= cur < st.len(),
        1 <= d <= st.len() + 1,
    ensures
        match find_ready_from(st, cur, d) {
            Some(id) => 0 <= id < st.len() && st[id] is Ready,
            None => forall|dd: int|
                d <= dd <= st.len()
                    ==> !((#[trigger] st[(cur + dd) % (st.len() as int)]) is Ready),
        },
    decreases st.len() + 1 - d,
{
    let n = st.len() as int;
    if d <= n {
        lemma_mod_bound(cur + d, n);
        if !(st[(cur + d) % n] is Ready) {
            lemma_find_ready_from_props(st, cur, d + 1);
        }
    }
}

/// A `Some` result of the round-robin scan names a `Ready` task in range.
pub proof fn lemma_find_next_is_ready(st: Seq<TaskStatus>, cur: int)
    requires
        st.len() >= 1,
        0 <= cur < st.len(),
        spec_find_next(st, cur) is Some,
    ensures
        0 <= spec_find_next(st, cur)->Some_0 < st.len(),
        st[spec_find_next(st, cur)->Some_0] is Ready,
{
    lemma_find_ready_from_props(st, cur, 1);
}

/// Terminal status is sticky at selection: an `Exited` task is never the
/// round-robin choice.
pub proof fn lemma_exited_never_selected(st: Seq<TaskStatus>, cur: int, i: int)
    requires
        st.len() >= 1,
        0 <= cur < st.len(),
        0 <= i < st.len(),
        st[i] is Exited,
    ensures
        spec_find_next(st, cur) != Some(i),
{
    if spec_find_next(st, cur) is Some {
        lemma_find_next_is_ready(st, cur);
    }
}

/// When the scan comes back empty, no task anywhere in the table is `Ready`:
/// the offsets `1..=len` from `cur` cover every id.
pub proof fn lemma_find_none_no_ready(st: Seq<TaskStatus>, cur: int)
    requires
        st.len() >= 1,
        0 <= cur < st.len(),
        spec_find_next(st, cur) is None,
    ensures
        forall|i: int| 0 <= i < st.len() ==> !((#[trigger] st[i]) is Ready),
{
    let n = st.len() as int;
    lemma_find_ready_from_props(st, cur, 1);
    assert forall|i: int| 0 <= i < n implies !((#[trigger] st[i]) is Ready) by {
        let dd = if i > cur { i - cur } else { i - cur + n };
        if i > cur {
            lemma_small_mod(i as nat, n as nat);
            assert((cur + dd) % n == i);
        } else {
            lemma_mod_add_multiples_vanish(i, n);
            lemma_small_mod(i as nat, n as nat);
            assert((cur + dd) % n == i);
        }
        assert(!(st[(cur + dd) % n] is Ready));
    }
}

/// Halt on exhaustion: with no `Ready` task left, the scan selects nothing.
pub proof fn lemma_no_ready_halts(st: Seq<TaskStatus>, cur: int)
    requires
        st.len() >= 1,
        0 <= cur < st.len(),
        forall|i: int| 0 <= i < st.len() ==> !((#[trigger] st[i]) is Ready),
    ensures
        spec_find_next(st, cur) is None,
{
    if spec_find_next(st, cur) is Some {
        lemma_find_next_is_ready(st, cur);
    }
}

/// Halt on exhaustion, in the form the end of a workload takes: when every
/// task has `Exited`, the scheduling scan selects nothing.
pub proof fn lemma_all_exited_halts(st: Seq<TaskStatus>, cur: int)
    requires
        st.len() >= 1,
        0 <= cur < st.len(),
        forall|i: int| 0 <= i < st.len() ==> (#[trigger] st[i]) is Exited,
    ensures
        spec_find_next(st, cur) is None,
{
    lemma_no_ready_halts(st, cur);
}

/// A task that is still `Ready` is always found: in particular the scan
/// reaches `cur` itself at offset `len`.
pub proof fn lemma_cur_ready_found(st: Seq<TaskStatus>, cur: int)
    requires
        st.len() >= 1,
        0 <= cur < st.len(),
        st[cur] is Ready,
    ensures
        spec_find_next(st, cur) is Some,
{
    if spec_find_next(st, cur) is None {
        lemma_find_none_no_ready(st, cur);
    }
}

/// Round-robin order, one step: with every task `Ready`, the scan picks the
/// id right after `cur`, wrapping modulo the task count.
pub proof fn lemma_round_robin_step(st: Seq<TaskStatus>, cur: int)
    requires
        st.len() >= 1,
        0 <= cur < st.len(),
        forall|i: int| 0 <= i < st.len() ==> (#[trigger] st[i]) is Ready,
    ensures
        spec_find_next(st, cur) == Some((cur + 1) % (st.len() as int)),
{
    let n = st.len() as int;
    lemma_mod_bound(cur + 1, n);
    assert(st[(cur + 1) % n] is Ready);
}

/// One task slot: saved context plus lifecycle status. The slot index is the
/// task id, stable for the task's lifetime.
pub struct TaskControlBlock {
    /// saved execution state, restored when the task is scheduled
    pub task_cx: TaskContext,
    /// lifecycle status
    pub task_status: TaskStatus,
}

/// The mutable registry: the task table, the parallel diagnostics table, and
/// the id of the task presently `Running` (meaningful once scheduling has
/// started).
pub struct TaskManagerInner {
    /// task control blocks, indexed by task id
    pub tasks: Vec<TaskControlBlock>,
    /// diagnostics records, indexed by task id
    pub task_infos: Vec<TaskInfo>,
    /// id of the current `Running` task
    pub current_task: usize,
}

/// The scheduler. One value of this type is created at system start and owns
/// all task state for the rest of the run; `&mut` access is the
/// exclusive-access discipline, so a second simultaneous mutable view cannot
/// be formed at all.
pub struct TaskManager {
    /// total number of tasks, fixed at initialization
    pub num_app: usize,
    /// the registry behind the exclusive-access boundary
    pub inner: TaskManagerInner,
}

impl TaskManager {
    /// Well-formedness: the two tables have one entry per task, the current
    /// task id is in range, every diagnostics record has its full counter
    /// table, and every saved context has its full register file.
    pub open spec fn wf(self) -> bool {
        &&& 1 <= self.num_app <= MAX_APP_NUM
        &&& self.inner.tasks.len() == self.num_app
        &&& self.inner.task_infos.len() == self.num_app
        &&& self.inner.current_task < self.num_app
        &&& forall|i: int| 0 <= i < self.num_app ==> (#[trigger] self.inner.task_infos[i]).wf()
        &&& forall|i: int| 0 <= i < self.num_app ==> (#[trigger] self.inner.tasks[i]).task_cx.wf()
    }

    /// The lifecycle statuses of all task slots, in id order.
    pub open spec fn statuses(self) -> Seq<TaskStatus> {
        self.inner.tasks@.map(|i: int, t: TaskControlBlock| t.task_status)
    }

    /// Exactly one task is `Running`, and `current_task` names it.
    pub open spec fn one_running(self) -> bool {
        &&& self.statuses()[self.inner.current_task as int] is Running
        &&& forall|i: int|
            0 <= i < self.num_app && i != self.inner.current_task
                ==> !((#[trigger] self.statuses()[i]) is Running)
    }

    /// The state `new` establishes: every task `Ready`, every diagnostics
    /// record zeroed, and the current-task index at 0.
    pub open spec fn freshly_loaded(self) -> bool {
        &&& self.inner.current_task == 0
        &&& forall|i: int| 0 <= i < self.num_app ==> (#[trigger] self.statuses()[i]) is Ready
        &&& forall|i: int|
            0 <= i < self.num_app ==> {
                let info = #[trigger] self.inner.task_infos[i];
                &&& info.status is UnInit
                &&& info.time == 0
                &&& forall|j: int| 0 <= j < info.syscall_times.len() ==> info.syscall_times[j] == 0
            }
    }

    /// The first-schedule sentinel: a diagnostics record's `time` is 0 exactly
    /// when its task has never been scheduled (its recorded status is still
    /// `UnInit`). Every scheduling operation preserves this; only the
    /// elapsed-time sampler may break it, by writing an encoding that can
    /// itself be 0 (see `get_time_val`).
    pub open spec fn time_sentinel(self) -> bool {
        forall|i: int|
            0 <= i < self.num_app
                ==> ((#[trigger] self.inner.task_infos[i]).time == 0
                    <==> self.inner.task_infos[i].status is UnInit)
    }

    /// Build the registry from the loader's preloaded entry contexts: task id
    /// `i` gets a context that enters the restore trampoline on its own
    /// initial stack `app_init_sps[i]`, status `Ready`, and a zeroed
    /// diagnostics record.
    pub fn new(restore_entry: usize, app_init_sps: Vec<usize>) -> (tm: TaskManager)
        requires
            1 <= app_init_sps.len() <= MAX_APP_NUM,
        ensures
            tm.wf(),
            tm.num_app == app_init_sps.len(),
            tm.freshly_loaded(),
            tm.time_sentinel(),
            forall|i: int|
                0 <= i < tm.num_app ==> {
                    let cx = (#[trigger] tm.inner.tasks[i]).task_cx;
                    cx.ra == restore_entry && cx.sp == app_init_sps[i]
                },
    {
        let num_app = app_init_sps.len();
        let mut tasks: Vec<TaskControlBlock> = Vec::new();
        let mut task_infos: Vec<TaskInfo> = Vec::new();
        let mut i: usize = 0;
        while i < num_app
            invariant
                i <= num_app,
                num_app == app_init_sps.len(),
                tasks.len() == i,
                task_infos.len() == i,
                forall|k: int|
                    0 <= k < i ==> {
                        let t = #[trigger] tasks[k];
                        &&& t.task_status is Ready
                        &&& t.task_cx.wf()
                        &&& t.task_cx.ra == restore_entry
                        &&& t.task_cx.sp == app_init_sps[k]
                    },
                forall|k: int|
                    0 <= k < i ==> {
                        let info = #[trigger] task_infos[k];
                        &&& info.wf()
                        &&& info.status is UnInit
                        &&& info.time == 0
                        &&& forall|j: int|
                            0 <= j < info.syscall_times.len() ==> info.syscall_times[j] == 0
                    },
            decreases num_app - i,
        {
            tasks.push(
                TaskControlBlock {
                    task_cx: TaskContext::goto_restore(restore_entry, app_init_sps[i]),
                    task_status: TaskStatus::Ready,
                },
            );
            task_infos.push(TaskInfo::zeroed());
            i += 1;
        }
        TaskManager { num_app, inner: TaskManagerInner { tasks, task_infos, current_task: 0 } }
    }

    /// Scan ids upward from `current_task + 1`, wrapping modulo the task
    /// count, and return the first `Ready` one; `None` means no task is
    /// `Ready` anywhere and the workload is exhausted.
    pub fn find_next_task(&self) -> (r: Option<usize>)
        requires
            self.wf(),
        ensures
            match r {
                Some(id) => {
                    &&& id < self.num_app
                    &&& self.statuses()[id as int] is Ready
                    &&& spec_find_next(self.statuses(), self.inner.current_task as int)
                        == Some(id as int)
                },
                None => {
                    &&& spec_find_next(self.statuses(), self.inner.current_task as int) is None
                    &&& forall|i: int|
                        0 <= i < self.num_app ==> !((#[trigger] self.statuses()[i]) is Ready)
                },
            },
    {
        let n = self.num_app;
        let cur = self.inner.current_task;
        let ghost st = self.statuses();
        let mut d: usize = 1;
        while d <= n
            invariant
                self.wf(),
                n == self.num_app,
                cur == self.inner.current_task,
                st == self.statuses(),
                1 <= d <= n + 1,
                find_ready_from(st, cur as int, 1) == find_ready_from(st, cur as int, d as int),
            decreases n + 1 - d,
        {
            let id = (cur + d) % n;
            proof {
                lemma_mod_bound(cur as int + d as int, n as int);
            }
            if self.inner.tasks[id].task_status == TaskStatus::Ready {
                proof {
                    assert(st[id as int] is Ready);
                    assert(find_ready_from(st, cur as int, d as int) == Some(id as int));
                }
                return Some(id);
            }
            proof {
                assert(!(st[(cur as int + d as int) % (n as int)] is Ready));
                assert(find_ready_from(st, cur as int, d as int)
                    == find_ready_from(st, cur as int, d as int + 1));
            }
            d += 1;
        }
        proof {
            assert(find_ready_from(st, cur as int, n as int + 1) is None);
            lemma_find_none_no_ready(st, cur as int);
        }
        None
    }

    /// The current `Running` task steps aside: `Running -> Ready`. Nothing
    /// else changes.
    pub fn mark_current_suspended(&mut self)
        requires
            old(self).wf(),
            old(self).statuses()[old(self).inner.current_task as int] is Running,
        ensures
            final(self).wf(),
            final(self).num_app == old(self).num_app,
            final(self).inner.current_task == old(self).inner.current_task,
            final(self).statuses()
                == old(self).statuses().update(
                old(self).inner.current_task as int,
                TaskStatus::Ready,
            ),
            forall|i: int|
                0 <= i < old(self).num_app
                    ==> (#[trigger] final(self).inner.tasks[i]).task_cx
                        == old(self).inner.tasks[i].task_cx,
            final(self).inner.task_infos == old(self).inner.task_infos,
    {
        let current = self.inner.current_task;
        self.inner.tasks[current].task_status = TaskStatus::Ready;
        proof {
            assert(self.statuses()
                =~= old(self).statuses().update(current as int, TaskStatus::Ready));
        }
    }

    /// The current `Running` task finishes for good: `Running -> Exited`, the
    /// terminal status. Nothing else changes.
    pub fn mark_current_exited(&mut self)
        requires
            old(self).wf(),
            old(self).statuses()[old(self).inner.current_task as int] is Running,
        ensures
            final(self).wf(),
            final(self).num_app == old(self).num_app,
            final(self).inner.current_task == old(self).inner.current_task,
            final(self).statuses()
                == old(self).statuses().update(
                old(self).inner.current_task as int,
                TaskStatus::Exited,
            ),
            forall|i: int|
                0 <= i < old(self).num_app
                    ==> (#[trigger] final(self).inner.tasks[i]).task_cx
                        == old(self).inner.tasks[i].task_cx,
            final(self).inner.task_infos == old(self).inner.task_infos,
    {
        let current = self.inner.current_task;
        self.inner.tasks[current].task_status = TaskStatus::Exited;
        proof {
            assert(self.statuses()
                =~= old(self).statuses().update(current as int, TaskStatus::Exited));
        }
    }

    /// The exact effect of dispatching task `next` at clock reading `now_us`:
    /// `next` is the round-robin choice, it becomes `Running` in both tables,
    /// its `time` is stamped with `now_us` only if still at the
    /// never-scheduled sentinel 0, `current_task` moves to it, and everything
    /// else is untouched.
    pub open spec fn scheduled_post(pre: TaskManager, post: TaskManager, next: int, now_us: usize) -> bool {
        let n = pre.num_app as int;
        &&& 0 <= next < n
        &&& spec_find_next(pre.statuses(), pre.inner.current_task as int) == Some(next)
        &&& post.num_app == pre.num_app
        &&& post.inner.current_task == next
        &&& post.statuses() == pre.statuses().update(next, TaskStatus::Running)
        &&& forall|i: int|
            0 <= i < n ==> (#[trigger] post.inner.tasks[i]).task_cx == pre.inner.tasks[i].task_cx
        &&& post.inner.task_infos.len() == pre.inner.task_infos.len()
        &&& forall|i: int|
            0 <= i < n && i != next
                ==> (#[trigger] post.inner.task_infos[i]) == pre.inner.task_infos[i]
        &&& post.inner.task_infos[next].status is Running
        &&& post.inner.task_infos[next].syscall_times == pre.inner.task_infos[next].syscall_times
        &&& post.inner.task_infos[next].time == (if pre.inner.task_infos[next].time == 0 {
            now_us as int
        } else {
            pre.inner.task_infos[next].time as int
        })
    }

    /// Bootstrap dispatch of task 0, from a freshly loaded registry at clock
    /// reading `now_us`: task 0 becomes `Running` in both tables, its `time`
    /// is stamped, and the returned id names the saved context the caller's
    /// trampoline must now restore (the caller never resumes here; a zeroed
    /// placeholder takes the bootstrap flow's save).
    pub fn run_first_task(&mut self, now_us: usize) -> (first: usize)
        requires
            old(self).wf(),
            old(self).freshly_loaded(),
            now_us >= 1,
        ensures
            first == 0,
            final(self).wf(),
            final(self).one_running(),
            final(self).time_sentinel(),
            final(self).num_app == old(self).num_app,
            final(self).inner.current_task == 0,
            final(self).statuses() == old(self).statuses().update(0, TaskStatus::Running),
            forall|i: int|
                0 <= i < old(self).num_app
                    ==> (#[trigger] final(self).inner.tasks[i]).task_cx
                        == old(self).inner.tasks[i].task_cx,
            forall|i: int|
                1 <= i < old(self).num_app
                    ==> (#[trigger] final(self).inner.task_infos[i])
                        == old(self).inner.task_infos[i],
            final(self).inner.task_infos[0].status is Running,
            final(self).inner.task_infos[0].time == now_us,
            final(self).inner.task_infos[0].syscall_times
                == old(self).inner.task_infos[0].syscall_times,
    {
        self.inner.tasks[0].task_status = TaskStatus::Running;
        self.inner.task_infos[0].status = TaskStatus::Running;
        self.inner.task_infos[0].time = now_us;
        proof {
            assert(self.statuses() =~= old(self).statuses().update(0, TaskStatus::Running));
        }
        0
    }

    /// Pick the next `Ready` task and dispatch it, or report that the
    /// workload is exhausted. On `Some(next)` the returned id names the saved
    /// context to restore and the registry reflects exactly the dispatch of
    /// `next`; on `None` no task is `Ready`, nothing changes, and the system
    /// is to halt.
    pub fn run_next_task(&mut self, now_us: usize) -> (r: Option<usize>)
        requires
            old(self).wf(),
            now_us >= 1,
            forall|i: int|
                0 <= i < old(self).num_app ==> !((#[trigger] old(self).statuses()[i]) is Running),
        ensures
            final(self).wf(),
            match r {
                Some(next) => {
                    &&& TaskManager::scheduled_post(*old(self), *final(self), next as int, now_us)
                    &&& final(self).one_running()
                    &&& (old(self).time_sentinel() ==> final(self).time_sentinel())
                },
                None => {
                    &&& *final(self) == *old(self)
                    &&& forall|i: int|
                        0 <= i < old(self).num_app
                            ==> !((#[trigger] old(self).statuses()[i]) is Ready)
                },
            },
    {
        match self.find_next_task() {
            Some(next) => {
                self.inner.tasks[next].task_status = TaskStatus::Running;
                self.inner.task_infos[next].status = TaskStatus::Running;
                if self.inner.task_infos[next].time == 0 {
                    self.inner.task_infos[next].time = now_us;
                }
                self.inner.current_task = next;
                proof {
                    assert(self.statuses()
                        =~= old(self).statuses().update(next as int, TaskStatus::Running));
                }
                Some(next)
            },
            None => None,
        }
    }

    /// Count one invocation of syscall `sys_id` against the current task.
    /// An id outside the counted range is rejected and nothing changes; the
    /// surrounding kernel has no counter slot for it.
    pub fn record_current_syscall(&mut self, sys_id: usize) -> (accepted: bool)
        requires
            old(self).wf(),
            sys_id < MAX_SYSCALL_NUM
                ==> old(self).inner.task_infos[old(self).inner.current_task as int]
                    .syscall_times[sys_id as int] < u32::MAX,
        ensures
            final(self).wf(),
            accepted == (sys_id < MAX_SYSCALL_NUM),
            !accepted ==> *final(self) == *old(self),
            accepted ==> {
                let cur = old(self).inner.current_task as int;
                &&& final(self).num_app == old(self).num_app
                &&& final(self).inner.current_task == old(self).inner.current_task
                &&& final(self).inner.tasks == old(self).inner.tasks
                &&& final(self).inner.task_infos.len() == old(self).inner.task_infos.len()
                &&& forall|i: int|
                    0 <= i < old(self).num_app && i != cur
                        ==> (#[trigger] final(self).inner.task_infos[i])
                            == old(self).inner.task_infos[i]
                &&& final(self).inner.task_infos[cur].status
                    == old(self).inner.task_infos[cur].status
                &&& final(self).inner.task_infos[cur].time == old(self).inner.task_infos[cur].time
                &&& final(self).inner.task_infos[cur].syscall_times@
                    == bumped(old(self).inner.task_infos[cur].syscall_times@, sys_id as int)
            },
    {
        if sys_id >= MAX_SYSCALL_NUM {
            return false;
        }
        let current = self.inner.current_task;
        let count = self.inner.task_infos[current].syscall_times[sys_id];
        self.inner.task_infos[current].syscall_times[sys_id] = count + 1;
        true
    }

    /// Sample the current task's elapsed scheduled time at clock reading
    /// `now_us`: subtract the stored first-scheduled stamp, convert to the
    /// millisecond-scale encoding, and overwrite `time` with the encoding.
    /// The overwrite destroys the first-scheduled stamp, so a later sample
    /// measures from the encoding instead — a known quirk of this interface,
    /// kept for compatibility (it can even return `time` to 0, the one
    /// operation that may break the first-schedule sentinel).
    pub fn get_time_val(&mut self, now_us: usize)
        requires
            old(self).wf(),
            old(self).inner.task_infos[old(self).inner.current_task as int].time <= now_us,
        ensures
            final(self).wf(),
            ({
                let cur = old(self).inner.current_task as int;
                &&& final(self).num_app == old(self).num_app
                &&& final(self).inner.current_task == old(self).inner.current_task
                &&& final(self).inner.tasks == old(self).inner.tasks
                &&& final(self).inner.task_infos.len() == old(self).inner.task_infos.len()
                &&& forall|i: int|
                    0 <= i < old(self).num_app && i != cur
                        ==> (#[trigger] final(self).inner.task_infos[i])
                            == old(self).inner.task_infos[i]
                &&& final(self).inner.task_infos[cur].status
                    == old(self).inner.task_infos[cur].status
                &&& final(self).inner.task_infos[cur].syscall_times
                    == old(self).inner.task_infos[cur].syscall_times
                &&& final(self).inner.task_infos[cur].time == elapsed_encoding(
                    now_us - old(self).inner.task_infos[cur].time,
                )
            }),
    {
        let current = self.inner.current_task;
        let stamp = self.inner.task_infos[current].time;
        let elapsed = now_us - stamp;
        let sec = elapsed / 1_000_000;
        let usec = elapsed % 1_000_000;
        let masked64: u64 = (sec as u64) & 0xffff;
        proof {
            let s64 = sec as u64;
            assert(s64 & 0xffff == s64 % 0x10000) by (bit_vector);
            assert(masked64 < 0x10000);
        }
        let masked: usize = masked64 as usize;
        self.inner.task_infos[current].time = masked * 1000 + usec / 1000;
    }
}

/// The counter table after one more invocation of syscall `id`.
pub open spec fn bumped(times: Seq<u32>, id: int) -> Seq<u32> {
    times.update(id, (times[id] + 1) as u32)
}

/// The counter table after `k` invocations of syscall `id`, one at a time.
pub open spec fn bumped_times(times: Seq<u32>, id: int, k: nat) -> Seq<u32>
    decreases k,
{
    if k == 0 {
        times
    } else {
        bumped(bumped_times(times, id, (k - 1) as nat), id)
    }
}

/// Counter monotonicity, iterated: `k` recordings of syscall `id` raise its
/// count by exactly `k` and leave every other id's count unchanged.
pub proof fn lemma_counter_grows_by_k(times: Seq<u32>, id: int, k: nat)
    requires
        0 <= id < times.len(),
        times[id] + k <= u32::MAX,
    ensures
        bumped_times(times, id, k).len() == times.len(),
        bumped_times(times, id, k)[id] == times[id] + k,
        forall|j: int|
            0 <= j < times.len() && j != id ==> bumped_times(times, id, k)[j] == times[j],
    decreases k,
{
    if k > 0 {
        lemma_counter_grows_by_k(times, id, (k - 1) as nat);
    }
}

/// The millisecond-scale encoding that the elapsed-time sampler writes back:
/// the seconds component masked to its low 16 bits, times 1000, plus the
/// microseconds component scaled down to milliseconds.
pub open spec fn elapsed_encoding(elapsed_us: int) -> int {
    ((elapsed_us / 1_000_000) % 0x10000) * 1000 + (elapsed_us % 1_000_000) / 1000
}

/// The exact effect of a yield at clock reading `now_us`: the current task
/// steps back to `Ready`, the round-robin choice `next` over that suspended
/// table becomes `Running` in both tables (first-schedule stamp only if its
/// `time` is still 0), `current_task` moves to `next`, and nothing else
/// changes. When the yielding task is the only `Ready` one, `next` is the
/// yielding task itself.
pub open spec fn yielded_post(pre: TaskManager, post: TaskManager, next: int, now_us: usize) -> bool {
    let n = pre.num_app as int;
    let cur = pre.inner.current_task as int;
    let suspended = pre.statuses().update(cur, TaskStatus::Ready);
    &&& 0 <= next < n
    &&& spec_find_next(suspended, cur) == Some(next)
    &&& post.num_app == pre.num_app
    &&& post.inner.current_task == next
    &&& post.statuses() == suspended.update(next, TaskStatus::Running)
    &&& forall|i: int|
        0 <= i < n ==> (#[trigger] post.inner.tasks[i]).task_cx == pre.inner.tasks[i].task_cx
    &&& post.inner.task_infos.len() == pre.inner.task_infos.len()
    &&& forall|i: int|
        0 <= i < n && i != next
            ==> (#[trigger] post.inner.task_infos[i]) == pre.inner.task_infos[i]
    &&& post.inner.task_infos[next].status is Running
    &&& post.inner.task_infos[next].syscall_times == pre.inner.task_infos[next].syscall_times
    &&& post.inner.task_infos[next].time == (if pre.inner.task_infos[next].time == 0 {
        now_us as int
    } else {
        pre.inner.task_infos[next].time as int
    })
}

/// The exact effect of an exit that still finds work at clock reading
/// `now_us`: the current task becomes `Exited` for good, the round-robin
/// choice `next` over that table becomes `Running` in both tables
/// (first-schedule stamp only if its `time` is still 0), and `current_task`
/// moves to `next`.
pub open spec fn exited_post(pre: TaskManager, post: TaskManager, next: int, now_us: usize) -> bool {
    let n = pre.num_app as int;
    let cur = pre.inner.current_task as int;
    let dying = pre.statuses().update(cur, TaskStatus::Exited);
    &&& 0 <= next < n
    &&& spec_find_next(dying, cur) == Some(next)
    &&& post.num_app == pre.num_app
    &&& post.inner.current_task == next
    &&& post.statuses() == dying.update(next, TaskStatus::Running)
    &&& forall|i: int|
        0 <= i < n ==> (#[trigger] post.inner.tasks[i]).task_cx == pre.inner.tasks[i].task_cx
    &&& post.inner.task_infos.len() == pre.inner.task_infos.len()
    &&& forall|i: int|
        0 <= i < n && i != next
            ==> (#[trigger] post.inner.task_infos[i]) == pre.inner.task_infos[i]
    &&& post.inner.task_infos[next].status is Running
    &&& post.inner.task_infos[next].syscall_times == pre.inner.task_infos[next].syscall_times
    &&& post.inner.task_infos[next].time == (if pre.inner.task_infos[next].time == 0 {
        now_us as int
    } else {
        pre.inner.task_infos[next].time as int
    })
}

/// The exact effect of the last exit: the current task becomes `Exited`, no
/// task anywhere is `Ready` any more, and the registry is otherwise
/// untouched. The system halts here; there is no further transition.
pub open spec fn exhausted_post(pre: TaskManager, post: TaskManager) -> bool {
    let n = pre.num_app as int;
    let cur = pre.inner.current_task as int;
    &&& post.num_app == pre.num_app
    &&& post.inner.current_task == pre.inner.current_task
    &&& post.statuses() == pre.statuses().update(cur, TaskStatus::Exited)
    &&& forall|i: int|
        0 <= i < n ==> (#[trigger] post.inner.tasks[i]).task_cx == pre.inner.tasks[i].task_cx
    &&& post.inner.task_infos == pre.inner.task_infos
    &&& forall|i: int| 0 <= i < n ==> !((#[trigger] post.statuses()[i]) is Ready)
}

/// Dispatch the first task of a freshly loaded registry; the caller's
/// trampoline then restores task 0's context from a zeroed placeholder and
/// never returns here.
pub fn run_first_task(tm: &mut TaskManager, now_us: usize) -> (first: usize)
    requires
        old(tm).wf(),
        old(tm).freshly_loaded(),
        now_us >= 1,
    ensures
        first == 0,
        final(tm).wf(),
        final(tm).one_running(),
        final(tm).time_sentinel(),
        final(tm).num_app == old(tm).num_app,
        final(tm).inner.current_task == 0,
        final(tm).statuses() == old(tm).statuses().update(0, TaskStatus::Running),
        forall|i: int|
            0 <= i < old(tm).num_app
                ==> (#[trigger] final(tm).inner.tasks[i]).task_cx == old(tm).inner.tasks[i].task_cx,
        forall|i: int|
            1 <= i < old(tm).num_app
                ==> (#[trigger] final(tm).inner.task_infos[i]) == old(tm).inner.task_infos[i],
        final(tm).inner.task_infos[0].status is Running,
        final(tm).inner.task_infos[0].time == now_us,
        final(tm).inner.task_infos[0].syscall_times == old(tm).inner.task_infos[0].syscall_times,
{
    tm.run_first_task(now_us)
}

/// Suspend the current `Running` task and dispatch the next `Ready` one,
/// returning the id of the saved context the caller's trampoline must
/// restore. A yielding task is itself still `Ready`, so a next task always
/// exists (possibly the yielder again), and afterwards exactly one task is
/// `Running`.
pub fn suspend_current_and_run_next(tm: &mut TaskManager, now_us: usize) -> (next: usize)
    requires
        old(tm).wf(),
        old(tm).one_running(),
        now_us >= 1,
    ensures
        final(tm).wf(),
        final(tm).one_running(),
        yielded_post(*old(tm), *final(tm), next as int, now_us),
        old(tm).time_sentinel() ==> final(tm).time_sentinel(),
{
    tm.mark_current_suspended();
    proof {
        let cur = old(tm).inner.current_task as int;
        lemma_cur_ready_found(tm.statuses(), cur);
    }
    let r = tm.run_next_task(now_us);
    match r {
        Some(next) => next,
        None => {
            proof {
                assert(false);
            }
            0
        },
    }
}

/// Mark the current `Running` task `Exited` — terminal — and dispatch the
/// next `Ready` task if one exists. `Some(next)` names the saved context to
/// restore; `None` is the normal end of the workload, upon which the whole
/// system halts.
pub fn exit_current_and_run_next(tm: &mut TaskManager, now_us: usize) -> (next: Option<usize>)
    requires
        old(tm).wf(),
        old(tm).one_running(),
        now_us >= 1,
    ensures
        final(tm).wf(),
        match next {
            Some(id) => {
                &&& exited_post(*old(tm), *final(tm), id as int, now_us)
                &&& final(tm).one_running()
            },
            None => exhausted_post(*old(tm), *final(tm)),
        },
        old(tm).time_sentinel() ==> final(tm).time_sentinel(),
{
    tm.mark_current_exited();
    tm.run_next_task(now_us)
}

/// A steady round-robin state over a status table: the slot at `cur` is
/// `Running` and every other slot is `Ready`.
pub open spec fn rr_state(st: Seq<TaskStatus>, cur: int) -> bool {
    &&& st.len() >= 1
    &&& 0 <= cur < st.len()
    &&& st[cur] is Running
    &&& forall|i: int| 0 <= i < st.len() && i != cur ==> (#[trigger] st[i]) is Ready
}

/// One yield, at the level of the status table alone: suspend `cur`, then
/// dispatch the round-robin choice. Returns the new table and the new current
/// id (unchanged if — impossibly, after a suspend — nothing were `Ready`).
pub open spec fn yield_step(st: Seq<TaskStatus>, cur: int) -> (Seq<TaskStatus>, int) {
    let suspended = st.update(cur, TaskStatus::Ready);
    match spec_find_next(suspended, cur) {
        Some(next) => (suspended.update(next, TaskStatus::Running), next),
        None => (suspended, cur),
    }
}

/// `k` consecutive yields, at the level of the status table alone.
pub open spec fn yield_iter(st: Seq<TaskStatus>, cur: int, k: nat) -> (Seq<TaskStatus>, int)
    decreases k,
{
    if k == 0 {
        (st, cur)
    } else {
        let prev = yield_iter(st, cur, (k - 1) as nat);
        yield_step(prev.0, prev.1)
    }
}

/// A yield of the registry is a `yield_step` of its status table: the exact
/// transition `suspend_current_and_run_next` ensures projects onto the
/// spec-level step.
pub proof fn lemma_yield_matches_step(pre: TaskManager, post: TaskManager, next: int, now_us: usize)
    requires
        yielded_post(pre, post, next, now_us),
    ensures
        post.statuses() == yield_step(pre.statuses(), pre.inner.current_task as int).0,
        post.inner.current_task as int == yield_step(
            pre.statuses(),
            pre.inner.current_task as int,
        ).1,
{
}

/// Round-robin order: from a steady round-robin state with `n` tasks, none
/// exiting, `k` consecutive yields leave the table in a steady round-robin
/// state whose running task is `(cur + k) % n` — the ids are visited in
/// ascending order modulo `n`, and the `n`-th yield returns to the start.
pub proof fn lemma_round_robin_cycle(st: Seq<TaskStatus>, cur: int, k: nat)
    requires
        rr_state(st, cur),
    ensures
        rr_state(yield_iter(st, cur, k).0, yield_iter(st, cur, k).1),
        yield_iter(st, cur, k).0.len() == st.len(),
        yield_iter(st, cur, k).1 == (cur + k) % (st.len() as int),
    decreases k,
{
    let n = st.len() as int;
    if k == 0 {
        lemma_small_mod(cur as nat, n as nat);
    } else {
        lemma_round_robin_cycle(st, cur, (k - 1) as nat);
        let prev = yield_iter(st, cur, (k - 1) as nat);
        let s1 = prev.0;
        let c1 = prev.1;
        let suspended = s1.update(c1, TaskStatus::Ready);
        assert(forall|i: int| 0 <= i < n ==> (#[trigger] suspended[i]) is Ready);
        lemma_round_robin_step(suspended, c1);
        lemma_mod_bound(c1 + 1, n);
        assert(rr_state(yield_step(s1, c1).0, yield_step(s1, c1).1));
        // (c1 + 1) % n == (cur + k) % n, where c1 == (cur + k - 1) % n
        lemma_add_mod_noop(cur + k - 1, 1, n);
        if n == 1 {
            lemma_mod_bound(cur + k, n);
            lemma_mod_bound(c1 + 1, n);
        } else {
            lemma_small_mod(1nat, n as nat);
        }
    }
}

/// Terminal status is sticky across a yield: a task that was `Exited` before
/// `suspend_current_and_run_next` is still `Exited` after it.
pub proof fn lemma_exited_sticky_yield(
    pre: TaskManager,
    post: TaskManager,
    next: int,
    now_us: usize,
    i: int,
)
    requires
        pre.wf(),
        pre.one_running(),
        yielded_post(pre, post, next, now_us),
        0 <= i < pre.num_app,
        pre.statuses()[i] is Exited,
    ensures
        post.statuses()[i] is Exited,
{
    let cur = pre.inner.current_task as int;
    let suspended = pre.statuses().update(cur, TaskStatus::Ready);
    lemma_find_next_is_ready(suspended, cur);
}

/// Terminal status is sticky across an exit that dispatches a next task: a
/// task that was already `Exited` stays `Exited`.
pub proof fn lemma_exited_sticky_exit(
    pre: TaskManager,
    post: TaskManager,
    next: int,
    now_us: usize,
    i: int,
)
    requires
        pre.wf(),
        pre.one_running(),
        exited_post(pre, post, next, now_us),
        0 <= i < pre.num_app,
        pre.statuses()[i] is Exited,
    ensures
        post.statuses()[i] is Exited,
{
    let cur = pre.inner.current_task as int;
    let dying = pre.statuses().update(cur, TaskStatus::Exited);
    lemma_find_next_is_ready(dying, cur);
}

/// Terminal status is sticky across the halting exit too: the whole table
/// keeps its `Exited` entries when the workload ends.
pub proof fn lemma_exited_sticky_exhausted(pre: TaskManager, post: TaskManager, i: int)
    requires
        pre.wf(),
        exhausted_post(pre, post),
        0 <= i < pre.num_app,
        pre.statuses()[i] is Exited,
    ensures
        post.statuses()[i] is Exited,
{
}

} // verus!
