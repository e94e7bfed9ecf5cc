//! Process-management syscalls: exit, yield, get-time and task-info.
//!
//! These are the thin entry points through which a running task reaches the
//! scheduler. Each takes the scheduler state and, where a clock reading is
//! involved, the current monotonic microsecond counter as a plain value; the
//! surrounding kernel's trap handler owns the raw pointers of the syscall ABI
//! and hands plain references here.

use vstd::prelude::*;

verus! {

use vstd::arithmetic::div_mod::lemma_fundamental_div_mod;
use crate::MAX_SYSCALL_NUM;
use crate::task::{
    exit_current_and_run_next, exited_post, exhausted_post, suspend_current_and_run_next,
    yielded_post, TaskManager, TaskStatus,
};

/// A boot-relative wall-clock reading split into seconds and microseconds.
pub struct TimeVal {
    /// whole seconds since boot
    pub sec: usize,
    /// microseconds below one second, always less than 1_000_000
    pub usec: usize,
}

/// Diagnostics record of one task, retrievable by the task itself.
pub struct TaskInfo {
    /// task status at the last scheduling event
    pub status: TaskStatus,
    /// invocation count per syscall id, indexed by id
    pub syscall_times: Vec<u32>,
    /// 0 until the task is first scheduled; then the microsecond clock at
    /// first scheduling; overwritten by the elapsed-time sampler
    pub time: usize,
}

impl TaskInfo {
    /// The counter table has one slot per syscall id.
    pub open spec fn wf(self) -> bool {
        self.syscall_times.len() == MAX_SYSCALL_NUM
    }

    /// A fresh diagnostics record: pre-initialization status, all counters 0,
    /// time at the never-scheduled sentinel 0.
    pub fn zeroed() -> (info: TaskInfo)
        ensures
            info.wf(),
            info.status is UnInit,
            info.time == 0,
            forall|j: int| 0 <= j < MAX_SYSCALL_NUM ==> info.syscall_times[j] == 0,
    {
        TaskInfo { status: TaskStatus::UnInit, syscall_times: zeroed_counters(), time: 0 }
    }
}

/// A counter table of one zero per syscall id.
fn zeroed_counters() -> (counters: Vec<u32>)
    ensures
        counters.len() == MAX_SYSCALL_NUM,
        forall|j: int| 0 <= j < MAX_SYSCALL_NUM ==> counters[j] == 0,
{
    let mut counters: Vec<u32> = Vec::new();
    let mut i: usize = 0;
    while i < MAX_SYSCALL_NUM
        invariant
            i <= MAX_SYSCALL_NUM,
            counters.len() == i,
            forall|j: int| 0 <= j < i ==> counters[j] == 0,
        decreases MAX_SYSCALL_NUM - i,
    {
        counters.push(0);
        i += 1;
    }
    counters
}

/// An element-for-element copy of a counter table.
fn copied_counters(src: &Vec<u32>) -> (dst: Vec<u32>)
    ensures
        dst@ == src@,
{
    let mut dst: Vec<u32> = Vec::new();
    let mut i: usize = 0;
    while i < src.len()
        invariant
            i <= src.len(),
            dst@ == src@.take(i as int),
        decreases src.len() - i,
    {
        dst.push(src[i]);
        proof {
            assert(dst@ =~= src@.take(i as int + 1));
        }
        i += 1;
    }
    proof {
        assert(dst@ =~= src@);
    }
    dst
}

/// The combined microsecond value a `TimeVal` encodes.
pub open spec fn total_us(tv: TimeVal) -> int {
    tv.sec * 1_000_000 + tv.usec
}

/// A `TimeVal` built from a clock reading encodes that reading exactly.
pub proof fn lemma_time_val_exact(tv: TimeVal, us: usize)
    requires
        tv.sec == us / 1_000_000,
        tv.usec == us % 1_000_000,
    ensures
        total_us(tv) == us,
{
    lemma_fundamental_div_mod(us as int, 1_000_000);
}

/// Clock monotonicity, as the caller of `sys_get_time` sees it: two readings
/// of the non-decreasing microsecond clock yield `TimeVal`s whose combined
/// values are in the same order.
pub proof fn lemma_clock_monotonic(first: TimeVal, us1: usize, second: TimeVal, us2: usize)
    requires
        first.sec == us1 / 1_000_000,
        first.usec == us1 % 1_000_000,
        second.sec == us2 / 1_000_000,
        second.usec == us2 % 1_000_000,
        us1 <= us2,
    ensures
        total_us(first) <= total_us(second),
{
    lemma_time_val_exact(first, us1);
    lemma_time_val_exact(second, us2);
}

/// Task exit: record the current task as `Exited` — terminal — and hand back
/// the scheduling decision. `Some(next)` names the saved context the
/// trampoline must restore (the exiting task's instruction stream never
/// resumes); `None` is the normal end of the workload and halts the whole
/// system. The exit code is only reported by the surrounding kernel, never
/// returned to any waiting entity.
#[allow(unused_variables)]
pub fn sys_exit(tm: &mut TaskManager, exit_code: i32, now_us: usize) -> (next: Option<usize>)
    requires
        old(tm).wf(),
        old(tm).one_running(),
        now_us >= 1,
    ensures
        final(tm).wf(),
        match next {
            Some(id) => {
                &&& exited_post(*old(tm), *final(tm), id as int, now_us)
                &&& final(tm).one_running()
            },
            None => exhausted_post(*old(tm), *final(tm)),
        },
        old(tm).time_sentinel() ==> final(tm).time_sentinel(),
{
    exit_current_and_run_next(tm, now_us)
}

/// Cooperative yield: the current task gives the processor up, the next
/// `Ready` task (possibly the yielder itself) is dispatched, and 0 is
/// returned once the yielder is rescheduled. The id of the context to
/// restore is `current_task` of the updated registry.
pub fn sys_yield(tm: &mut TaskManager, now_us: usize) -> (r: isize)
    requires
        old(tm).wf(),
        old(tm).one_running(),
        now_us >= 1,
    ensures
        r == 0,
        final(tm).wf(),
        final(tm).one_running(),
        yielded_post(*old(tm), *final(tm), final(tm).inner.current_task as int, now_us),
        old(tm).time_sentinel() ==> final(tm).time_sentinel(),
{
    suspend_current_and_run_next(tm, now_us);
    0
}

/// Boot-relative wall-clock read: split the monotonic microsecond reading
/// into whole seconds and the microseconds below one second, write the pair
/// into the caller's output slot, and return 0. The split is exact: the pair
/// recombines to the reading.
pub fn sys_get_time(ts: &mut TimeVal, _tz: usize, now_us: usize) -> (r: isize)
    ensures
        r == 0,
        final(ts).sec == now_us / 1_000_000,
        final(ts).usec == now_us % 1_000_000,
        final(ts).usec < 1_000_000,
        total_us(*final(ts)) == now_us,
{
    let sec = now_us / 1_000_000;
    let usec = now_us % 1_000_000;
    proof {
        lemma_fundamental_div_mod(now_us as int, 1_000_000);
    }
    *ts = TimeVal { sec, usec };
    0
}

/// Copy the current task's live diagnostics record into the caller's output
/// slot and return 0; the source never fails. The kernel's syscall dispatcher
/// counts this invocation itself (through `record_current_syscall`, under
/// this syscall's own id) before dispatching here, so the snapshot a caller
/// receives already shows that count.
pub fn sys_task_info(tm: &TaskManager, ti: &mut TaskInfo) -> (r: isize)
    requires
        tm.wf(),
    ensures
        r == 0,
        ({
            let info = tm.inner.task_infos[tm.inner.current_task as int];
            &&& final(ti).status == info.status
            &&& final(ti).syscall_times@ == info.syscall_times@
            &&& final(ti).time == info.time
        }),
{
    let current = tm.inner.current_task;
    let info = &tm.inner.task_infos[current];
    *ti = TaskInfo {
        status: info.status,
        syscall_times: copied_counters(&info.syscall_times),
        time: info.time,
    };
    0
}

} // verus!
