use task_core::syscall::{sys_get_time, sys_task_info, TaskInfo, TimeVal};
use task_core::task::{run_first_task, TaskContext, TaskManager};
use task_core::{MAX_APP_NUM, MAX_SYSCALL_NUM};

fn manager(num_app: usize) -> TaskManager {
    let mut sps: Vec<usize> = Vec::new();
    let mut i: usize = 0;
    while i < num_app {
        sps.push(0x9000_0000 + i * 0x2000);
        i += 1;
    }
    TaskManager::new(0x8040_0000, sps)
}

#[test]
fn syscall_counter_counts_three_invocations() {
    let mut tm = manager(2);
    run_first_task(&mut tm, 4);
    for _ in 0..3 {
        assert!(tm.record_current_syscall(5));
    }
    assert_eq!(tm.inner.task_infos[0].syscall_times[5], 3);
}

#[test]
fn syscall_counter_leaves_other_ids_unchanged() {
    let mut tm = manager(2);
    run_first_task(&mut tm, 4);
    assert!(tm.record_current_syscall(5));
    for (id, &count) in tm.inner.task_infos[0].syscall_times.iter().enumerate() {
        assert_eq!(count, if id == 5 { 1 } else { 0 });
    }
    // the other task's counters are untouched
    assert!(tm.inner.task_infos[1].syscall_times.iter().all(|&c| c == 0));
}

#[test]
fn out_of_range_syscall_id_is_rejected() {
    let mut tm = manager(1);
    run_first_task(&mut tm, 4);
    assert!(!tm.record_current_syscall(MAX_SYSCALL_NUM));
    assert!(!tm.record_current_syscall(MAX_SYSCALL_NUM + 40));
    assert!(tm.inner.task_infos[0].syscall_times.iter().all(|&c| c == 0));
}

#[test]
fn get_time_splits_microseconds_exactly() {
    let mut tv = TimeVal { sec: 0, usec: 0 };
    let r = sys_get_time(&mut tv, 0, 2_500_001);
    assert_eq!(r, 0);
    assert_eq!(tv.sec, 2);
    assert_eq!(tv.usec, 500_001);
}

#[test]
fn get_time_twice_is_non_decreasing() {
    let mut first = TimeVal { sec: 0, usec: 0 };
    let mut second = TimeVal { sec: 0, usec: 0 };
    sys_get_time(&mut first, 0, 999_999);
    // busy-work happens between the two readings; the clock only moves forward
    sys_get_time(&mut second, 0, 1_000_002);
    let total_first = first.sec * 1_000_000 + first.usec;
    let total_second = second.sec * 1_000_000 + second.usec;
    assert!(total_second >= total_first);
    assert_eq!(total_first, 999_999);
    assert_eq!(total_second, 1_000_002);
}

#[test]
fn task_info_snapshot_mirrors_live_record() {
    let mut tm = manager(2);
    run_first_task(&mut tm, 6);
    assert!(tm.record_current_syscall(64));
    assert!(tm.record_current_syscall(64));
    // the dispatcher counts the info call itself before taking the snapshot,
    // so the caller sees the updated count for the info syscall's own id
    assert!(tm.record_current_syscall(410));
    let mut ti = TaskInfo::zeroed();
    let r = sys_task_info(&tm, &mut ti);
    assert_eq!(r, 0);
    assert_eq!(ti.status, tm.inner.task_infos[0].status);
    assert_eq!(ti.time, 6);
    assert_eq!(ti.syscall_times[64], 2);
    assert_eq!(ti.syscall_times[410], 1);
    assert_eq!(ti.syscall_times.len(), MAX_SYSCALL_NUM);
}

#[test]
fn sampler_encodes_elapsed_milliseconds() {
    let mut tm = manager(1);
    run_first_task(&mut tm, 1_000);
    // elapsed 3_001_500 us: 3 whole seconds and 1500 us over
    tm.get_time_val(3_002_500);
    assert_eq!(tm.inner.task_infos[0].time, 3 * 1000 + 1);
}

#[test]
fn sampler_masks_seconds_to_sixteen_bits() {
    let mut tm = manager(1);
    run_first_task(&mut tm, 1);
    // elapsed 65541 s: seconds component 0x10005, masked to 5
    tm.get_time_val(65_541_000_001);
    assert_eq!(tm.inner.task_infos[0].time, 5 * 1000);
}

#[test]
fn sampler_overwrites_the_first_scheduled_stamp() {
    let mut tm = manager(1);
    run_first_task(&mut tm, 500_000);
    tm.get_time_val(1_500_000);
    // the original stamp 500_000 is gone; the field now holds the encoding
    assert_eq!(tm.inner.task_infos[0].time, 1000);
    // a second sample measures from the encoded value, not from boot
    tm.get_time_val(2_001_000);
    assert_eq!(tm.inner.task_infos[0].time, 2000);
}

#[test]
fn sampler_can_return_time_to_zero() {
    // a sub-millisecond elapsed time encodes to 0, putting the field back at
    // the never-scheduled sentinel even though the task has run: the quirk of
    // the dual-purpose field, preserved on purpose
    let mut tm = manager(1);
    run_first_task(&mut tm, 2_000);
    tm.get_time_val(2_999);
    assert_eq!(tm.inner.task_infos[0].time, 0);
}

#[test]
fn context_constructors_fill_the_register_file() {
    let zero = TaskContext::zero_init();
    assert_eq!(zero.ra, 0);
    assert_eq!(zero.sp, 0);
    assert_eq!(zero.s.len(), 12);
    assert!(zero.s.iter().all(|&reg| reg == 0));
    let cx = TaskContext::goto_restore(0x8040_0000, 0x9000_2000);
    assert_eq!(cx.ra, 0x8040_0000);
    assert_eq!(cx.sp, 0x9000_2000);
    assert!(cx.s.iter().all(|&reg| reg == 0));
}

#[test]
fn registry_capacity_accepts_the_largest_preload() {
    let tm = manager(MAX_APP_NUM);
    assert_eq!(tm.num_app, MAX_APP_NUM);
    assert_eq!(tm.inner.tasks.len(), MAX_APP_NUM);
    assert_eq!(tm.inner.task_infos.len(), MAX_APP_NUM);
}
