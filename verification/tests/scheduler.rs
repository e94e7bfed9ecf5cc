use task_core::syscall::{sys_exit, sys_yield};
use task_core::task::{run_first_task, TaskManager, TaskStatus};

const RESTORE: usize = 0x8040_0000;

fn manager(num_app: usize) -> TaskManager {
    let mut sps: Vec<usize> = Vec::new();
    let mut i: usize = 0;
    while i < num_app {
        sps.push(0x9000_0000 + i * 0x2000);
        i += 1;
    }
    TaskManager::new(RESTORE, sps)
}

fn running_count(tm: &TaskManager) -> usize {
    let mut count: usize = 0;
    for tcb in &tm.inner.tasks {
        if tcb.task_status == TaskStatus::Running {
            count += 1;
        }
    }
    count
}

#[test]
fn fresh_registry_is_ready_and_zeroed() {
    let tm = manager(2);
    assert_eq!(tm.num_app, 2);
    assert_eq!(tm.inner.current_task, 0);
    for tcb in &tm.inner.tasks {
        assert_eq!(tcb.task_status, TaskStatus::Ready);
        assert_eq!(tcb.task_cx.ra, RESTORE);
    }
    assert_eq!(tm.inner.tasks[0].task_cx.sp, 0x9000_0000);
    assert_eq!(tm.inner.tasks[1].task_cx.sp, 0x9000_2000);
    for info in &tm.inner.task_infos {
        assert_eq!(info.status, TaskStatus::UnInit);
        assert_eq!(info.time, 0);
        assert_eq!(info.syscall_times.len(), 500);
        assert!(info.syscall_times.iter().all(|&c| c == 0));
    }
    assert_eq!(running_count(&tm), 0);
}

#[test]
fn first_task_runs_and_is_stamped() {
    let mut tm = manager(2);
    let first = run_first_task(&mut tm, 77);
    assert_eq!(first, 0);
    assert_eq!(tm.inner.tasks[0].task_status, TaskStatus::Running);
    assert_ne!(tm.inner.task_infos[0].time, 0);
    assert_eq!(tm.inner.task_infos[0].time, 77);
    assert_eq!(tm.inner.task_infos[0].status, TaskStatus::Running);
    assert_eq!(tm.inner.tasks[1].task_status, TaskStatus::Ready);
    assert_eq!(tm.inner.task_infos[1].time, 0);
    assert_eq!(running_count(&tm), 1);
}

#[test]
fn yield_rotates_and_wraps() {
    let mut tm = manager(2);
    run_first_task(&mut tm, 10);
    // task 0 yields: task 1 is scheduled for the first time and stamped
    let r = sys_yield(&mut tm, 25);
    assert_eq!(r, 0);
    assert_eq!(tm.inner.current_task, 1);
    assert_eq!(tm.inner.tasks[0].task_status, TaskStatus::Ready);
    assert_eq!(tm.inner.tasks[1].task_status, TaskStatus::Running);
    assert_eq!(tm.inner.task_infos[1].time, 25);
    assert_eq!(running_count(&tm), 1);
    // task 1 yields: wrap-around back to task 0, whose stamp is not redone
    sys_yield(&mut tm, 40);
    assert_eq!(tm.inner.current_task, 0);
    assert_eq!(tm.inner.tasks[0].task_status, TaskStatus::Running);
    assert_eq!(tm.inner.tasks[1].task_status, TaskStatus::Ready);
    assert_eq!(tm.inner.task_infos[0].time, 10);
    assert_eq!(tm.inner.task_infos[1].time, 25);
    assert_eq!(running_count(&tm), 1);
}

#[test]
fn round_robin_visits_ids_in_ascending_order() {
    let n: usize = 5;
    let mut tm = manager(n);
    run_first_task(&mut tm, 1);
    let mut visited: Vec<usize> = Vec::new();
    for k in 0..n {
        sys_yield(&mut tm, (2 + k) as usize);
        visited.push(tm.inner.current_task);
        assert_eq!(running_count(&tm), 1);
    }
    assert_eq!(visited, vec![1, 2, 3, 4, 0]);
}

#[test]
fn exited_task_is_never_selected_again() {
    let mut tm = manager(2);
    run_first_task(&mut tm, 3);
    // task 0 exits with code 7: scheduler switches to task 1
    let next = sys_exit(&mut tm, 7, 9);
    assert_eq!(next, Some(1));
    assert_eq!(tm.inner.tasks[0].task_status, TaskStatus::Exited);
    assert_eq!(tm.inner.tasks[1].task_status, TaskStatus::Running);
    assert_eq!(running_count(&tm), 1);
    // later scheduling passes never propose task 0 again
    for k in 0..4 {
        sys_yield(&mut tm, 20 + k);
        assert_eq!(tm.inner.current_task, 1);
        assert_eq!(tm.inner.tasks[0].task_status, TaskStatus::Exited);
    }
    // with task 1 running and task 0 exited, nothing else is ever proposed
    assert_ne!(tm.find_next_task(), Some(0));
    assert_eq!(tm.find_next_task(), None);
}

#[test]
fn single_task_exit_halts_the_system() {
    let mut tm = manager(1);
    run_first_task(&mut tm, 2);
    let next = sys_exit(&mut tm, 0, 8);
    assert_eq!(next, None);
    assert_eq!(tm.inner.tasks[0].task_status, TaskStatus::Exited);
    assert_eq!(tm.find_next_task(), None);
}

#[test]
fn all_exited_leaves_no_candidate() {
    let mut tm = manager(3);
    run_first_task(&mut tm, 2);
    assert_eq!(sys_exit(&mut tm, 0, 5), Some(1));
    assert_eq!(sys_exit(&mut tm, 0, 6), Some(2));
    assert_eq!(sys_exit(&mut tm, 0, 7), None);
    for tcb in &tm.inner.tasks {
        assert_eq!(tcb.task_status, TaskStatus::Exited);
    }
    assert_eq!(tm.find_next_task(), None);
}

#[test]
fn single_task_yield_reschedules_itself() {
    let mut tm = manager(1);
    run_first_task(&mut tm, 30);
    sys_yield(&mut tm, 45);
    assert_eq!(tm.inner.current_task, 0);
    assert_eq!(tm.inner.tasks[0].task_status, TaskStatus::Running);
    // the first-schedule stamp is not redone on reschedule
    assert_eq!(tm.inner.task_infos[0].time, 30);
    assert_eq!(running_count(&tm), 1);
}

#[test]
fn time_sentinel_marks_never_scheduled_tasks() {
    let mut tm = manager(3);
    run_first_task(&mut tm, 13);
    sys_yield(&mut tm, 21);
    // tasks 0 and 1 have run; task 2 never has
    assert_ne!(tm.inner.task_infos[0].time, 0);
    assert_ne!(tm.inner.task_infos[1].time, 0);
    assert_eq!(tm.inner.task_infos[2].time, 0);
    assert_eq!(tm.inner.task_infos[2].status, TaskStatus::UnInit);
}
