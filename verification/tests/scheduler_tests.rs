use rust_async_runtime::Computation;
use rust_async_runtime::Executor;
use rust_async_runtime::Runtime;
use rust_async_runtime::Step;
use rust_async_runtime::Task;
use rust_async_runtime::TaskWaker;

#[test]
fn test_task_execution() {
    let mut runtime = Runtime::new();

    runtime.block_on(Computation::new(0, 1));

    let counter: u64 = runtime.executor.completion_log.iter().sum();
    assert_eq!(counter, 1);
}

#[test]
fn test_multiple_tasks() {
    let mut runtime = Runtime::new();

    for _ in 0..3 {
        runtime.spawn(Computation::new(0, 1)).unwrap();
    }
    runtime.block_on(Computation::new(0, 0));

    let counter: u64 = runtime.executor.completion_log.iter().sum();
    assert_eq!(counter, 3);
}

#[test]
fn block_on_immediate_computation_steps_once() {
    let mut runtime = Runtime::new();
    runtime.block_on(Computation::new(0, 7));
    assert_eq!(runtime.executor.steps_taken, 1);
    assert_eq!(runtime.executor.completion_log, vec![7]);
    assert_eq!(runtime.executor.task_queue.len(), 0);
}

#[test]
fn suspending_computation_steps_k_plus_one() {
    let mut runtime = Runtime::new();
    runtime.block_on(Computation::new(3, 9));
    assert_eq!(runtime.executor.steps_taken, 4);
    assert_eq!(runtime.executor.completion_log, vec![9]);
    assert_eq!(runtime.executor.task_queue.len(), 0);
    assert_eq!(runtime.inbox.len(), 0);
}

#[test]
fn immediate_tasks_complete_in_spawn_order() {
    let mut executor = Executor::new();
    executor.spawn(Computation::new(0, 1));
    executor.spawn(Computation::new(0, 2));
    executor.spawn(Computation::new(0, 3));
    executor.run();
    assert_eq!(executor.completion_log, vec![1, 2, 3]);
    assert_eq!(executor.steps_taken, 3);
    assert_eq!(executor.task_queue.len(), 0);
}

#[test]
fn counter_effects_in_spawn_order() {
    let mut runtime = Runtime::new();
    runtime.spawn(Computation::new(0, 1)).unwrap();
    runtime.spawn(Computation::new(0, 2)).unwrap();
    runtime.block_on(Computation::new(0, 0));
    assert_eq!(runtime.executor.completion_log, vec![1, 2, 0]);
}

#[test]
fn round_robin_interleaves_suspending_tasks() {
    let mut executor = Executor::new();
    executor.spawn(Computation::new(1, 1));
    executor.spawn(Computation::new(0, 2));
    executor.run();
    assert_eq!(executor.completion_log, vec![2, 1]);
    assert_eq!(executor.steps_taken, 3);
}

#[test]
fn suspend_once_then_complete_on_resume() {
    let mut runtime = Runtime::new();
    runtime.spawn(Computation::new(1, 1)).unwrap();
    runtime.block_on(Computation::new(0, 0));
    assert_eq!(runtime.executor.completion_log, vec![0, 1]);
    assert_eq!(runtime.executor.steps_taken, 3);
}

#[test]
fn tick_on_idle_runtime_does_nothing() {
    let mut runtime = Runtime::new();
    runtime.run_non_blocking(5);
    assert_eq!(runtime.executor.steps_taken, 0);
    assert!(runtime.executor.completion_log.is_empty());
    assert_eq!(runtime.executor.task_queue.len(), 0);
    assert_eq!(runtime.inbox.len(), 0);
    assert_eq!(runtime.timer_wheel.timers.len(), 0);
}

#[test]
fn deferred_task_waits_for_its_deadline() {
    let mut runtime = Runtime::new();
    runtime.spawn_after(Computation::new(0, 4), 10, 0);

    runtime.run_non_blocking(5);
    assert_eq!(runtime.executor.steps_taken, 0);
    assert_eq!(runtime.executor.task_queue.len(), 0);
    assert_eq!(runtime.timer_wheel.timers.len(), 1);
    assert!(runtime.executor.completion_log.is_empty());

    runtime.run_non_blocking(10);
    assert_eq!(runtime.executor.steps_taken, 1);
    assert_eq!(runtime.executor.completion_log, vec![4]);
    assert_eq!(runtime.timer_wheel.timers.len(), 0);
}

#[test]
fn deferred_task_with_zero_delay_is_admitted_at_once() {
    let mut runtime = Runtime::new();
    runtime.spawn_after(Computation::new(0, 6), 0, 3);
    runtime.run_non_blocking(3);
    assert_eq!(runtime.executor.completion_log, vec![6]);
    assert_eq!(runtime.timer_wheel.timers.len(), 0);
}

#[test]
fn timers_expiring_together_are_admitted_in_storage_order() {
    let mut runtime = Runtime::new();
    runtime.spawn_after(Computation::new(0, 1), 2, 0);
    runtime.spawn_after(Computation::new(0, 2), 2, 0);
    runtime.run_non_blocking(2);
    runtime.run_non_blocking(2);
    assert_eq!(runtime.executor.completion_log, vec![1, 2]);
    assert_eq!(runtime.executor.steps_taken, 2);
}

#[test]
fn spawn_reports_success_and_admits_exactly_once() {
    let mut runtime = Runtime::new();
    let result = runtime.spawn(Computation::new(0, 8));
    assert!(result.is_ok());
    assert_eq!(runtime.inbox.len(), 1);
    assert_eq!(runtime.executor.task_queue.len(), 0);

    runtime.run_non_blocking(0);
    assert_eq!(runtime.inbox.len(), 0);
    assert_eq!(runtime.executor.completion_log, vec![8]);
    assert_eq!(runtime.executor.steps_taken, 1);
}

#[test]
fn tick_admits_inbox_before_timers() {
    let mut runtime = Runtime::new();
    runtime.spawn_after(Computation::new(0, 2), 0, 0);
    runtime.spawn(Computation::new(0, 1)).unwrap();
    runtime.run_non_blocking(0);
    runtime.run_non_blocking(0);
    assert_eq!(runtime.executor.completion_log, vec![1, 2]);
}

#[test]
fn waker_records_the_wake_signal() {
    let mut waker = TaskWaker::new();
    assert!(!waker.is_notified());
    waker.wake();
    assert!(waker.is_notified());
}

#[test]
fn task_polls_through_suspension_to_completion() {
    let mut task = Task::new(Computation::new(1, 5));
    let mut waker = TaskWaker::new();
    assert_eq!(task.poll(&mut waker), Step::Suspended);
    assert!(waker.is_notified());

    let mut second_waker = TaskWaker::new();
    assert_eq!(task.poll(&mut second_waker), Step::Completed);
    assert!(!second_waker.is_notified());
}

#[test]
fn suspended_task_rejoins_the_queue_tail() {
    let mut executor = Executor::new();
    executor.spawn(Computation::new(1, 1));
    executor.spawn(Computation::new(0, 2));

    let progressed = executor.run_one_tick();
    assert!(progressed);
    assert_eq!(executor.task_queue.len(), 2);
    assert_eq!(executor.task_queue[1].computation.remaining, 0);
    assert_eq!(executor.task_queue[1].computation.effect, 1);
    assert!(executor.completion_log.is_empty());
}

#[test]
fn run_one_tick_on_empty_queue_reports_no_work() {
    let mut executor = Executor::new();
    let progressed = executor.run_one_tick();
    assert!(!progressed);
    assert_eq!(executor.steps_taken, 0);
}
