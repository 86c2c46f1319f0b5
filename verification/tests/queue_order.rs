use aperio::job::Job;
use aperio::queue::{JobPriority, JobQueue, PriorityBreakdown, QueuedJob};

fn job(id: &str) -> Job {
    Job::with_id(id.to_string(), format!("https://youtube.com/watch?v={id}"), 1_000)
}

fn next_id(q: &mut JobQueue) -> Option<String> {
    q.next_job().map(|entry| entry.job.id)
}

#[test]
fn priority_levels() {
    assert_eq!(JobPriority::Low.level(), 1);
    assert_eq!(JobPriority::Normal.level(), 2);
    assert_eq!(JobPriority::High.level(), 3);
}

#[test]
fn priority_names() {
    assert_eq!(JobPriority::parse(Some("high")), JobPriority::High);
    assert_eq!(JobPriority::parse(Some("low")), JobPriority::Low);
    assert_eq!(JobPriority::parse(Some("normal")), JobPriority::Normal);
    assert_eq!(JobPriority::parse(Some("HIGH")), JobPriority::Normal);
    assert_eq!(JobPriority::parse(Some("")), JobPriority::Normal);
    assert_eq!(JobPriority::parse(None), JobPriority::Normal);
}

#[test]
fn priority_then_fifo() {
    let mut q = JobQueue::with_limits(1, 10);
    q.enqueue_at(job("a"), JobPriority::Normal, 1).unwrap();
    q.enqueue_at(job("b"), JobPriority::High, 2).unwrap();
    q.enqueue_at(job("c"), JobPriority::Normal, 3).unwrap();
    q.enqueue_at(job("d"), JobPriority::High, 4).unwrap();
    let mut order = Vec::new();
    while let Some(id) = next_id(&mut q) {
        assert_eq!(next_id(&mut q), None);
        q.job_finished(&id);
        order.push(id);
    }
    assert_eq!(order, vec!["b", "d", "a", "c"]);
}

#[test]
fn priority_then_fifo_by_the_clock() {
    let mut q = JobQueue::with_limits(1, 10);
    q.enqueue(job("a"), JobPriority::Normal).unwrap();
    q.enqueue(job("b"), JobPriority::High).unwrap();
    q.enqueue(job("c"), JobPriority::Normal).unwrap();
    q.enqueue(job("d"), JobPriority::High).unwrap();
    let mut order = Vec::new();
    while let Some(id) = next_id(&mut q) {
        q.job_finished(&id);
        order.push(id);
    }
    assert_eq!(order, vec!["b", "d", "a", "c"]);
}

#[test]
fn arrivals_keep_their_order_when_the_clock_steps_back() {
    let mut q = JobQueue::with_limits(4, 10);
    q.enqueue_arrival_at(job("a"), JobPriority::Normal, 100).unwrap();
    q.enqueue_arrival_at(job("b"), JobPriority::Normal, 40).unwrap();
    q.enqueue_arrival_at(job("c"), JobPriority::High, 10).unwrap();
    q.enqueue_arrival_at(job("d"), JobPriority::Normal, 120).unwrap();
    let mut stamps = Vec::new();
    let mut order = Vec::new();
    while let Some(entry) = q.next_job() {
        stamps.push(entry.queued_at);
        order.push(entry.job.id);
    }
    assert_eq!(order, vec!["c", "a", "b", "d"]);
    assert_eq!(stamps, vec![100, 100, 100, 120]);
    q.enqueue_arrival_at(job("e"), JobPriority::Low, -5).unwrap();
    q.job_finished("c");
    assert_eq!(q.next_job().unwrap().queued_at, -5);
}

#[test]
fn equal_entries_leave_in_the_order_they_came() {
    let mut q = JobQueue::with_limits(5, 10);
    q.enqueue_at(job("x"), JobPriority::Low, 7).unwrap();
    q.enqueue_at(job("y"), JobPriority::Low, 7).unwrap();
    q.enqueue_at(job("z"), JobPriority::Low, 7).unwrap();
    assert_eq!(next_id(&mut q).as_deref(), Some("x"));
    assert_eq!(next_id(&mut q).as_deref(), Some("y"));
    assert_eq!(next_id(&mut q).as_deref(), Some("z"));
}

#[test]
fn earlier_queued_goes_first_within_a_priority() {
    let mut q = JobQueue::with_limits(5, 10);
    q.enqueue_at(job("late"), JobPriority::Normal, 50).unwrap();
    q.enqueue_at(job("early"), JobPriority::Normal, 10).unwrap();
    q.enqueue_at(job("low"), JobPriority::Low, 1).unwrap();
    assert_eq!(next_id(&mut q).as_deref(), Some("early"));
    assert_eq!(next_id(&mut q).as_deref(), Some("late"));
    assert_eq!(next_id(&mut q).as_deref(), Some("low"));
}

#[test]
fn dispatch_order_of_entries() {
    let high = QueuedJob::new_at(job("h"), JobPriority::High, 9);
    let normal = QueuedJob::new_at(job("n"), JobPriority::Normal, 1);
    let later = QueuedJob::new_at(job("l"), JobPriority::Normal, 2);
    assert!(high.dispatches_before(&normal));
    assert!(!normal.dispatches_before(&high));
    assert!(normal.dispatches_before(&later));
    assert!(!later.dispatches_before(&normal));
    assert!(!normal.dispatches_before(&normal));
}

#[test]
fn concurrency_cap_holds_the_third_job_back() {
    let mut q = JobQueue::with_limits(2, 10);
    q.enqueue_at(job("one"), JobPriority::Normal, 1).unwrap();
    q.enqueue_at(job("two"), JobPriority::Normal, 2).unwrap();
    q.enqueue_at(job("three"), JobPriority::Normal, 3).unwrap();
    assert_eq!(next_id(&mut q).as_deref(), Some("one"));
    assert_eq!(next_id(&mut q).as_deref(), Some("two"));
    assert_eq!(next_id(&mut q), None);
    assert_eq!(q.get_queue_info(), (1, 2));
    q.job_finished("one");
    assert_eq!(q.get_queue_info(), (1, 1));
    assert_eq!(next_id(&mut q).as_deref(), Some("three"));
    assert_eq!(q.get_queue_info(), (0, 2));
    assert!(q.is_active("two") && q.is_active("three") && !q.is_active("one"));
}

#[test]
fn zero_slots_never_dispatch() {
    let mut q = JobQueue::with_limits(0, 10);
    q.enqueue_at(job("a"), JobPriority::High, 1).unwrap();
    assert_eq!(next_id(&mut q), None);
    assert_eq!(q.get_queue_info(), (1, 0));
}

#[test]
fn full_queue_refuses() {
    let mut q = JobQueue::with_limits(1, 2);
    q.enqueue_at(job("a"), JobPriority::Normal, 1).unwrap();
    q.enqueue_at(job("b"), JobPriority::Normal, 2).unwrap();
    let refused = q.enqueue_at(job("c"), JobPriority::High, 3);
    assert_eq!(refused, Err("Queue is full (max 2 jobs), try again later".to_string()));
    assert_eq!(q.get_queue_info(), (2, 0));
}

#[test]
fn default_capacity_is_one_thousand() {
    let mut q = JobQueue::new(1);
    for i in 0..1000 {
        q.enqueue_at(job(&format!("j{i}")), JobPriority::Normal, i).unwrap();
    }
    assert_eq!(
        q.enqueue_at(job("over"), JobPriority::Normal, 2000),
        Err("Queue is full (max 1000 jobs), try again later".to_string())
    );
}

#[test]
fn enqueue_now_accepts() {
    let mut q = JobQueue::with_limits(1, 3);
    q.enqueue(job("a"), JobPriority::Normal).unwrap();
    assert_eq!(q.get_queue_info(), (1, 0));
    let entry = q.next_job().unwrap();
    assert!(entry.queued_at > 1_600_000_000_000);
}

#[test]
fn cancel_removes_queued_entries() {
    let mut q = JobQueue::with_limits(1, 10);
    q.enqueue_at(job("a"), JobPriority::Normal, 1).unwrap();
    q.enqueue_at(job("b"), JobPriority::Normal, 2).unwrap();
    q.enqueue_at(job("a"), JobPriority::High, 3).unwrap();
    q.enqueue_at(job("c"), JobPriority::Normal, 4).unwrap();
    assert_eq!(q.cancel_job("a"), Ok(true));
    assert_eq!(q.get_queue_info(), (2, 0));
    assert_eq!(next_id(&mut q).as_deref(), Some("b"));
    q.job_finished("b");
    assert_eq!(next_id(&mut q).as_deref(), Some("c"));
}

#[test]
fn cancel_removes_running_job() {
    let mut q = JobQueue::with_limits(1, 10);
    q.enqueue_at(job("a"), JobPriority::Normal, 1).unwrap();
    q.enqueue_at(job("b"), JobPriority::Normal, 2).unwrap();
    assert_eq!(next_id(&mut q).as_deref(), Some("a"));
    assert!(q.is_active("a"));
    assert_eq!(q.cancel_job("a"), Ok(true));
    assert!(!q.is_active("a"));
    assert_eq!(next_id(&mut q).as_deref(), Some("b"));
}

#[test]
fn cancel_of_unknown_job_finds_nothing() {
    let mut q = JobQueue::with_limits(1, 10);
    q.enqueue_at(job("a"), JobPriority::Normal, 1).unwrap();
    assert_eq!(q.cancel_job("nope"), Ok(false));
    assert_eq!(q.get_queue_info(), (1, 0));
}

#[test]
fn shutdown_drops_everything_and_refuses() {
    let mut q = JobQueue::with_limits(2, 10);
    q.enqueue_at(job("a"), JobPriority::Normal, 1).unwrap();
    q.enqueue_at(job("b"), JobPriority::Normal, 2).unwrap();
    q.enqueue_at(job("c"), JobPriority::Normal, 3).unwrap();
    q.next_job();
    q.next_job();
    assert!(!q.is_shutdown());
    let aborted = q.shutdown();
    assert_eq!(aborted, vec!["a", "b"]);
    assert!(q.is_shutdown());
    assert_eq!(q.get_queue_info(), (0, 0));
    assert_eq!(
        q.enqueue_at(job("d"), JobPriority::High, 4),
        Err("Job queue is shutting down".to_string())
    );
    assert_eq!(next_id(&mut q), None);
}

#[test]
fn same_job_running_twice_counts_once() {
    let mut q = JobQueue::with_limits(3, 10);
    q.enqueue_at(job("a"), JobPriority::Normal, 1).unwrap();
    q.enqueue_at(job("a"), JobPriority::Normal, 2).unwrap();
    assert!(q.next_job().is_some());
    assert!(q.next_job().is_some());
    assert_eq!(q.get_queue_info(), (0, 1));
    q.job_finished("a");
    assert_eq!(q.get_queue_info(), (0, 0));
}

#[test]
fn stats_count_by_priority() {
    let mut q = JobQueue::with_limits(4, 10);
    q.enqueue_at(job("a"), JobPriority::Normal, 1).unwrap();
    q.enqueue_at(job("b"), JobPriority::High, 2).unwrap();
    q.enqueue_at(job("c"), JobPriority::Normal, 3).unwrap();
    q.enqueue_at(job("d"), JobPriority::Low, 4).unwrap();
    q.next_job();
    let stats = q.get_queue_stats();
    assert_eq!(stats.queued_jobs, 3);
    assert_eq!(stats.active_jobs, 1);
    assert_eq!(stats.max_concurrent_jobs, 4);
    assert_eq!(stats.priority_breakdown, PriorityBreakdown { low: 1, normal: 2, high: 0 });
}
