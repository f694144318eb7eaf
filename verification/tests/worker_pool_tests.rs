use inference_pool::error::{AdmissionError, ConfigError};
use inference_pool::job::{InferenceJob, InferenceResult};
use inference_pool::resource::ResourceCost;
use inference_pool::types::{Priority, TaskExecutor, TaskMetadata};
use inference_pool::worker_pool::{
    Dispatch, InferenceWorkerPool, InferenceWorkerPoolConfig, PoolStats, DEFAULT_MAX_QUEUE_DEPTH,
    DEFAULT_TIMEOUT_SECS,
};

/// An executor that counts its calls, keeps what it was given and answers as
/// it was told.
struct Scripted {
    calls: usize,
    stream: bool,
    seen: Vec<(InferenceJob, TaskMetadata)>,
}

impl TaskExecutor<InferenceJob, InferenceResult> for Scripted {
    fn execute(&mut self, payload: InferenceJob, meta: TaskMetadata) -> InferenceResult {
        self.calls += 1;
        self.seen.push((payload.clone(), meta));
        if self.stream {
            let (_tx, rx) = flume::unbounded();
            InferenceResult::streaming(payload.request_id.to_string(), rx)
        } else {
            InferenceResult::error("done")
        }
    }
}

fn job(request_id: usize) -> InferenceJob {
    InferenceJob {
        request_id,
        is_streaming: false,
        messages: None,
        sampling_params: None,
        constraint: None,
        return_logprobs: false,
        truncate_sequence: false,
        tools: None,
        tool_choice: None,
    }
}

fn meta(id: u64, units: u32) -> TaskMetadata {
    TaskMetadata::new(id, ResourceCost::new(units))
}

fn pool(max_units: u32, max_queue_depth: usize, stream: bool) -> InferenceWorkerPool<Scripted> {
    InferenceWorkerPool::new(
        InferenceWorkerPoolConfig::new(2, max_units, max_queue_depth),
        Scripted { calls: 0, stream, seen: Vec::new() },
    )
    .unwrap()
}

#[test]
fn a_pool_needs_a_worker() {
    let made = InferenceWorkerPool::new(InferenceWorkerPoolConfig::new(0, 10, 10), ());
    assert_eq!(made.err(), Some(ConfigError::ZeroWorkers));
    assert!(InferenceWorkerPool::new(InferenceWorkerPoolConfig::new(1, 0, 0), ()).is_ok());
}

#[test]
fn the_default_config() {
    let config = InferenceWorkerPoolConfig::default();
    assert!(config.worker_count >= 1);
    assert_eq!(config.max_units, 16384);
    assert_eq!(config.max_queue_depth, 1000);
    assert_eq!(config.timeout_secs, 120);
    assert_eq!(DEFAULT_MAX_QUEUE_DEPTH, 1000);
    assert_eq!(DEFAULT_TIMEOUT_SECS, 120);
    assert_eq!(InferenceWorkerPoolConfig::new(4, 1024, 100).timeout_secs, 120);
}

#[test]
fn the_default_has_a_worker_for_each_processor() {
    let config = InferenceWorkerPoolConfig::for_processors(8);
    assert_eq!(config.worker_count, 8);
    assert_eq!(config.max_units, 16384);
    assert_eq!(config.max_queue_depth, 1000);
    assert_eq!(config.timeout_secs, 120);
    assert_eq!(InferenceWorkerPoolConfig::for_processors(1).worker_count, 1);
    assert_eq!(InferenceWorkerPoolConfig::for_processors(0).worker_count, 1);
    assert_eq!(InferenceWorkerPoolConfig::for_processors(usize::MAX).worker_count, usize::MAX);
    // The count that this host reports is the one that the default takes.
    assert_eq!(
        InferenceWorkerPoolConfig::default(),
        InferenceWorkerPoolConfig::for_processors(num_cpus::get())
    );
}

#[test]
fn a_new_pool_is_idle() {
    let pool = pool(100, 10, false);
    assert_eq!(
        pool.stats(),
        PoolStats { active_workers: 0, queued_tasks: 0, available_capacity: 100, total_capacity: 100 }
    );
    assert!(pool.is_drained());
    assert_eq!(pool.config().worker_count, 2);
    assert!(pool.streaming_registry().is_empty());
    assert_eq!(pool.streaming_registry().retention_ms(), 3_600_000);
    assert_eq!(pool.streaming_registry().now_ms(), 0);
}

#[test]
fn a_job_that_costs_too_much_never_reaches_the_executor() {
    let mut pool = pool(100, 10, false);
    let outcome = pool.submit(job(1), meta(1, 101));
    assert_eq!(
        outcome.err(),
        Some(AdmissionError::CapacityExceeded { requested: 101, available: 100 })
    );
    assert_eq!(pool.executor().calls, 0);
    assert_eq!(pool.stats().available_capacity, 100);

    // Part of the capacity is taken by a stream.
    let mut pool = self::pool(100, 10, true);
    assert!(pool.submit(job(1), meta(1, 60)).is_ok());
    assert_eq!(pool.executor().calls, 1);
    let outcome = pool.submit(job(2), meta(2, 41));
    assert_eq!(
        outcome.err(),
        Some(AdmissionError::CapacityExceeded { requested: 41, available: 40 })
    );
    assert_eq!(pool.executor().calls, 1);
    // What fits is let in.
    assert!(pool.submit(job(3), meta(3, 40)).is_ok());
    assert_eq!(pool.executor().calls, 2);
    assert_eq!(pool.stats().available_capacity, 0);
}

#[test]
fn the_executor_gets_the_job_and_the_metadata_as_they_were_given() {
    let mut pool = pool(100, 10, false);
    let meta = TaskMetadata::new(42u64, ResourceCost::gpu_vram(10))
        .with_priority(Priority::High)
        .with_deadline_ms(999999);
    let mut given = job(123);
    given.return_logprobs = true;
    given.truncate_sequence = true;
    let result = pool.submit(given, meta).unwrap();
    // The answer of the executor is what comes back.
    assert_eq!(result.error_message(), Some("done"));
    assert_eq!(pool.executor().calls, 1);
    let (seen_job, seen_meta) = &pool.executor().seen[0];
    assert_eq!(seen_job.request_id, 123);
    assert!(!seen_job.is_streaming);
    assert!(seen_job.return_logprobs);
    assert!(seen_job.truncate_sequence);
    assert!(seen_job.messages.is_none());
    assert_eq!(seen_meta.id, 42);
    assert_eq!(seen_meta.priority, Priority::High);
    assert_eq!(seen_meta.cost.units, 10);
    assert_eq!(seen_meta.deadline_ms, Some(999999));
}

#[test]
fn the_answer_of_the_executor_comes_back_as_it_is() {
    let mut pool = pool(100, 10, true);
    match pool.submit(job(31), meta(1, 10)).unwrap() {
        InferenceResult::Streaming { request_id, .. } => assert_eq!(request_id, "31"),
        other => panic!("unexpected result: {:?}", other),
    }
    assert_eq!(pool.executor().calls, 1);
}

#[test]
fn a_job_can_be_started_and_settled_in_two_steps() {
    let mut pool = pool(100, 10, false);
    pool.advance_to(500);
    let record = pool.start(meta(1, 30).with_priority(Priority::Low)).unwrap();
    assert_eq!(record.id, 1);
    assert_eq!(record.created_at_ms, 500);
    assert_eq!(record.priority, Priority::Low);
    assert_eq!(pool.stats().available_capacity, 70);
    assert_eq!(pool.stats().active_workers, 1);
    assert_eq!(pool.stats().queued_tasks, 0);
    // The executor is not involved.
    assert_eq!(pool.executor().calls, 0);
    assert_eq!(pool.start(meta(1, 1)).err(), Some(AdmissionError::DuplicateId { id: 1 }));
    assert_eq!(
        pool.start(meta(2, 71)).err(),
        Some(AdmissionError::CapacityExceeded { requested: 71, available: 70 })
    );

    // A stream keeps its units; any other result gives them back, once.
    let (_tx, rx) = flume::unbounded();
    assert!(!pool.settle(1, &InferenceResult::streaming("1".to_string(), rx)));
    assert_eq!(pool.stats().available_capacity, 70);
    assert!(pool.settle(1, &InferenceResult::error("failed")));
    assert_eq!(pool.stats().available_capacity, 100);
    assert!(!pool.settle(1, &InferenceResult::error("failed")));
    assert!(!pool.complete(1));
    assert_eq!(pool.stats().available_capacity, 100);
}

#[test]
fn units_come_back_when_the_result_is_there() {
    let mut pool = pool(100, 10, false);
    let result = pool.submit(job(1), meta(1, 100)).unwrap();
    assert_eq!(result.error_message(), Some("done"));
    assert_eq!(pool.stats().available_capacity, 100);
    assert_eq!(pool.stats().active_workers, 0);
    // The job is no longer outstanding: its id can be used again.
    assert!(pool.submit(job(1), meta(1, 100)).is_ok());
    assert!(!pool.complete(1));
}

#[test]
fn the_units_of_a_stream_come_back_once_when_it_ends() {
    let mut pool = pool(100, 10, true);
    let result = pool.submit(job(1), meta(1, 30)).unwrap();
    assert!(matches!(result, InferenceResult::Streaming { .. }));
    assert_eq!(pool.stats().available_capacity, 70);
    assert_eq!(pool.stats().active_workers, 1);
    assert!(!pool.is_drained());

    assert!(pool.complete(1));
    assert_eq!(pool.stats().available_capacity, 100);
    assert!(!pool.complete(1));
    assert_eq!(pool.stats().available_capacity, 100);
    assert!(pool.is_drained());
}

#[test]
fn an_outstanding_id_is_not_taken_twice() {
    let mut pool = pool(100, 10, true);
    assert!(pool.submit(job(1), meta(7, 10)).is_ok());
    assert_eq!(pool.submit(job(2), meta(7, 10)).err(), Some(AdmissionError::DuplicateId { id: 7 }));
    assert_eq!(pool.enqueue(meta(7, 10)).err(), Some(AdmissionError::DuplicateId { id: 7 }));
    assert!(pool.enqueue(meta(8, 10)).is_ok());
    assert_eq!(pool.enqueue(meta(8, 10)).err(), Some(AdmissionError::DuplicateId { id: 8 }));
    assert_eq!(pool.executor().calls, 1);
}

#[test]
fn a_full_queue_turns_jobs_away() {
    let mut pool = pool(100, 2, false);
    assert!(pool.enqueue(meta(1, 1)).is_ok());
    assert!(pool.enqueue(meta(2, 1)).is_ok());
    assert_eq!(pool.enqueue(meta(3, 1)).err(), Some(AdmissionError::QueueFull { depth: 2 }));
    assert_eq!(pool.submit(job(3), meta(3, 1)).err(), Some(AdmissionError::QueueFull { depth: 2 }));
    assert_eq!(pool.executor().calls, 0);
    assert_eq!(pool.stats().queued_tasks, 2);
    assert_eq!(pool.stats().available_capacity, 98);
    // Capacity is looked at before the queue.
    assert_eq!(
        pool.enqueue(meta(4, 99)).err(),
        Some(AdmissionError::CapacityExceeded { requested: 99, available: 98 })
    );
}

#[test]
fn a_deadline_that_has_passed_turns_the_job_away() {
    let mut pool = pool(100, 10, false);
    pool.advance_to(1000);
    assert_eq!(
        pool.submit(job(1), meta(1, 1).with_deadline_ms(999)).err(),
        Some(AdmissionError::DeadlineExceeded { deadline_ms: 999, now_ms: 1000 })
    );
    assert_eq!(pool.executor().calls, 0);
    assert!(pool.submit(job(1), meta(1, 1).with_deadline_ms(1000)).is_ok());
}

#[test]
fn a_deadline_that_passes_in_the_queue_drops_the_job() {
    let mut pool = pool(100, 10, false);
    pool.advance_to(1000);
    assert!(pool.enqueue(meta(1, 25).with_deadline_ms(1500)).is_ok());
    assert!(pool.enqueue(meta(2, 25).with_deadline_ms(3000)).is_ok());
    assert_eq!(pool.stats().available_capacity, 50);
    pool.advance_to(2000);
    match pool.dispatch_next() {
        Dispatch::Expired { job, refusal } => {
            assert_eq!(job.id, 1);
            assert_eq!(job.created_at_ms, 1000);
            assert_eq!(job.deadline_ms, Some(1500));
            assert_eq!(refusal, AdmissionError::DeadlineExceeded { deadline_ms: 1500, now_ms: 2000 });
        }
        other => panic!("unexpected dispatch: {:?}", other),
    }
    // Its units are free again, and it cannot be completed.
    assert_eq!(pool.stats().available_capacity, 75);
    assert!(!pool.complete(1));
    match pool.dispatch_next() {
        Dispatch::Run(record) => assert_eq!(record.id, 2),
        other => panic!("unexpected dispatch: {:?}", other),
    }
    assert_eq!(pool.stats().available_capacity, 75);
    assert_eq!(pool.stats().active_workers, 1);
    assert!(matches!(pool.dispatch_next(), Dispatch::Idle));
    assert!(pool.complete(2));
    assert_eq!(pool.stats().available_capacity, 100);
}

#[test]
fn jobs_are_dispatched_by_priority_and_then_by_arrival() {
    let mut pool = pool(100, 10, false);
    assert!(pool.enqueue(meta(1, 1).with_priority(Priority::Low)).is_ok());
    assert!(pool.enqueue(meta(2, 1)).is_ok());
    assert!(pool.enqueue(meta(3, 1).with_priority(Priority::High)).is_ok());
    assert!(pool.enqueue(meta(4, 1)).is_ok());
    assert!(pool.enqueue(meta(5, 1).with_priority(Priority::High)).is_ok());
    let mut order = Vec::new();
    loop {
        match pool.dispatch_next() {
            Dispatch::Run(record) => order.push(record.id),
            Dispatch::Idle => break,
            other => panic!("unexpected dispatch: {:?}", other),
        }
    }
    assert_eq!(order, vec![3, 5, 2, 4, 1]);
    assert_eq!(pool.stats().queued_tasks, 0);
    // Two workers, five jobs in flight: both workers are busy.
    assert_eq!(pool.stats().active_workers, 2);
    assert_eq!(pool.stats().available_capacity, 95);
}

#[test]
fn a_pool_that_is_shut_down_takes_no_work_and_drains() {
    let mut pool = pool(100, 10, true);
    assert!(pool.submit(job(1), meta(1, 10)).is_ok());
    assert!(pool.enqueue(meta(2, 10)).is_ok());
    assert!(pool.shutdown().is_ok());
    // Shutting down again is no error and changes nothing.
    assert!(pool.shutdown().is_ok());
    assert_eq!(pool.submit(job(3), meta(3, 1)).err(), Some(AdmissionError::ShuttingDown));
    assert_eq!(pool.enqueue(meta(3, 1)).err(), Some(AdmissionError::ShuttingDown));
    assert_eq!(pool.check_admission(&meta(3, 1)), Some(AdmissionError::ShuttingDown));
    assert_eq!(pool.executor().calls, 1);
    assert_eq!(pool.stats().available_capacity, 80);
    // What was let in can still be carried through.
    assert!(matches!(pool.dispatch_next(), Dispatch::Run(record) if record.id == 2));
    assert!(pool.complete(1));
    assert!(pool.complete(2));
    assert!(pool.is_drained());
    assert_eq!(pool.stats().available_capacity, 100);
}

#[test]
fn no_reservation_is_lost() {
    let mut pool = pool(2000, 2000, false);
    for id in 0..2000u64 {
        assert!(pool.enqueue(meta(id, 1)).is_ok());
    }
    assert_eq!(pool.stats().available_capacity, 0);
    assert_eq!(pool.stats().queued_tasks, 2000);
    assert_eq!(
        pool.enqueue(meta(2000, 1)).err(),
        Some(AdmissionError::CapacityExceeded { requested: 1, available: 0 })
    );
    let mut released = 0;
    while let Dispatch::Run(record) = pool.dispatch_next() {
        assert!(pool.complete(record.id));
        released += 1;
    }
    assert_eq!(released, 2000);
    assert_eq!(pool.stats().available_capacity, 2000);
}

#[test]
fn every_refusal_has_a_message() {
    assert_eq!(AdmissionError::ShuttingDown.message(), "worker pool is shutting down");
    assert_eq!(AdmissionError::DuplicateId { id: 1 }.message(), "task id is already in flight");
    assert_eq!(
        AdmissionError::CapacityExceeded { requested: 2, available: 1 }.message(),
        "requested units exceed available capacity"
    );
    assert_eq!(AdmissionError::QueueFull { depth: 3 }.message(), "queue is full");
    assert_eq!(
        AdmissionError::DeadlineExceeded { deadline_ms: 1, now_ms: 2 }.message(),
        "deadline exceeded before dispatch"
    );
}

#[test]
fn the_pool_keeps_a_registry_and_tells_it_the_time() {
    let mut pool = pool(100, 10, false);
    let (_tx, rx) = flume::unbounded();
    pool.streaming_registry_mut().register("k".to_string(), "r".to_string(), rx);
    assert_eq!(pool.streaming_registry().len(), 1);
    pool.advance_to(5000);
    assert_eq!(pool.streaming_registry().now_ms(), 5000);
    assert_eq!(pool.streaming_registry_mut().cleanup_expired(), 0);
    pool.advance_to(5000 + 3_600_001);
    assert_eq!(pool.streaming_registry_mut().cleanup_expired(), 1);
    assert!(pool.streaming_registry().is_empty());
    // The jobs of the pool are untouched.
    assert_eq!(pool.stats().available_capacity, 100);
}
