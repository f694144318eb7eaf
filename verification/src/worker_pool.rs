//! The single point of admission for inference jobs.
//!
//! A job is admitted only if the units it costs are free. Its units stay
//! reserved while it waits and while it runs, and are given back once, when
//! its result has been produced or, for a stream, when the stream has ended.
//! Waiting jobs are dispatched by priority, and first come first served among
//! jobs of one priority.
//!
//! A job in flight keeps a worker busy, as far as there are workers. The pool
//! holds no job back for want of a worker: whoever dispatches has one free.
//!
//! The pool does not look at a clock: it is told the time.

use vstd::prelude::*;
use crate::error::{AdmissionError, ConfigError};
use crate::job::{InferenceJob, InferenceResult};
use crate::resource::DEFAULT_MAX_UNITS;
use crate::streaming_registry::{StreamingRegistry, DEFAULT_RETENTION_MS};
use crate::types::{ParkingLotTaskMetadata, TaskExecutor, TaskMetadata};

verus! {

/// How many jobs may wait unless configured otherwise.
pub const DEFAULT_MAX_QUEUE_DEPTH: usize = 1000;

/// How long a job may run unless configured otherwise, in seconds.
pub const DEFAULT_TIMEOUT_SECS: u64 = 120;

/// `num_cpus::get`: the number of logical processors that this process may
/// use. It differs from machine to machine, so nothing is claimed of it.
#[verifier::external_body]
fn logical_cpu_count() -> (count: usize) {
    num_cpus::get()
}

/// How a pool is set up.
#[derive(Debug, Clone, Copy, PartialEq, Eq, Structural)]
pub struct InferenceWorkerPoolConfig {
    /// How many jobs can run at a time.
    pub worker_count: usize,
    /// The capacity of the pool.
    pub max_units: u32,
    /// How many jobs may wait.
    pub max_queue_depth: usize,
    /// How long a job may run, in seconds.
    pub timeout_secs: u64,
}

impl InferenceWorkerPoolConfig {
    pub fn new(worker_count: usize, max_units: u32, max_queue_depth: usize) -> (config: Self)
        ensures
            config == (InferenceWorkerPoolConfig {
                worker_count,
                max_units,
                max_queue_depth,
                timeout_secs: DEFAULT_TIMEOUT_SECS,
            }),
    {
        InferenceWorkerPoolConfig {
            worker_count,
            max_units,
            max_queue_depth,
            timeout_secs: DEFAULT_TIMEOUT_SECS,
        }
    }

    /// The setup for a host with `processors` logical processors: one worker
    /// for each of them, and one where the host reports none.
    pub fn for_processors(processors: usize) -> (config: Self)
        ensures
            config == (InferenceWorkerPoolConfig {
                worker_count: if processors == 0 {
                    1
                } else {
                    processors
                },
                max_units: DEFAULT_MAX_UNITS,
                max_queue_depth: DEFAULT_MAX_QUEUE_DEPTH,
                timeout_secs: DEFAULT_TIMEOUT_SECS,
            }),
    {
        InferenceWorkerPoolConfig {
            worker_count: if processors == 0 {
                1
            } else {
                processors
            },
            max_units: DEFAULT_MAX_UNITS,
            max_queue_depth: DEFAULT_MAX_QUEUE_DEPTH,
            timeout_secs: DEFAULT_TIMEOUT_SECS,
        }
    }

    pub fn with_timeout_secs(self, timeout_secs: u64) -> (config: Self)
        ensures
            config == (InferenceWorkerPoolConfig { timeout_secs, ..self }),
    {
        InferenceWorkerPoolConfig {
            worker_count: self.worker_count,
            max_units: self.max_units,
            max_queue_depth: self.max_queue_depth,
            timeout_secs,
        }
    }
}

impl Default for InferenceWorkerPoolConfig {
    /// One worker for each logical processor, and at least one.
    fn default() -> (config: Self)
        ensures
            config.worker_count >= 1,
            config.max_units == DEFAULT_MAX_UNITS,
            config.max_queue_depth == DEFAULT_MAX_QUEUE_DEPTH,
            config.timeout_secs == DEFAULT_TIMEOUT_SECS,
    {
        Self::for_processors(logical_cpu_count())
    }
}

/// What a pool is doing at one moment.
#[derive(Debug, Clone, Copy, PartialEq, Eq, Structural)]
pub struct PoolStats {
    /// How many workers are busy.
    pub active_workers: usize,
    /// How many jobs wait.
    pub queued_tasks: usize,
    /// How many units are free.
    pub available_capacity: u32,
    /// How many units there are.
    pub total_capacity: u32,
}

/// The units that `jobs` cost together.
pub open spec fn units_sum(jobs: Seq<ParkingLotTaskMetadata>) -> nat
    decreases jobs.len(),
{
    if jobs.len() == 0 {
        0
    } else {
        units_sum(jobs.drop_last()) + jobs.last().cost.units as nat
    }
}

/// Whether one of `jobs` has the id `id`.
pub open spec fn holds_id(jobs: Seq<ParkingLotTaskMetadata>, id: u64) -> bool {
    exists|i: int| 0 <= i < jobs.len() && (#[trigger] jobs[i]).id == id
}

/// Whether no two of `jobs` have one id.
pub open spec fn distinct_ids(jobs: Seq<ParkingLotTaskMetadata>) -> bool {
    forall|i: int, j: int|
        0 <= i < j < jobs.len() ==> (#[trigger] jobs[i]).id != (#[trigger] jobs[j]).id
}

/// Whether no job of `one` has the id of a job of `other`.
pub open spec fn apart(one: Seq<ParkingLotTaskMetadata>, other: Seq<ParkingLotTaskMetadata>) -> bool {
    forall|i: int, j: int|
        0 <= i < one.len() && 0 <= j < other.len() ==> (#[trigger] one[i]).id != (
        #[trigger] other[j]).id
}

/// The place of the first of `jobs` at or after `from` with the id `id`, or
/// the length of `jobs`.
pub open spec fn position_from(jobs: Seq<ParkingLotTaskMetadata>, id: u64, from: int) -> int
    decreases jobs.len() - from,
{
    if from < 0 || from >= jobs.len() {
        jobs.len() as int
    } else if jobs[from].id == id {
        from
    } else {
        position_from(jobs, id, from + 1)
    }
}

/// The place of the job with the id `id`, or the length of `jobs`.
pub open spec fn position(jobs: Seq<ParkingLotTaskMetadata>, id: u64) -> int {
    position_from(jobs, id, 0)
}

/// The place, among the first `n` of `queue`, of the job to dispatch next:
/// the earliest of those with the highest priority.
pub open spec fn next_upto(queue: Seq<ParkingLotTaskMetadata>, n: int) -> int
    decreases n,
{
    if n <= 1 {
        0
    } else {
        let best = next_upto(queue, n - 1);
        if queue[n - 1].priority.rank() > queue[best].priority.rank() {
            n - 1
        } else {
            best
        }
    }
}

/// The place in `queue` of the job to dispatch next.
pub open spec fn next_index(queue: Seq<ParkingLotTaskMetadata>) -> int {
    next_upto(queue, queue.len() as int)
}

/// The record of `meta`, admitted at `now_ms`.
pub open spec fn record_of(meta: TaskMetadata, now_ms: u64) -> ParkingLotTaskMetadata {
    ParkingLotTaskMetadata {
        id: meta.id,
        priority: meta.priority,
        cost: meta.cost,
        created_at_ms: now_ms,
        deadline_ms: meta.deadline_ms,
    }
}

/// What the pool does with the job that is next in line.
#[derive(Debug, Clone, Copy, PartialEq, Eq, Structural)]
pub enum Dispatch {
    /// No job waits.
    Idle,
    /// The job is to be run now. Its units stay reserved until `complete`.
    Run(ParkingLotTaskMetadata),
    /// The deadline of the job passed while it waited. It is not to be run,
    /// its units are free again, and whoever submitted it is owed `refusal`.
    Expired { job: ParkingLotTaskMetadata, refusal: AdmissionError },
}

pub proof fn lemma_units_sum_push(jobs: Seq<ParkingLotTaskMetadata>, job: ParkingLotTaskMetadata)
    ensures
        units_sum(jobs.push(job)) == units_sum(jobs) + job.cost.units,
{
    assert(jobs.push(job).drop_last() =~= jobs);
}

pub proof fn lemma_units_sum_remove(jobs: Seq<ParkingLotTaskMetadata>, at: int)
    requires
        0 <= at < jobs.len(),
    ensures
        units_sum(jobs.remove(at)) + jobs[at].cost.units == units_sum(jobs),
    decreases jobs.len(),
{
    if at == jobs.len() - 1 {
        assert(jobs.remove(at) =~= jobs.drop_last());
    } else {
        lemma_units_sum_remove(jobs.drop_last(), at);
        assert(jobs.remove(at).drop_last() =~= jobs.drop_last().remove(at));
        assert(jobs.remove(at).last() == jobs.last());
    }
}

/// Jobs with ids of their own keep them when one job leaves, and the id of
/// the job that left is then free.
pub proof fn lemma_remove_keeps_distinct(jobs: Seq<ParkingLotTaskMetadata>, at: int)
    requires
        distinct_ids(jobs),
        0 <= at < jobs.len(),
    ensures
        distinct_ids(jobs.remove(at)),
        !holds_id(jobs.remove(at), jobs[at].id),
{
    let rest = jobs.remove(at);
    assert forall|i: int| 0 <= i < rest.len() implies (#[trigger] rest[i]) == jobs[if i < at {
        i
    } else {
        i + 1
    }] by {}
    assert forall|i: int, j: int| 0 <= i < j < rest.len() implies (#[trigger] rest[i]).id != (
    #[trigger] rest[j]).id by {
        let i0 = if i < at {
            i
        } else {
            i + 1
        };
        let j0 = if j < at {
            j
        } else {
            j + 1
        };
        assert(jobs[i0].id != jobs[j0].id);
    }
    assert forall|i: int| 0 <= i < rest.len() implies (#[trigger] rest[i]).id != jobs[at].id by {
        let i0 = if i < at {
            i
        } else {
            i + 1
        };
        assert(jobs[i0].id != jobs[at].id);
    }
}

/// Two lists of jobs that share no id share none when a job leaves the first,
/// and none of the second has the id of a job of the first.
pub proof fn lemma_remove_keeps_apart(
    one: Seq<ParkingLotTaskMetadata>,
    at: int,
    other: Seq<ParkingLotTaskMetadata>,
)
    requires
        apart(one, other),
        0 <= at < one.len(),
    ensures
        apart(one.remove(at), other),
        apart(other, one.remove(at)),
        !holds_id(other, one[at].id),
{
    let rest = one.remove(at);
    assert forall|i: int, j: int| 0 <= i < rest.len() && 0 <= j < other.len() implies (
    #[trigger] rest[i]).id != (#[trigger] other[j]).id by {
        let i0 = if i < at {
            i
        } else {
            i + 1
        };
        assert(one[i0].id != other[j].id);
    }
    assert forall|j: int| 0 <= j < other.len() implies (#[trigger] other[j]).id != one[at].id by {
        assert(one[at].id != other[j].id);
    }
}

/// Jobs with ids of their own keep them when a job with a new id joins.
pub proof fn lemma_push_keeps_distinct(jobs: Seq<ParkingLotTaskMetadata>, job: ParkingLotTaskMetadata)
    requires
        distinct_ids(jobs),
        !holds_id(jobs, job.id),
    ensures
        distinct_ids(jobs.push(job)),
        position(jobs.push(job), job.id) == jobs.len(),
        jobs.push(job).remove(jobs.len() as int) == jobs,
{
    let more = jobs.push(job);
    assert forall|i: int, j: int| 0 <= i < j < more.len() implies (#[trigger] more[i]).id != (
    #[trigger] more[j]).id by {
        assert(more[i] == jobs[i]);
        if j < jobs.len() {
            assert(more[j] == jobs[j]);
        }
    }
    lemma_position_from(more, job.id, 0);
    let at = position(more, job.id);
    if at < jobs.len() {
        assert(more[at] == jobs[at]);
    }
    if at > jobs.len() {
        assert(more[jobs.len() as int].id == job.id);
    }
    assert(more.remove(jobs.len() as int) =~= jobs);
}

/// Two lists of jobs that share no id share none when a job whose id is not
/// in the first joins the second.
pub proof fn lemma_push_keeps_apart(
    one: Seq<ParkingLotTaskMetadata>,
    other: Seq<ParkingLotTaskMetadata>,
    job: ParkingLotTaskMetadata,
)
    requires
        apart(one, other),
        !holds_id(one, job.id),
    ensures
        apart(one, other.push(job)),
        apart(other.push(job), one),
{
    let more = other.push(job);
    assert forall|i: int, j: int| 0 <= i < one.len() && 0 <= j < more.len() implies (
    #[trigger] one[i]).id != (#[trigger] more[j]).id by {
        if j < other.len() {
            assert(more[j] == other[j]);
        }
    }
}

/// Where `position_from` points: at the first job with the id, behind jobs
/// with other ids only.
pub proof fn lemma_position_from(jobs: Seq<ParkingLotTaskMetadata>, id: u64, from: int)
    requires
        0 <= from <= jobs.len(),
    ensures
        from <= position_from(jobs, id, from) <= jobs.len(),
        forall|i: int| from <= i < position_from(jobs, id, from) ==> (#[trigger] jobs[i]).id != id,
        position_from(jobs, id, from) < jobs.len() ==> jobs[position_from(jobs, id, from)].id == id,
    decreases jobs.len() - from,
{
    if from < jobs.len() && jobs[from].id != id {
        lemma_position_from(jobs, id, from + 1);
    }
}

/// The job that is dispatched next has the highest priority of all that
/// wait, and has waited longest among those of that priority.
pub proof fn lemma_next_upto(queue: Seq<ParkingLotTaskMetadata>, n: int)
    requires
        1 <= n <= queue.len(),
    ensures
        0 <= next_upto(queue, n) < n,
        forall|i: int|
            0 <= i < n ==> (#[trigger] queue[i]).priority.rank() <= queue[next_upto(
                queue,
                n,
            )].priority.rank(),
        forall|i: int|
            0 <= i < next_upto(queue, n) ==> (#[trigger] queue[i]).priority.rank() < queue[next_upto(
                queue,
                n,
            )].priority.rank(),
    decreases n,
{
    if n > 1 {
        lemma_next_upto(queue, n - 1);
    }
}

/// A pool of workers that run inference jobs on an executor of type `E`.
pub struct InferenceWorkerPool<E> {
    executor: E,
    streaming_registry: StreamingRegistry,
    config: InferenceWorkerPoolConfig,
    queue: Vec<ParkingLotTaskMetadata>,
    running: Vec<ParkingLotTaskMetadata>,
    reserved: u32,
    now_ms: u64,
    accepting: bool,
}

impl<E> InferenceWorkerPool<E> {
    pub closed spec fn spec_executor(&self) -> E {
        self.executor
    }

    pub closed spec fn spec_registry(&self) -> StreamingRegistry {
        self.streaming_registry
    }

    pub closed spec fn spec_config(&self) -> InferenceWorkerPoolConfig {
        self.config
    }

    /// The jobs that wait, in the order in which they were admitted.
    pub closed spec fn queued(&self) -> Seq<ParkingLotTaskMetadata> {
        self.queue@
    }

    /// The jobs that have been dispatched and whose units are still reserved.
    pub closed spec fn in_flight(&self) -> Seq<ParkingLotTaskMetadata> {
        self.running@
    }

    /// The time as the pool knows it, in milliseconds.
    pub closed spec fn clock(&self) -> u64 {
        self.now_ms
    }

    pub closed spec fn accepting(&self) -> bool {
        self.accepting
    }

    pub closed spec fn counted(&self) -> bool {
        self.reserved == units_sum(self.queue@) + units_sum(self.running@)
    }

    /// The units of all jobs that have been admitted and have not completed.
    pub open spec fn reserved_units(&self) -> nat {
        units_sum(self.queued()) + units_sum(self.in_flight())
    }

    /// The units that are free.
    pub open spec fn available_units(&self) -> int {
        self.spec_config().max_units - self.reserved_units()
    }

    /// Whether a job with the id `id` has been admitted and has not completed.
    pub open spec fn outstanding(&self, id: u64) -> bool {
        holds_id(self.queued(), id) || holds_id(self.in_flight(), id)
    }

    /// The pool has a worker, the queue is no longer than it may be, the jobs
    /// that are outstanding have ids of their own, and together they cost no
    /// more than the pool has.
    pub open spec fn wf(&self) -> bool {
        &&& self.spec_config().worker_count > 0
        &&& self.queued().len() <= self.spec_config().max_queue_depth
        &&& self.reserved_units() <= self.spec_config().max_units
        &&& distinct_ids(self.queued())
        &&& distinct_ids(self.in_flight())
        &&& apart(self.queued(), self.in_flight())
        &&& self.counted()
        &&& self.spec_registry().wf()
    }

    /// Whether `other` differs from this pool in its jobs at most.
    pub open spec fn same_setting(&self, other: &Self) -> bool {
        &&& self.spec_executor() == other.spec_executor()
        &&& self.spec_registry() == other.spec_registry()
        &&& self.spec_config() == other.spec_config()
        &&& self.clock() == other.clock()
        &&& self.accepting() == other.accepting()
    }

    /// Whether `other` holds the same jobs as this pool.
    pub open spec fn same_jobs(&self, other: &Self) -> bool {
        &&& self.queued() == other.queued()
        &&& self.in_flight() == other.in_flight()
    }

    /// Why `meta` is turned away, if it is.
    pub open spec fn admission(&self, meta: TaskMetadata) -> Option<AdmissionError> {
        if !self.accepting() {
            Some(AdmissionError::ShuttingDown)
        } else if self.outstanding(meta.id) {
            Some(AdmissionError::DuplicateId { id: meta.id })
        } else if meta.expired_at(self.clock()) {
            Some(
                AdmissionError::DeadlineExceeded {
                    deadline_ms: meta.deadline_ms.unwrap(),
                    now_ms: self.clock(),
                },
            )
        } else if meta.cost.units > self.available_units() {
            Some(
                AdmissionError::CapacityExceeded {
                    requested: meta.cost.units,
                    available: self.available_units() as u32,
                },
            )
        } else if self.queued().len() >= self.spec_config().max_queue_depth {
            Some(AdmissionError::QueueFull { depth: self.queued().len() as usize })
        } else {
            None
        }
    }

    /// A pool without jobs, which accepts work. Its time starts at 0.
    pub fn new(config: InferenceWorkerPoolConfig, executor: E) -> (made: Result<Self, ConfigError>)
        ensures
            made is Err <==> config.worker_count == 0,
            made matches Err(e) ==> e == ConfigError::ZeroWorkers,
            made matches Ok(pool) ==> {
                &&& pool.wf()
                &&& pool.spec_config() == config
                &&& pool.spec_executor() == executor
                &&& pool.queued() == Seq::<ParkingLotTaskMetadata>::empty()
                &&& pool.in_flight() == Seq::<ParkingLotTaskMetadata>::empty()
                &&& pool.clock() == 0
                &&& pool.accepting()
                &&& pool.spec_registry()@ == Map::<
                    Seq<char>,
                    crate::streaming_registry::StreamingChannel,
                >::empty()
                &&& pool.spec_registry().spec_retention_ms() == DEFAULT_RETENTION_MS
                &&& pool.spec_registry().spec_now_ms() == 0
            },
    {
        if config.worker_count == 0 {
            return Err(ConfigError::ZeroWorkers);
        }
        Ok(
            InferenceWorkerPool {
                executor,
                streaming_registry: StreamingRegistry::with_default_retention(),
                config,
                queue: Vec::new(),
                running: Vec::new(),
                reserved: 0,
                now_ms: 0,
                accepting: true,
            },
        )
    }

    pub fn config(&self) -> (config: &InferenceWorkerPoolConfig)
        ensures
            *config == self.spec_config(),
    {
        &self.config
    }

    pub fn executor(&self) -> (executor: &E)
        ensures
            *executor == self.spec_executor(),
    {
        &self.executor
    }

    pub fn streaming_registry(&self) -> (registry: &StreamingRegistry)
        ensures
            *registry == self.spec_registry(),
    {
        &self.streaming_registry
    }

    /// The registry, to put streams in and take them out. The jobs of the pool
    /// are out of its reach.
    pub fn streaming_registry_mut(&mut self) -> (registry: &mut StreamingRegistry)
        ensures
            *registry == old(self).spec_registry(),
            final(self).spec_registry() == *final(registry),
            final(self).same_jobs(old(self)),
            final(self).counted() == old(self).counted(),
            final(self).spec_executor() == old(self).spec_executor(),
            final(self).spec_config() == old(self).spec_config(),
            final(self).clock() == old(self).clock(),
            final(self).accepting() == old(self).accepting(),
    {
        &mut self.streaming_registry
    }

    /// Tells the pool and its registry the time. Time never runs backwards.
    pub fn advance_to(&mut self, now_ms: u64)
        requires
            old(self).wf(),
        ensures
            final(self).wf(),
            final(self).same_jobs(old(self)),
            final(self).spec_executor() == old(self).spec_executor(),
            final(self).spec_config() == old(self).spec_config(),
            final(self).accepting() == old(self).accepting(),
            final(self).clock() == if now_ms > old(self).clock() {
                now_ms
            } else {
                old(self).clock()
            },
            final(self).spec_registry()@ == old(self).spec_registry()@,
            final(self).spec_registry().spec_now_ms() == if now_ms > old(
                self,
            ).spec_registry().spec_now_ms() {
                now_ms
            } else {
                old(self).spec_registry().spec_now_ms()
            },
    {
        if now_ms > self.now_ms {
            self.now_ms = now_ms;
        }
        self.streaming_registry.advance_to(now_ms);
    }

    fn holds(jobs: &Vec<ParkingLotTaskMetadata>, id: u64) -> (place: Option<usize>)
        ensures
            match place {
                Some(at) => at < jobs@.len() && at == position(jobs@, id) && jobs@[at as int].id
                    == id,
                None => !holds_id(jobs@, id) && position(jobs@, id) == jobs@.len(),
            },
    {
        let mut i: usize = 0;
        while i < jobs.len()
            invariant
                i <= jobs@.len(),
                position_from(jobs@, id, 0) == position_from(jobs@, id, i as int),
                forall|j: int| 0 <= j < i ==> (#[trigger] jobs@[j]).id != id,
            decreases jobs@.len() - i,
        {
            if jobs[i].id == id {
                return Some(i);
            }
            i = i + 1;
        }
        None
    }

    /// Why `meta` would be turned away now, if it would be.
    pub fn check_admission(&self, meta: &TaskMetadata) -> (refusal: Option<AdmissionError>)
        requires
            self.wf(),
        ensures
            refusal == self.admission(*meta),
    {
        if !self.accepting {
            return Some(AdmissionError::ShuttingDown);
        }
        if Self::holds(&self.queue, meta.id).is_some() || Self::holds(
            &self.running,
            meta.id,
        ).is_some() {
            return Some(AdmissionError::DuplicateId { id: meta.id });
        }
        match meta.deadline_ms {
            Some(deadline_ms) => {
                if deadline_ms < self.now_ms {
                    return Some(
                        AdmissionError::DeadlineExceeded { deadline_ms, now_ms: self.now_ms },
                    );
                }
            },
            None => {},
        }
        let available: u32 = self.config.max_units - self.reserved;
        if meta.cost.units > available {
            return Some(
                AdmissionError::CapacityExceeded { requested: meta.cost.units, available },
            );
        }
        if self.queue.len() >= self.config.max_queue_depth {
            return Some(AdmissionError::QueueFull { depth: self.queue.len() });
        }
        None
    }

    /// Admits `meta` to the queue and reserves its units, or turns it away
    /// and changes nothing.
    pub fn enqueue(&mut self, meta: TaskMetadata) -> (admitted: Result<(), AdmissionError>)
        requires
            old(self).wf(),
        ensures
            final(self).wf(),
            final(self).same_setting(old(self)),
            match admitted {
                Ok(()) => {
                    &&& old(self).admission(meta) is None
                    &&& final(self).queued() == old(self).queued().push(
                        record_of(meta, old(self).clock()),
                    )
                    &&& final(self).in_flight() == old(self).in_flight()
                    &&& final(self).reserved_units() == old(self).reserved_units()
                        + meta.cost.units
                },
                Err(refusal) => {
                    &&& old(self).admission(meta) == Some(refusal)
                    &&& final(self).same_jobs(old(self))
                },
            },
    {
        match self.check_admission(&meta) {
            Some(refusal) => Err(refusal),
            None => {
                let record = ParkingLotTaskMetadata::from(meta).admitted_at(self.now_ms);
                proof {
                    lemma_units_sum_push(self.queue@, record);
                    lemma_push_keeps_distinct(self.queue@, record);
                    lemma_push_keeps_apart(self.running@, self.queue@, record);
                }
                self.queue.push(record);
                self.reserved = self.reserved + meta.cost.units;
                Ok(())
            },
        }
    }

    fn pick_next(&self) -> (at: usize)
        requires
            self.queue@.len() > 0,
        ensures
            at == next_index(self.queue@),
            at < self.queue@.len(),
    {
        let mut best: usize = 0;
        let mut i: usize = 1;
        while i < self.queue.len()
            invariant
                1 <= i <= self.queue@.len(),
                best < i,
                best == next_upto(self.queue@, i as int),
            decreases self.queue@.len() - i,
        {
            if self.queue[i].priority.rank() > self.queue[best].priority.rank() {
                best = i;
            }
            i = i + 1;
        }
        best
    }

    /// Takes the job that is next in line out of the queue. If its deadline
    /// has passed, it is dropped and its units are freed; else it is to be
    /// run, and its units stay reserved.
    pub fn dispatch_next(&mut self) -> (dispatch: Dispatch)
        requires
            old(self).wf(),
        ensures
            final(self).wf(),
            final(self).same_setting(old(self)),
            old(self).queued().len() == 0 ==> dispatch == Dispatch::Idle && final(self).same_jobs(
                old(self),
            ),
            old(self).queued().len() > 0 ==> {
                let at = next_index(old(self).queued());
                let job = old(self).queued()[at];
                &&& 0 <= at < old(self).queued().len()
                &&& final(self).queued() == old(self).queued().remove(at)
                &&& if job.deadline_ms matches Some(deadline) && deadline < old(self).clock() {
                    &&& dispatch == (Dispatch::Expired {
                        job,
                        refusal: AdmissionError::DeadlineExceeded {
                            deadline_ms: job.deadline_ms.unwrap(),
                            now_ms: old(self).clock(),
                        },
                    })
                    &&& final(self).in_flight() == old(self).in_flight()
                    &&& final(self).reserved_units() + job.cost.units == old(
                        self,
                    ).reserved_units()
                } else {
                    &&& dispatch == Dispatch::Run(job)
                    &&& final(self).in_flight() == old(self).in_flight().push(job)
                    &&& final(self).reserved_units() == old(self).reserved_units()
                }
            },
    {
        if self.queue.len() == 0 {
            return Dispatch::Idle;
        }
        let at = self.pick_next();
        proof {
            lemma_units_sum_remove(self.queue@, at as int);
            lemma_remove_keeps_distinct(self.queue@, at as int);
            lemma_remove_keeps_apart(self.queue@, at as int, self.running@);
        }
        let job = self.queue.remove(at);
        let overdue: Option<u64> = match job.deadline_ms {
            Some(deadline) => if deadline < self.now_ms {
                Some(deadline)
            } else {
                None
            },
            None => None,
        };
        if let Some(deadline_ms) = overdue {
            self.reserved = self.reserved - job.cost.units;
            Dispatch::Expired {
                job,
                refusal: AdmissionError::DeadlineExceeded { deadline_ms, now_ms: self.now_ms },
            }
        } else {
            proof {
                lemma_units_sum_push(self.running@, job);
                lemma_push_keeps_distinct(self.running@, job);
                lemma_push_keeps_apart(self.queue@, self.running@, job);
            }
            self.running.push(job);
            Dispatch::Run(job)
        }
    }

    /// Gives back the units of the dispatched job `id`, whose result has been
    /// produced or whose stream has ended. Says whether there was such a job:
    /// the units of a job are given back once.
    pub fn complete(&mut self, id: u64) -> (released: bool)
        requires
            old(self).wf(),
        ensures
            final(self).wf(),
            final(self).same_setting(old(self)),
            final(self).queued() == old(self).queued(),
            released == holds_id(old(self).in_flight(), id),
            !holds_id(final(self).in_flight(), id),
            released ==> {
                let at = position(old(self).in_flight(), id);
                &&& 0 <= at < old(self).in_flight().len()
                &&& final(self).in_flight() == old(self).in_flight().remove(at)
                &&& final(self).reserved_units() + old(self).in_flight()[at].cost.units == old(
                    self,
                ).reserved_units()
            },
            !released ==> final(self).in_flight() == old(self).in_flight(),
    {
        match Self::holds(&self.running, id) {
            None => false,
            Some(at) => {
                proof {
                    lemma_units_sum_remove(self.running@, at as int);
                    lemma_remove_keeps_distinct(self.running@, at as int);
                    lemma_remove_keeps_apart(self.running@, at as int, self.queue@);
                }
                let job = self.running.remove(at);
                self.reserved = self.reserved - job.cost.units;
                true
            },
        }
    }

    /// Lets `meta` in and puts it in flight at once, without a wait in the
    /// queue, or turns it away and changes nothing. Its units are reserved
    /// until `settle` or `complete` gives them back.
    pub fn start(&mut self, meta: TaskMetadata) -> (started: Result<
        ParkingLotTaskMetadata,
        AdmissionError,
    >)
        requires
            old(self).wf(),
        ensures
            final(self).wf(),
            final(self).same_setting(old(self)),
            final(self).queued() == old(self).queued(),
            match started {
                Ok(record) => {
                    &&& old(self).admission(meta) is None
                    &&& record == record_of(meta, old(self).clock())
                    &&& final(self).in_flight() == old(self).in_flight().push(record)
                    &&& final(self).reserved_units() == old(self).reserved_units()
                        + meta.cost.units
                },
                Err(refusal) => {
                    &&& old(self).admission(meta) == Some(refusal)
                    &&& final(self).in_flight() == old(self).in_flight()
                },
            },
    {
        match self.check_admission(&meta) {
            Some(refusal) => Err(refusal),
            None => {
                let record = ParkingLotTaskMetadata::from(meta).admitted_at(self.now_ms);
                proof {
                    lemma_units_sum_push(self.running@, record);
                    lemma_push_keeps_distinct(self.running@, record);
                    lemma_push_keeps_apart(self.queue@, self.running@, record);
                }
                self.running.push(record);
                self.reserved = self.reserved + meta.cost.units;
                Ok(record)
            },
        }
    }

    /// Does for the job `id` in flight what its `result` asks for. A stream
    /// has only been set up: the job stays in flight and keeps its units until
    /// `complete` is told that the stream has ended. Any other result ends the
    /// job: its units are given back now, as by `complete`. Says whether units
    /// were given back.
    pub fn settle(&mut self, id: u64, result: &InferenceResult) -> (released: bool)
        requires
            old(self).wf(),
        ensures
            final(self).wf(),
            final(self).same_setting(old(self)),
            final(self).queued() == old(self).queued(),
            released == (!(result is Streaming) && holds_id(old(self).in_flight(), id)),
            released ==> {
                let at = position(old(self).in_flight(), id);
                &&& 0 <= at < old(self).in_flight().len()
                &&& final(self).in_flight() == old(self).in_flight().remove(at)
                &&& final(self).reserved_units() + old(self).in_flight()[at].cost.units == old(
                    self,
                ).reserved_units()
            },
            !released ==> final(self).in_flight() == old(self).in_flight(),
    {
        match result {
            InferenceResult::Streaming { .. } => false,
            _ => self.complete(id),
        }
    }

    pub fn stats(&self) -> (stats: PoolStats)
        requires
            self.wf(),
        ensures
            stats.active_workers == if self.in_flight().len() < self.spec_config().worker_count {
                self.in_flight().len()
            } else {
                self.spec_config().worker_count as nat
            },
            stats.queued_tasks == self.queued().len(),
            stats.available_capacity == self.available_units(),
            stats.total_capacity == self.spec_config().max_units,
    {
        PoolStats {
            active_workers: if self.running.len() < self.config.worker_count {
                self.running.len()
            } else {
                self.config.worker_count
            },
            queued_tasks: self.queue.len(),
            available_capacity: self.config.max_units - self.reserved,
            total_capacity: self.config.max_units,
        }
    }

    /// Whether no job waits or runs.
    pub fn is_drained(&self) -> (drained: bool)
        requires
            self.wf(),
        ensures
            drained == (self.queued().len() == 0 && self.in_flight().len() == 0),
    {
        self.queue.len() == 0 && self.running.len() == 0
    }

    /// Stops the pool from accepting work. The jobs that it has admitted stay
    /// and can still be dispatched and completed. Shutting down a pool that
    /// has been shut down changes nothing.
    pub fn shutdown(&mut self) -> (done: Result<(), String>)
        requires
            old(self).wf(),
        ensures
            done is Ok,
            final(self).wf(),
            !final(self).accepting(),
            final(self).same_jobs(old(self)),
            final(self).spec_executor() == old(self).spec_executor(),
            final(self).spec_registry() == old(self).spec_registry(),
            final(self).spec_config() == old(self).spec_config(),
            final(self).clock() == old(self).clock(),
    {
        self.accepting = false;
        Ok(())
    }
}

impl<E: TaskExecutor<InferenceJob, InferenceResult>> InferenceWorkerPool<E> {
    /// Runs `job` on the executor, if it is admitted, and hands back its
    /// result. A job that is turned away never reaches the executor, and
    /// leaves the pool as it was.
    ///
    /// The job is let in as by `start`, run once on the executor with `job`
    /// and `meta` as they were given, and its result is dealt with as by
    /// `settle` and handed back: the units of the job are reserved while it
    /// runs, and given back when the executor has produced a result, unless
    /// the result is a stream. Then they stay reserved, and the job in
    /// flight, until `complete` is told that the stream has ended.
    pub fn submit(&mut self, job: InferenceJob, meta: TaskMetadata) -> (outcome: Result<
        InferenceResult,
        AdmissionError,
    >)
        requires
            old(self).wf(),
        ensures
            final(self).wf(),
            final(self).spec_registry() == old(self).spec_registry(),
            final(self).spec_config() == old(self).spec_config(),
            final(self).clock() == old(self).clock(),
            final(self).accepting() == old(self).accepting(),
            final(self).queued() == old(self).queued(),
            meta.cost.units > old(self).available_units() ==> outcome is Err,
            match outcome {
                Err(refusal) => {
                    &&& old(self).admission(meta) == Some(refusal)
                    &&& final(self).spec_executor() == old(self).spec_executor()
                    &&& final(self).in_flight() == old(self).in_flight()
                },
                Ok(result) => {
                    &&& old(self).admission(meta) is None
                    &&& old(self).spec_executor().answers(
                        job,
                        meta,
                        result,
                        &final(self).spec_executor(),
                    )
                    &&& final(self).in_flight() == if result is Streaming {
                        old(self).in_flight().push(record_of(meta, old(self).clock()))
                    } else {
                        old(self).in_flight()
                    }
                },
            },
    {
        let ghost before = self.running@;
        match self.start(meta) {
            Err(refusal) => {
                return Err(refusal);
            },
            Ok(_) => {},
        }
        let result = self.executor.execute(job, meta);
        proof {
            lemma_push_keeps_distinct(before, record_of(meta, self.now_ms));
        }
        let _ = self.settle(meta.id, &result);
        Ok(result)
    }
}

} // verus!
