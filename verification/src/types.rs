//! What the scheduler knows of a job: who it is, how urgent, how large.

use vstd::prelude::*;
use crate::resource::ResourceCost;

verus! {

/// How urgent a job is. The pool dispatches a waiting job of higher priority
/// before one of lower priority, and jobs of equal priority in the order in
/// which they were admitted.
#[derive(Clone, Copy, Debug, PartialEq, Eq, PartialOrd, Ord, Hash, Structural)]
pub enum Priority {
    Low,
    Normal,
    High,
}

impl Priority {
    pub open spec fn spec_rank(&self) -> u8 {
        match *self {
            Priority::Low => 0,
            Priority::Normal => 1,
            Priority::High => 2,
        }
    }

    /// The place of this priority in the order `Low < Normal < High`.
    #[verifier::when_used_as_spec(spec_rank)]
    pub fn rank(&self) -> (rank: u8)
        ensures
            rank == self.spec_rank(),
    {
        match self {
            Priority::Low => 0,
            Priority::Normal => 1,
            Priority::High => 2,
        }
    }
}

impl Default for Priority {
    fn default() -> (priority: Self)
        ensures
            priority == Priority::Normal,
    {
        Priority::Normal
    }
}

/// Identity and scheduling attributes of one job.
#[derive(Clone, Copy, Debug, PartialEq, Eq, Structural)]
pub struct TaskMetadata {
    /// Unique among the jobs that are outstanding.
    pub id: u64,
    pub priority: Priority,
    pub cost: ResourceCost,
    /// The time, in milliseconds, by which the job must have been dispatched.
    pub deadline_ms: Option<u64>,
}

impl TaskMetadata {
    pub fn new(id: u64, cost: ResourceCost) -> (meta: Self)
        ensures
            meta == (TaskMetadata { id, priority: Priority::Normal, cost, deadline_ms: None }),
    {
        TaskMetadata { id, priority: Priority::Normal, cost, deadline_ms: None }
    }

    pub fn with_priority(self, priority: Priority) -> (meta: Self)
        ensures
            meta == (TaskMetadata { priority, ..self }),
    {
        TaskMetadata { id: self.id, priority, cost: self.cost, deadline_ms: self.deadline_ms }
    }

    pub fn with_deadline_ms(self, deadline_ms: u64) -> (meta: Self)
        ensures
            meta == (TaskMetadata { deadline_ms: Some(deadline_ms), ..self }),
    {
        TaskMetadata {
            id: self.id,
            priority: self.priority,
            cost: self.cost,
            deadline_ms: Some(deadline_ms),
        }
    }

    /// Whether the deadline, if there is one, lies before `now_ms`.
    pub open spec fn expired_at(&self, now_ms: u64) -> bool {
        self.deadline_ms matches Some(deadline) && deadline < now_ms
    }

    pub fn is_expired(&self, now_ms: u64) -> (expired: bool)
        ensures
            expired == self.expired_at(now_ms),
    {
        match self.deadline_ms {
            Some(deadline) => deadline < now_ms,
            None => false,
        }
    }
}

/// The record that the scheduler keeps of an admitted job.
#[derive(Clone, Copy, Debug, PartialEq, Eq, Structural)]
pub struct ParkingLotTaskMetadata {
    pub id: u64,
    pub priority: Priority,
    pub cost: ResourceCost,
    /// When the job was admitted, in milliseconds; 0 until it has been.
    pub created_at_ms: u64,
    pub deadline_ms: Option<u64>,
}

impl ParkingLotTaskMetadata {
    /// The same record, stamped with the time of admission.
    pub fn admitted_at(self, now_ms: u64) -> (record: Self)
        ensures
            record == (ParkingLotTaskMetadata { created_at_ms: now_ms, ..self }),
    {
        ParkingLotTaskMetadata {
            id: self.id,
            priority: self.priority,
            cost: self.cost,
            created_at_ms: now_ms,
            deadline_ms: self.deadline_ms,
        }
    }
}

impl From<TaskMetadata> for ParkingLotTaskMetadata {
    fn from(meta: TaskMetadata) -> (record: Self) {
        ParkingLotTaskMetadata {
            id: meta.id,
            priority: meta.priority,
            cost: meta.cost,
            created_at_ms: 0,
            deadline_ms: meta.deadline_ms,
        }
    }
}

impl vstd::std_specs::convert::FromSpecImpl<TaskMetadata> for ParkingLotTaskMetadata {
    open spec fn obeys_from_spec() -> bool {
        true
    }

    open spec fn from_spec(meta: TaskMetadata) -> Self {
        ParkingLotTaskMetadata {
            id: meta.id,
            priority: meta.priority,
            cost: meta.cost,
            created_at_ms: 0,
            deadline_ms: meta.deadline_ms,
        }
    }
}

/// Runs a payload of type `P` to a result of type `R`.
pub trait TaskExecutor<P, R> {
    /// Whether this executor, run once on `payload` with `meta`, may give
    /// `result` and be `after` when it has. Each executor says for itself what
    /// its answers are; one that says nothing may give any answer.
    open spec fn answers(&self, payload: P, meta: TaskMetadata, result: R, after: &Self) -> bool {
        true
    }

    /// Runs `payload` and gives its result.
    fn execute(&mut self, payload: P, meta: TaskMetadata) -> (result: R)
        ensures
            old(self).answers(payload, meta, result, final(self)),
    ;
}

} // verus!
