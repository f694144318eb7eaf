//! The ways in which a call can be refused.

use vstd::prelude::*;

verus! {

/// Why a configuration was refused.
#[derive(Clone, Copy, Debug, PartialEq, Eq, Structural)]
pub enum ConfigError {
    /// A unit must hold at least one token.
    ZeroBlockSize,
    /// A pool needs at least one worker.
    ZeroWorkers,
}

impl ConfigError {
    pub fn message(&self) -> (text: String)
        ensures
            text@ == match *self {
                ConfigError::ZeroBlockSize => "block size must be greater than zero"@,
                ConfigError::ZeroWorkers => "worker count must be greater than zero"@,
            },
    {
        match self {
            ConfigError::ZeroBlockSize => "block size must be greater than zero".to_owned(),
            ConfigError::ZeroWorkers => "worker count must be greater than zero".to_owned(),
        }
    }
}

/// Why a submission was turned away. The caller may try again later.
#[derive(Clone, Copy, Debug, PartialEq, Eq, Structural)]
pub enum AdmissionError {
    /// The pool no longer accepts work.
    ShuttingDown,
    /// A job with this id is still outstanding.
    DuplicateId { id: u64 },
    /// The job asks for more units than are free.
    CapacityExceeded { requested: u32, available: u32 },
    /// As many jobs wait as the pool lets wait.
    QueueFull { depth: usize },
    /// The deadline of the job had passed before it could be dispatched.
    DeadlineExceeded { deadline_ms: u64, now_ms: u64 },
}

impl AdmissionError {
    pub fn message(&self) -> (text: String)
        ensures
            text@ == match *self {
                AdmissionError::ShuttingDown => "worker pool is shutting down"@,
                AdmissionError::DuplicateId { .. } => "task id is already in flight"@,
                AdmissionError::CapacityExceeded { .. } => "requested units exceed available capacity"@,
                AdmissionError::QueueFull { .. } => "queue is full"@,
                AdmissionError::DeadlineExceeded { .. } => "deadline exceeded before dispatch"@,
            },
    {
        match self {
            AdmissionError::ShuttingDown => "worker pool is shutting down".to_owned(),
            AdmissionError::DuplicateId { .. } => "task id is already in flight".to_owned(),
            AdmissionError::CapacityExceeded { .. } => "requested units exceed available capacity".to_owned(),
            AdmissionError::QueueFull { .. } => "queue is full".to_owned(),
            AdmissionError::DeadlineExceeded { .. } => "deadline exceeded before dispatch".to_owned(),
        }
    }
}

} // verus!
