//! Admission control, scheduling and result delivery for inference jobs that
//! share one capacity-limited pipeline.
//!
//! * `resource` turns the size of a request into the units it reserves.
//! * `types` holds what the scheduler knows of a job.
//! * `worker_pool` admits jobs against the capacity of the pool, queues them
//!   by priority and gives their units back when they are done.
//! * `executor` decides what the events of a pipeline make of a job, and
//!   what they put on the token channel of a stream.
//! * `streaming_registry` keeps the receiving ends of live streams under
//!   keys that can be stored.
//! * `cached_responses` stores responses, their chunks and their
//!   conversations, and fixes the order in which the locks of its tables are
//!   taken.
//!
//! Every function here runs to its end without waiting: where a caller has
//! to wait for an event, to hold a lock or to look at a clock, it does so
//! itself and hands in what it got.

pub mod cached_responses;
pub mod channel;
pub mod contention;
pub mod error;
pub mod executor;
pub mod job;
pub mod request;
pub mod resource;
pub mod response;
pub mod streaming_registry;
pub mod table;
pub mod text;
pub mod types;
pub mod worker_pool;
