//! The workloads with which the locks are measured: what each thread is to
//! do in each round, and what the counter must read when all are done.

use vstd::prelude::*;
use vstd::arithmetic::div_mod::lemma_add_mod_noop;

verus! {

/// In the mixed workload one access in this many is a write.
pub const WRITE_PERIOD: usize = 10;

/// Whether thread `thread_id` writes in round `iteration` of the mixed
/// workload. The writes of the threads are staggered, so that in every round
/// one thread in ten writes.
pub open spec fn write_turn(thread_id: usize, iteration: usize) -> bool {
    (thread_id + iteration) % 10 == 0
}

pub fn is_write_turn(thread_id: usize, iteration: usize) -> (writes: bool)
    ensures
        writes == write_turn(thread_id, iteration),
{
    proof {
        lemma_add_mod_noop(thread_id as int, iteration as int, 10);
    }
    (thread_id % WRITE_PERIOD + iteration % WRITE_PERIOD) % WRITE_PERIOD == 0
}

/// What a counter that starts at 0 reads after `threads` threads have each
/// added one to it `iterations` times, if no addition was lost; nothing where
/// the counter cannot hold that number.
pub fn expected_increments(threads: usize, iterations: usize) -> (total: Option<u64>)
    ensures
        total is Some <==> threads * iterations <= u64::MAX,
        total matches Some(sum) ==> sum == threads * iterations,
{
    assert(threads * iterations <= 0xffff_ffff_ffff_ffff * 0xffff_ffff_ffff_ffff)
        by (nonlinear_arith)
        requires
            threads <= 0xffff_ffff_ffff_ffff,
            iterations <= 0xffff_ffff_ffff_ffff,
    ;
    let product: u128 = (threads as u128) * (iterations as u128);
    if product <= u64::MAX as u128 {
        Some(product as u64)
    } else {
        None
    }
}

} // verus!
