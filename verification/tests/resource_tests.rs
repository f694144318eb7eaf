use inference_pool::contention::{expected_increments, is_write_turn, WRITE_PERIOD};
use inference_pool::error::ConfigError;
use inference_pool::resource::{ResourceAdapter, ResourceCost, DEFAULT_BLOCK_SIZE, DEFAULT_MAX_UNITS};
use inference_pool::types::{Priority, TaskMetadata};

#[test]
fn cost_is_the_token_count_in_units_rounded_up() {
    let adapter = ResourceAdapter::new(16, 1024, 64);
    assert_eq!(adapter.calculate_cost(0, 0).units, 0);
    assert_eq!(adapter.calculate_cost(1, 0).units, 1);
    assert_eq!(adapter.calculate_cost(0, 16).units, 1);
    assert_eq!(adapter.calculate_cost(16, 1).units, 2);
    assert_eq!(adapter.calculate_cost(100, 50).units, 10);
    assert_eq!(adapter.calculate_cost(160, 0).units, 10);
    assert_eq!(ResourceAdapter::new(1, 8, 0).calculate_cost(3, 4).units, 7);
}

#[test]
fn cost_grows_with_the_tokens() {
    let adapter = ResourceAdapter::new(7, 1024, 0);
    let mut previous = 0;
    for tokens in 0..200 {
        let units = adapter.calculate_cost(tokens, 0).units;
        assert!(units >= previous);
        assert!(units as usize * 7 >= tokens);
        assert!(tokens == 0 || (units as usize - 1) * 7 < tokens);
        assert_eq!(adapter.calculate_cost(0, tokens).units, units);
        previous = units;
    }
}

#[test]
fn a_cost_too_large_to_count_is_not_given() {
    let adapter = ResourceAdapter::new(1, 1024, 0);
    assert_eq!(adapter.checked_cost(u32::MAX as usize, 0), Some(ResourceCost::new(u32::MAX)));
    assert_eq!(adapter.checked_cost(u32::MAX as usize, 1), None);
    assert_eq!(adapter.checked_cost(usize::MAX, usize::MAX), None);
    assert_eq!(ResourceAdapter::new(16, 1024, 0).checked_cost(100, 50), Some(ResourceCost::new(10)));
}

#[test]
fn blocks_hold_the_tokens_they_were_counted_for() {
    let adapter = ResourceAdapter::new(16, 1024, 64);
    for tokens in 0..100 {
        assert!(adapter.blocks_to_tokens(adapter.tokens_to_blocks(tokens)) >= tokens);
    }
    assert_eq!(adapter.tokens_to_blocks(0), 0);
    assert_eq!(adapter.tokens_to_blocks(33), 3);
    assert_eq!(adapter.blocks_to_tokens(0), 0);
    assert_eq!(adapter.tokens_to_blocks(usize::MAX), usize::MAX / 16 + 1);
}

#[test]
fn a_block_must_hold_a_token() {
    assert_eq!(ResourceAdapter::try_new(0, 1024, 64).err(), Some(ConfigError::ZeroBlockSize));
    let adapter = ResourceAdapter::try_new(32, 2048, 0).unwrap();
    assert_eq!(adapter.block_size(), 32);
    assert_eq!(adapter.max_units(), 2048);
    assert_eq!(adapter.unit_bytes(), None);
    assert_eq!(ResourceAdapter::new(16, 1024, 64).unit_bytes(), Some(64));
    assert_eq!(ConfigError::ZeroBlockSize.message(), "block size must be greater than zero");
    assert_eq!(ConfigError::ZeroWorkers.message(), "worker count must be greater than zero");
}

#[test]
fn the_default_adapter() {
    let adapter = ResourceAdapter::default();
    assert_eq!(adapter.block_size(), 16);
    assert_eq!(DEFAULT_BLOCK_SIZE, 16);
    assert_eq!(adapter.max_units(), DEFAULT_MAX_UNITS);
    assert_eq!(adapter.max_units(), 16384);
}

#[test]
fn priorities_are_ordered() {
    assert!(Priority::Low < Priority::Normal);
    assert!(Priority::Normal < Priority::High);
    assert_eq!(Priority::Low.rank(), 0);
    assert_eq!(Priority::Normal.rank(), 1);
    assert_eq!(Priority::High.rank(), 2);
    assert_eq!(Priority::default(), Priority::Normal);
}

#[test]
fn metadata_starts_plain() {
    let meta = TaskMetadata::new(1, ResourceCost::new(3));
    assert_eq!(meta.priority, Priority::Normal);
    assert_eq!(meta.deadline_ms, None);
    assert!(!meta.is_expired(u64::MAX));
    let meta = meta.with_deadline_ms(100);
    assert!(!meta.is_expired(100));
    assert!(meta.is_expired(101));
}

#[test]
fn one_access_in_ten_is_a_write() {
    assert!(is_write_turn(0, 0));
    assert!(!is_write_turn(0, 1));
    assert!(is_write_turn(3, 7));
    // Also where the sum of the two does not fit the machine word.
    assert_eq!(is_write_turn(usize::MAX, 5), (usize::MAX as u128 + 5) % 10 == 0);
    assert_eq!(is_write_turn(usize::MAX, usize::MAX), (2 * (usize::MAX as u128)) % 10 == 0);
    assert!(is_write_turn(usize::MAX - usize::MAX % 10, 10));
    assert_eq!(WRITE_PERIOD, 10);
    for thread_id in 0..32 {
        let writes = (0..1000).filter(|round| is_write_turn(thread_id, *round)).count();
        assert_eq!(writes, 100);
    }
}

#[test]
fn the_counter_must_read_threads_times_iterations() {
    assert_eq!(expected_increments(100, 1000), Some(100_000));
    assert_eq!(expected_increments(0, 1000), Some(0));
    assert_eq!(expected_increments(usize::MAX, 2), None);
    // The same additions made one after the other lose nothing.
    let counter = parking_lot::Mutex::new(0u64);
    for _ in 0..100 {
        for _ in 0..1000 {
            *counter.lock() += 1;
        }
    }
    assert_eq!(Some(*counter.lock()), expected_increments(100, 1000));
}
