use inference_pool::cached_responses::{InMemoryResponseCache, ResponsesObject};
use parking_lot::RwLock;

fn sample_response(id: &str) -> ResponsesObject {
    ResponsesObject {
        id: id.to_string(),
        object: "response",
        created_at: 1234567890,
        model: "test-model".to_string(),
        status: "completed".to_string(),
        output: vec![],
        output_text: None,
        usage: None,
        error: None,
        metadata: None,
        instructions: None,
        incomplete_details: None,
    }
}

#[test]
fn test_rwlock_basic() {
    let lock = RwLock::new(0);
    *lock.write() = 42;
    assert_eq!(*lock.read(), 42);
}

#[test]
fn test_response_cache_store_retrieve() {
    let mut cache = InMemoryResponseCache::new();
    let response = ResponsesObject {
        id: "test-id".to_string(),
        object: "response",
        created_at: 1234567890,
        model: "test-model".to_string(),
        status: "completed".to_string(),
        output: vec![],
        output_text: None,
        usage: None,
        error: None,
        metadata: None,
        instructions: None,
        incomplete_details: None,
    };

    cache.store_response("test-id".to_string(), response.clone());
    let retrieved = cache.get_response("test-id");
    assert!(retrieved.is_some());
    assert_eq!(retrieved.unwrap().id, "test-id");
}

#[test]
fn test_response_cache_delete() {
    let mut cache = InMemoryResponseCache::new();
    let response = ResponsesObject {
        id: "test-id".to_string(),
        object: "response",
        created_at: 1234567890,
        model: "test-model".to_string(),
        status: "completed".to_string(),
        output: vec![],
        output_text: None,
        usage: None,
        error: None,
        metadata: None,
        instructions: None,
        incomplete_details: None,
    };

    cache.store_response("test-id".to_string(), response.clone());
    let deleted = cache.delete_response("test-id");
    assert!(deleted);
    let retrieved = cache.get_response("test-id");
    assert!(retrieved.is_none());
}

#[test]
fn delete_removes_the_id_from_all_three_tables() {
    let mut cache = InMemoryResponseCache::new();
    cache.store_response("a".to_string(), sample_response("a"));
    cache.store_chunks("a".to_string(), vec![]);
    cache.store_conversation_history("a".to_string(), vec![]);
    assert!(cache.get_chunks("a").is_some());
    assert!(cache.get_conversation_history("a").is_some());

    assert!(cache.delete_response("a"));
    assert!(cache.get_response("a").is_none());
    assert!(cache.get_chunks("a").is_none());
    assert!(cache.get_conversation_history("a").is_none());
    // A second delete finds nothing.
    assert!(!cache.delete_response("a"));
}

#[test]
fn delete_leaves_other_ids_alone_in_any_interleaving() {
    let mut cache = InMemoryResponseCache::new();
    for i in 0..20 {
        for j in 0..5 {
            let id = format!("test-{}-{}", i, j);
            cache.store_response(id.clone(), sample_response(&id));
            cache.store_chunks(id.clone(), vec![]);
            cache.store_conversation_history(id.clone(), vec![]);
        }
    }
    // Delete every other id while storing under new ones.
    for i in 0..20 {
        let gone = format!("test-{}-{}", i, 0);
        let fresh = format!("late-{}", i);
        cache.store_response(fresh.clone(), sample_response(&fresh));
        assert!(cache.delete_response(&gone));
        cache.store_chunks(fresh.clone(), vec![]);
    }
    for i in 0..20 {
        assert!(cache.get_response(&format!("test-{}-{}", i, 0)).is_none());
        assert!(cache.get_chunks(&format!("test-{}-{}", i, 0)).is_none());
        assert!(cache.get_conversation_history(&format!("test-{}-{}", i, 0)).is_none());
        for j in 1..5 {
            let id = format!("test-{}-{}", i, j);
            assert_eq!(cache.get_response(&id).unwrap().id, id);
            assert!(cache.get_chunks(&id).is_some());
        }
        assert!(cache.get_response(&format!("late-{}", i)).is_some());
        assert!(cache.get_chunks(&format!("late-{}", i)).is_some());
        assert!(cache.get_conversation_history(&format!("late-{}", i)).is_none());
    }
}

#[test]
fn storing_twice_keeps_the_later_response() {
    let mut cache = InMemoryResponseCache::new();
    let mut first = sample_response("x");
    first.status = "in_progress".to_string();
    cache.store_response("x".to_string(), first);
    cache.store_response("x".to_string(), sample_response("x"));
    assert_eq!(cache.get_response("x").unwrap().status, "completed");
}
