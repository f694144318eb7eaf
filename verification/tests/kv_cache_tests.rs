use parking_lot::Mutex;

#[test]
fn test_mutex_basic() {
    let mutex = Mutex::new(0);
    *mutex.lock() = 42;
    assert_eq!(*mutex.lock(), 42);
}
