use ovelha::pool::ConnectionPool;
use ovelha::queue::Queue;
use std::cell::Cell;

#[test]
fn pool_is_built_with_every_connection_idle() {
    let made = Cell::new(0u32);
    let pool: ConnectionPool<u32> = ConnectionPool::new(4, || -> Result<u32, String> {
        made.set(made.get() + 1);
        Ok(made.get())
    })
    .unwrap();
    assert_eq!(made.get(), 4);
    assert_eq!(pool.size(), 4);
    assert_eq!(pool.idle(), 4);
    assert_eq!(pool.checked_out(), 0);
}

#[test]
fn pool_of_size_zero_needs_no_connection() {
    let pool: ConnectionPool<u32> =
        ConnectionPool::new(0, || -> Result<u32, String> { Err("never asked".to_string()) })
            .ok()
            .unwrap();
    assert_eq!(pool.size(), 0);
    assert_eq!(pool.idle(), 0);
}

#[test]
fn pool_construction_fails_fast() {
    let made = Cell::new(0u32);
    let result: Result<ConnectionPool<u32>, String> = ConnectionPool::new(5, || {
        made.set(made.get() + 1);
        if made.get() == 3 {
            Err("refused".to_string())
        } else {
            Ok(made.get())
        }
    });
    assert_eq!(result.err(), Some("refused".to_string()));
    assert_eq!(made.get(), 3);
}

#[test]
fn pool_hands_out_oldest_first_and_never_more_than_its_size() {
    let made = Cell::new(0u32);
    let mut pool: ConnectionPool<u32> = ConnectionPool::new(2, || -> Result<u32, ()> {
        made.set(made.get() + 1);
        Ok(made.get())
    })
    .ok()
    .unwrap();
    let first = pool.get().unwrap();
    let second = pool.get().unwrap();
    assert_eq!(*first.connection(), 1);
    assert_eq!(*second.connection(), 2);
    assert_eq!(pool.checked_out(), 2);
    assert_eq!(pool.idle(), 0);
    assert!(pool.get().is_none());
    assert_eq!(pool.checked_out(), 2);
    assert!(pool.release(first).is_none());
    assert_eq!(pool.checked_out(), 1);
    assert_eq!(pool.idle(), 1);
    let again = pool.get().unwrap();
    assert_eq!(*again.connection(), 1);
    assert!(pool.release(second).is_none());
    assert!(pool.release(again).is_none());
    assert_eq!(pool.checked_out(), 0);
    assert_eq!(pool.idle(), 2);
    assert_eq!(pool.size(), 2);
}

#[test]
fn pool_conserves_connections_over_many_rounds() {
    let mut pool: ConnectionPool<u8> =
        ConnectionPool::new(3, || -> Result<u8, ()> { Ok(7) }).ok().unwrap();
    for round in 0..50usize {
        let mut held = Vec::new();
        for _ in 0..(round % 5) {
            if let Some(handle) = pool.get() {
                held.push(handle);
            }
            assert!(pool.checked_out() <= pool.size());
            assert_eq!(pool.idle() + pool.checked_out(), pool.size());
        }
        for handle in held {
            assert!(pool.release(handle).is_none());
            assert_eq!(pool.idle() + pool.checked_out(), pool.size());
        }
        assert_eq!(pool.idle(), 3);
    }
}

#[test]
fn pool_refuses_a_handle_when_nothing_is_checked_out() {
    let mut lender: ConnectionPool<u8> =
        ConnectionPool::new(1, || -> Result<u8, ()> { Ok(1) }).ok().unwrap();
    let mut other: ConnectionPool<u8> =
        ConnectionPool::new(1, || -> Result<u8, ()> { Ok(2) }).ok().unwrap();
    let foreign = lender.get().unwrap();
    let refused = other.release(foreign);
    assert!(refused.is_some());
    assert_eq!(other.idle(), 1);
    assert_eq!(other.checked_out(), 0);
    assert!(lender.release(refused.unwrap()).is_none());
    assert_eq!(lender.idle(), 1);
}

#[test]
fn pooled_connection_can_be_worked_with() {
    let mut pool: ConnectionPool<Vec<u8>> =
        ConnectionPool::new(1, || -> Result<Vec<u8>, ()> { Ok(Vec::new()) }).ok().unwrap();
    let mut handle = pool.get().unwrap();
    handle.connection_mut().push(9);
    assert_eq!(handle.connection().len(), 1);
    assert!(pool.release(handle).is_none());
    let handle = pool.get().unwrap();
    assert_eq!(handle.connection(), &vec![9u8]);
}

#[test]
fn connection_is_taken_in_and_a_failure_is_handed_back() {
    let mut idle: Queue<u32> = Queue::new();
    assert_eq!(ConnectionPool::take_in(&mut idle, Ok::<u32, String>(1)), None);
    assert_eq!(ConnectionPool::take_in(&mut idle, Ok::<u32, String>(2)), None);
    assert_eq!(
        ConnectionPool::take_in(&mut idle, Err::<u32, String>("refused".to_string())),
        Some("refused".to_string())
    );
    assert_eq!(idle.len(), 2);
    assert_eq!(idle.pop(), Some(1));
    assert_eq!(idle.pop(), Some(2));
}

#[test]
fn pool_construction_asks_for_nothing_after_a_failure() {
    let asked = Cell::new(0u32);
    let result: Result<ConnectionPool<u32>, u32> = ConnectionPool::new(10, || {
        asked.set(asked.get() + 1);
        if asked.get() >= 4 {
            Err(asked.get())
        } else {
            Ok(asked.get())
        }
    });
    assert_eq!(result.err(), Some(4));
    assert_eq!(asked.get(), 4);
}
