use lazy_cell::{initialize, Lazy, State};
use std::cell::Cell;

#[test]
fn fresh_cell_holds_the_producer_and_a_free_guard() {
    let cell: Lazy<u32, _> = Lazy::new(|| 7);
    assert!(matches!(cell._cell, State::NotInitialized(_)));
    assert!(!cell._lock);
    assert_eq!(cell.get(), None);
}

#[test]
fn declaring_a_cell_runs_nothing() {
    let runs = Cell::new(0u32);
    let cell: Lazy<u32, _> = Lazy::new(|| {
        runs.set(runs.get() + 1);
        7
    });
    assert_eq!(cell.get(), None);
    assert_eq!(cell.get(), None);
    assert_eq!(runs.get(), 0);
}

#[test]
fn first_access_runs_the_producer_once() {
    let runs = Cell::new(0u32);
    let mut cell: Lazy<u32, _> = Lazy::new(|| {
        runs.set(runs.get() + 1);
        500
    });
    assert_eq!(*cell.deref(), 500);
    assert_eq!(runs.get(), 1);
    assert!(matches!(cell._cell, State::Initialized(500)));
    assert!(cell._lock);
}

#[test]
fn many_accesses_run_the_producer_once() {
    let runs = Cell::new(0u32);
    let mut cell: Lazy<u32, _> = Lazy::new(|| {
        runs.set(runs.get() + 1);
        500
    });
    for _ in 0..100 {
        assert_eq!(*cell.deref(), 500);
    }
    assert_eq!(runs.get(), 1);
}

#[test]
fn later_accesses_keep_the_first_value() {
    // A producer that would give another value each time it ran.
    let runs = Cell::new(0u32);
    let mut cell: Lazy<u32, _> = Lazy::new(|| {
        runs.set(runs.get() + 1);
        10 * runs.get()
    });
    assert_eq!(*cell.deref(), 10);
    assert_eq!(*cell.deref(), 10);
    assert_eq!(cell.try_deref(), Some(&10));
    assert_eq!(cell.get(), Some(&10));
    assert_eq!(runs.get(), 1);
}

#[test]
fn every_access_sees_the_one_instance() {
    let mut cell: Lazy<Vec<u8>, _> = Lazy::new(|| vec![1, 2, 3, 4]);
    let first = format!("{:p}", cell.deref());
    let second = format!("{:p}", cell.deref());
    let third = format!("{:p}", cell.try_deref().unwrap());
    assert_eq!(first, second);
    assert_eq!(second, third);
    assert!(std::ptr::eq(cell.get().unwrap(), cell.get().unwrap()));
}

#[test]
fn access_to_a_ready_cell_leaves_the_guard_claimed() {
    let mut cell: Lazy<u32, _> = Lazy::new(|| 500);
    assert_eq!(*cell.deref(), 500);
    assert!(cell._lock);
    assert_eq!(*cell.deref(), 500);
    assert!(cell._lock);
}

#[test]
fn initialize_constructs_the_value_at_once() {
    let runs = Cell::new(0u32);
    let mut cell: Lazy<u32, _> = Lazy::new(|| {
        runs.set(runs.get() + 1);
        500
    });
    initialize(&mut cell);
    assert_eq!(runs.get(), 1);
    assert_eq!(cell.get(), Some(&500));
    assert!(cell._lock);
}

#[test]
fn initialize_then_access_is_like_access_alone() {
    let forced_runs = Cell::new(0u32);
    let mut forced: Lazy<String, _> = Lazy::new(|| {
        forced_runs.set(forced_runs.get() + 1);
        "hello world".to_string()
    });
    let plain_runs = Cell::new(0u32);
    let mut plain: Lazy<String, _> = Lazy::new(|| {
        plain_runs.set(plain_runs.get() + 1);
        "hello world".to_string()
    });

    initialize(&mut forced);
    assert_eq!(forced.deref(), plain.deref());
    assert_eq!(*forced.deref(), "hello world");
    assert_eq!(forced_runs.get(), 1);
    assert_eq!(plain_runs.get(), 1);
}

#[test]
fn initialize_twice_runs_the_producer_once() {
    let runs = Cell::new(0u32);
    let mut cell: Lazy<u32, _> = Lazy::new(|| {
        runs.set(runs.get() + 1);
        10 * runs.get()
    });
    initialize(&mut cell);
    initialize(&mut cell);
    assert_eq!(*cell.deref(), 10);
    assert_eq!(runs.get(), 1);
}

#[test]
fn try_deref_constructs_the_value_when_the_guard_is_free() {
    let runs = Cell::new(0u32);
    let mut cell: Lazy<u32, _> = Lazy::new(|| {
        runs.set(runs.get() + 1);
        500
    });
    assert_eq!(cell.try_deref(), Some(&500));
    assert_eq!(runs.get(), 1);
    assert!(cell._lock);
    assert_eq!(cell.try_deref(), Some(&500));
    assert_eq!(runs.get(), 1);
}

#[test]
fn cells_are_independent() {
    let mut first: Lazy<u32, _> = Lazy::new(|| 1);
    let second: Lazy<u32, _> = Lazy::new(|| 2);
    assert_eq!(*first.deref(), 1);
    assert_eq!(second.get(), None);
    assert!(!second._lock);
}
