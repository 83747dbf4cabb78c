use lazy_cell::Lazy;

#[test]
fn test() {
    let mut text = Lazy::new(|| "hello world".to_string());
    let mut bytes: Lazy<Vec<u8>, _> = Lazy::new(|| vec![1, 2, 3, 4]);

    let mut t1 = || {
        assert_eq!(*text.deref(), "hello world");
    };

    let mut t2 = || {
        assert_eq!(*bytes.deref(), [1, 2, 3, 4]);
    };

    t1();
    t2();
}

#[test]
fn test2() {
    let mut cell: Lazy<u32, _> = Lazy::new(|| 500);
    assert_eq!(*cell.deref(), 500);
}

#[test]
fn two_contexts_read_the_same_text_and_the_producer_runs_once() {
    let runs = std::cell::Cell::new(0u32);
    let mut cell: Lazy<String, _> = Lazy::new(|| {
        runs.set(runs.get() + 1);
        "hello world".to_string()
    });
    // Both contexts find the slot empty; one wins the guard and fills the
    // slot, the other finds the guard taken and starts over.
    assert!(cell.get().is_none());
    assert!(cell.get().is_none());
    assert!(!cell.claim());
    assert!(cell.claim());
    cell.fill();
    assert_eq!(*cell.get().unwrap(), "hello world");
    assert_eq!(*cell.get().unwrap(), "hello world");
    assert_eq!(runs.get(), 1);
}

#[test]
fn sequence_cell_gives_the_list_element_for_element() {
    let mut cell: Lazy<Vec<u8>, _> = Lazy::new(|| vec![1, 2, 3, 4]);
    let list = cell.deref();
    assert_eq!(list.len(), 4);
    assert_eq!(list[0], 1);
    assert_eq!(list[1], 2);
    assert_eq!(list[2], 3);
    assert_eq!(list[3], 4);
}
