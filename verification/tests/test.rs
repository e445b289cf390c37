use ligature_in_memory::store::ligature_in_memory;

#[test]
fn test() {
    assert_eq!(true, true);
}

#[test]
fn create_and_close_store() {
    let mut store = ligature_in_memory();
    let tx = store.read_tx().unwrap();
    let cols = tx.collections().unwrap();
    assert!(cols.is_empty());
    assert!(store.close().is_ok());
    assert!(!store.is_open());
}
