use ligature_in_memory::error::LigatureError;
use ligature_in_memory::store::ligature_in_memory;
use ligature_in_memory::types::{Entity, Object, Statement};

fn s(x: &str) -> String {
    x.to_string()
}

fn stmt(subject: Entity, predicate: &str, object: Object) -> Statement {
    Statement::new(subject, s(predicate), object)
}

#[test]
fn exactly_one_of_two_concurrent_commits_succeeds() {
    let mut store = ligature_in_memory();
    let mut setup = store.write_tx().unwrap();
    setup.create_collection(&s("test")).unwrap();
    setup.commit(&mut store).unwrap();

    let mut tx1 = store.write_tx().unwrap();
    let mut tx2 = store.write_tx().unwrap();
    let e1 = tx1.new_entity(&s("test")).unwrap();
    tx1.add_statement(&s("test"), stmt(e1, "winner", Object::LongLiteral(1))).unwrap();
    let e2 = tx2.new_entity(&s("test")).unwrap();
    tx2.add_statement(&s("test"), stmt(e2, "loser", Object::LongLiteral(2))).unwrap();

    assert!(tx1.commit(&mut store).is_ok());
    assert_eq!(tx2.commit(&mut store).unwrap_err(), LigatureError::CommitConflict);
    // the losing transaction stays open, so it can still be cancelled
    assert!(tx2.is_open());
    assert!(tx2.cancel().is_ok());

    // the store reflects only the winner's mutations
    let rtx = store.read_tx().unwrap();
    let all = rtx.all_statements(&s("test")).unwrap();
    assert_eq!(all.len(), 1);
    assert_eq!(all[0].predicate, s("winner"));
}

#[test]
fn a_reader_never_sees_a_later_commit() {
    let mut store = ligature_in_memory();
    let mut setup = store.write_tx().unwrap();
    setup.create_collection(&s("test")).unwrap();
    setup.commit(&mut store).unwrap();

    let early_reader = store.read_tx().unwrap();

    let mut tx = store.write_tx().unwrap();
    let e1 = tx.new_entity(&s("test")).unwrap();
    tx.add_statement(&s("test"), stmt(e1, "p", Object::LongLiteral(9))).unwrap();
    tx.commit(&mut store).unwrap();

    // the snapshot taken before the commit is still empty, even afterwards
    assert!(early_reader.all_statements(&s("test")).unwrap().is_empty());
    // a fresh reader sees the committed statement
    let late_reader = store.read_tx().unwrap();
    assert_eq!(late_reader.all_statements(&s("test")).unwrap().len(), 1);
}

#[test]
fn staged_mutations_are_invisible_until_commit() {
    let mut store = ligature_in_memory();
    let mut tx = store.write_tx().unwrap();
    tx.create_collection(&s("test")).unwrap();
    let rtx = store.read_tx().unwrap();
    assert!(rtx.collections().unwrap().is_empty());
    tx.commit(&mut store).unwrap();
    let rtx2 = store.read_tx().unwrap();
    assert_eq!(rtx2.collections().unwrap().len(), 1);
}

#[test]
fn cancelled_write_transaction_changes_nothing() {
    let mut store = ligature_in_memory();
    let mut tx = store.write_tx().unwrap();
    tx.create_collection(&s("test")).unwrap();
    assert!(tx.cancel().is_ok());
    assert!(!tx.is_open());
    assert_eq!(tx.cancel().unwrap_err(), LigatureError::TransactionClosed);
    assert_eq!(
        tx.create_collection(&s("more")).unwrap_err(),
        LigatureError::TransactionClosed
    );
    assert_eq!(tx.commit(&mut store).unwrap_err(), LigatureError::TransactionClosed);
    let rtx = store.read_tx().unwrap();
    assert!(rtx.collections().unwrap().is_empty());
}

#[test]
fn operations_on_a_cancelled_reader_fail() {
    let store = ligature_in_memory();
    let mut rtx = store.read_tx().unwrap();
    assert!(rtx.is_open());
    rtx.cancel();
    assert!(!rtx.is_open());
    assert_eq!(rtx.collections().unwrap_err(), LigatureError::TransactionClosed);
    assert_eq!(
        rtx.all_statements(&s("test")).unwrap_err(),
        LigatureError::TransactionClosed
    );
    assert_eq!(
        rtx.match_statements(&s("test"), None, None, None, None).unwrap_err(),
        LigatureError::TransactionClosed
    );
}

#[test]
fn a_closed_store_refuses_new_transactions() {
    let mut store = ligature_in_memory();
    assert!(store.is_open());
    assert!(store.close().is_ok());
    assert!(!store.is_open());
    assert_eq!(store.read_tx().unwrap_err(), LigatureError::StoreClosed);
    assert_eq!(store.write_tx().unwrap_err(), LigatureError::StoreClosed);
    assert_eq!(store.close().unwrap_err(), LigatureError::AlreadyClosed);
}

#[test]
fn readers_issued_before_close_stay_valid() {
    let mut store = ligature_in_memory();
    let mut tx = store.write_tx().unwrap();
    tx.create_collection(&s("test")).unwrap();
    let e1 = tx.new_entity(&s("test")).unwrap();
    tx.add_statement(&s("test"), stmt(e1, "p", Object::LongLiteral(3))).unwrap();
    tx.commit(&mut store).unwrap();
    let reader = store.read_tx().unwrap();
    store.close().unwrap();
    // the snapshot taken before the close is still fully readable
    assert_eq!(reader.all_statements(&s("test")).unwrap().len(), 1);
    assert_eq!(reader.collections().unwrap(), vec![s("test")]);
}

#[test]
fn commit_after_store_close_fails() {
    let mut store = ligature_in_memory();
    let mut tx = store.write_tx().unwrap();
    tx.create_collection(&s("test")).unwrap();
    store.close().unwrap();
    assert_eq!(tx.commit(&mut store).unwrap_err(), LigatureError::StoreClosed);
    // the transaction is still open and can be cancelled
    assert!(tx.cancel().is_ok());
}

#[test]
fn error_kinds_describe_themselves() {
    assert_eq!(LigatureError::StoreClosed.describe(), "store closed");
    assert_eq!(LigatureError::CommitConflict.describe(), "commit conflict");
    assert_eq!(LigatureError::UnknownEntity.describe(), "unknown entity");
}
