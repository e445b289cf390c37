use ligature_in_memory::error::LigatureError;
use ligature_in_memory::matching::ObjectRange;
use ligature_in_memory::store::{Store, ligature_in_memory};
use ligature_in_memory::types::{Entity, Object, Statement, statement_eq};

fn s(x: &str) -> String {
    x.to_string()
}

fn stmt(subject: Entity, predicate: &str, object: Object) -> Statement {
    Statement::new(subject, s(predicate), object)
}

fn contains_stmt(v: &Vec<Statement>, want: &Statement) -> bool {
    v.iter().any(|x| statement_eq(x, want))
}

fn same_stmt_set(got: &Vec<Statement>, want: &Vec<Statement>) -> bool {
    want.iter().all(|w| contains_stmt(got, w)) && got.iter().all(|g| contains_stmt(want, g))
        && got.len() == want.len()
}

fn store_with(collection: &str) -> Store {
    let mut store = ligature_in_memory();
    let mut tx = store.write_tx().unwrap();
    tx.create_collection(&s(collection)).unwrap();
    tx.commit(&mut store).unwrap();
    store
}

#[test]
fn creating_a_new_collection() {
    let mut store = ligature_in_memory();
    let mut tx = store.write_tx().unwrap();
    tx.create_collection(&s("test")).unwrap();
    tx.commit(&mut store).unwrap();
    let rtx = store.read_tx().unwrap();
    let cols = rtx.collections().unwrap();
    assert_eq!(cols.len(), 1);
    assert_eq!(cols[0], s("test"));
}

#[test]
fn access_and_delete_new_collection() {
    let mut store = store_with("test");
    let mut tx = store.write_tx().unwrap();
    tx.delete_collection(&s("test")).unwrap();
    tx.delete_collection(&s("test2")).unwrap();
    tx.commit(&mut store).unwrap();
    let rtx = store.read_tx().unwrap();
    assert!(rtx.collections().unwrap().is_empty());
}

#[test]
fn new_collections_should_be_empty() {
    let store = store_with("test");
    let rtx = store.read_tx().unwrap();
    assert!(rtx.all_statements(&s("test")).unwrap().is_empty());
}

#[test]
fn adding_statements_to_collections() {
    let mut store = store_with("test");
    let mut tx = store.write_tx().unwrap();
    let ent1 = tx.new_entity(&s("test")).unwrap();
    let ent2 = tx.new_entity(&s("test")).unwrap();
    tx.add_statement(&s("test"), stmt(ent1, "a", Object::Entity(ent2))).unwrap();
    let mut with_ctx = stmt(ent1, "a", Object::Entity(ent2));
    with_ctx.context = ent2;
    tx.add_statement(&s("test"), with_ctx).unwrap();
    tx.commit(&mut store).unwrap();
    let rtx = store.read_tx().unwrap();
    let all = rtx.all_statements(&s("test")).unwrap();
    let mut expected_second = stmt(Entity { id: 1 }, "a", Object::Entity(Entity { id: 2 }));
    expected_second.context = Entity { id: 2 };
    let expected = vec![
        stmt(Entity { id: 1 }, "a", Object::Entity(Entity { id: 2 })),
        expected_second,
    ];
    assert!(same_stmt_set(&all, &expected));
}

#[test]
fn removing_statements_from_collections() {
    let mut store = store_with("test");
    let mut tx = store.write_tx().unwrap();
    let ent1 = tx.new_entity(&s("test")).unwrap();
    let ent2 = tx.new_entity(&s("test")).unwrap();
    let ent3 = tx.new_entity(&s("test")).unwrap();
    tx.add_statement(&s("test"), stmt(ent1, "a", Object::Entity(ent2))).unwrap();
    tx.add_statement(&s("test"), stmt(ent3, "a", Object::Entity(ent2))).unwrap();
    tx.remove_statement(&s("test"), &stmt(ent1, "a", Object::Entity(ent2))).unwrap();
    tx.commit(&mut store).unwrap();
    let rtx = store.read_tx().unwrap();
    let all = rtx.all_statements(&s("test")).unwrap();
    let expected = vec![stmt(Entity { id: 3 }, "a", Object::Entity(Entity { id: 2 }))];
    assert!(same_stmt_set(&all, &expected));
}

#[test]
fn new_entity_identifiers_increase_from_one() {
    let mut store = ligature_in_memory();
    let mut tx = store.write_tx().unwrap();
    tx.create_collection(&s("first")).unwrap();
    tx.create_collection(&s("second")).unwrap();
    let a1 = tx.new_entity(&s("first")).unwrap();
    let a2 = tx.new_entity(&s("first")).unwrap();
    let a3 = tx.new_entity(&s("first")).unwrap();
    let b1 = tx.new_entity(&s("second")).unwrap();
    assert_eq!(a1.id, 1);
    assert_eq!(a2.id, 2);
    assert_eq!(a3.id, 3);
    assert!(a1.id < a2.id && a2.id < a3.id);
    assert_eq!(b1.id, 1);
    tx.commit(&mut store).unwrap();
}

#[test]
fn add_statement_is_idempotent() {
    let mut store = store_with("test");
    let mut tx = store.write_tx().unwrap();
    let ent1 = tx.new_entity(&s("test")).unwrap();
    let ent2 = tx.new_entity(&s("test")).unwrap();
    tx.add_statement(&s("test"), stmt(ent1, "a", Object::Entity(ent2))).unwrap();
    tx.add_statement(&s("test"), stmt(ent1, "a", Object::Entity(ent2))).unwrap();
    tx.commit(&mut store).unwrap();
    let rtx = store.read_tx().unwrap();
    assert_eq!(rtx.all_statements(&s("test")).unwrap().len(), 1);
}

#[test]
fn removing_an_absent_statement_is_a_noop() {
    let mut store = store_with("test");
    let mut tx = store.write_tx().unwrap();
    let ent1 = tx.new_entity(&s("test")).unwrap();
    let ent2 = tx.new_entity(&s("test")).unwrap();
    tx.add_statement(&s("test"), stmt(ent1, "a", Object::Entity(ent2))).unwrap();
    tx.remove_statement(&s("test"), &stmt(ent2, "b", Object::Entity(ent1))).unwrap();
    tx.commit(&mut store).unwrap();
    let rtx = store.read_tx().unwrap();
    let all = rtx.all_statements(&s("test")).unwrap();
    let expected = vec![stmt(Entity { id: 1 }, "a", Object::Entity(Entity { id: 2 }))];
    assert!(same_stmt_set(&all, &expected));
}

#[test]
fn removing_an_entity_removes_exactly_its_statements() {
    let mut store = store_with("test");
    let mut tx = store.write_tx().unwrap();
    let e1 = tx.new_entity(&s("test")).unwrap();
    let e2 = tx.new_entity(&s("test")).unwrap();
    let e3 = tx.new_entity(&s("test")).unwrap();
    // e2 as subject, as object, as context, and one statement without e2
    tx.add_statement(&s("test"), stmt(e2, "p", Object::LongLiteral(7))).unwrap();
    tx.add_statement(&s("test"), stmt(e1, "p", Object::Entity(e2))).unwrap();
    let mut ctx_stmt = stmt(e1, "q", Object::LongLiteral(8));
    ctx_stmt.context = e2;
    tx.add_statement(&s("test"), ctx_stmt).unwrap();
    tx.add_statement(&s("test"), stmt(e3, "p", Object::Entity(e1))).unwrap();
    tx.remove_entity(&s("test"), e2).unwrap();
    tx.commit(&mut store).unwrap();
    let rtx = store.read_tx().unwrap();
    let all = rtx.all_statements(&s("test")).unwrap();
    let expected = vec![stmt(Entity { id: 3 }, "p", Object::Entity(Entity { id: 1 }))];
    assert!(same_stmt_set(&all, &expected));
    // removing an entity never allocated is a no-op on the statements
    let mut tx2 = store.write_tx().unwrap();
    tx2.remove_entity(&s("test"), Entity { id: 99 }).unwrap();
    tx2.commit(&mut store).unwrap();
    let rtx2 = store.read_tx().unwrap();
    let all2 = rtx2.all_statements(&s("test")).unwrap();
    assert!(same_stmt_set(&all2, &expected));
}

#[test]
fn removing_the_default_context_entity_is_a_noop() {
    let mut store = store_with("test");
    let mut tx = store.write_tx().unwrap();
    let e1 = tx.new_entity(&s("test")).unwrap();
    // one statement with the default context, one with an explicit context
    tx.add_statement(&s("test"), stmt(e1, "p", Object::LongLiteral(7))).unwrap();
    let mut with_ctx = stmt(e1, "q", Object::LongLiteral(8));
    with_ctx.context = e1;
    tx.add_statement(&s("test"), with_ctx).unwrap();
    // the default context is never allocated, so removing it changes nothing
    tx.remove_entity(&s("test"), Entity { id: 0 }).unwrap();
    tx.commit(&mut store).unwrap();
    let rtx = store.read_tx().unwrap();
    assert_eq!(rtx.all_statements(&s("test")).unwrap().len(), 2);
}

#[test]
fn creating_an_existing_collection_keeps_its_contents() {
    let mut store = store_with("test");
    let mut tx = store.write_tx().unwrap();
    let e1 = tx.new_entity(&s("test")).unwrap();
    tx.add_statement(&s("test"), stmt(e1, "p", Object::LongLiteral(1))).unwrap();
    tx.create_collection(&s("test")).unwrap();
    tx.commit(&mut store).unwrap();
    let mut tx2 = store.write_tx().unwrap();
    tx2.create_collection(&s("test")).unwrap();
    tx2.commit(&mut store).unwrap();
    let rtx = store.read_tx().unwrap();
    assert_eq!(rtx.all_statements(&s("test")).unwrap().len(), 1);
    assert_eq!(rtx.collections().unwrap().len(), 1);
}

#[test]
fn mutations_on_a_missing_collection_fail() {
    let mut store = ligature_in_memory();
    let mut tx = store.write_tx().unwrap();
    assert_eq!(
        tx.new_entity(&s("absent")).unwrap_err(),
        LigatureError::CollectionNotFound
    );
    assert_eq!(
        tx.remove_entity(&s("absent"), Entity { id: 1 }).unwrap_err(),
        LigatureError::CollectionNotFound
    );
    assert_eq!(
        tx.add_statement(&s("absent"), stmt(Entity { id: 1 }, "p", Object::LongLiteral(1)))
            .unwrap_err(),
        LigatureError::CollectionNotFound
    );
    assert_eq!(
        tx.remove_statement(&s("absent"), &stmt(Entity { id: 1 }, "p", Object::LongLiteral(1)))
            .unwrap_err(),
        LigatureError::CollectionNotFound
    );
    assert!(tx.cancel().is_ok());
}

#[test]
fn matching_against_a_non_existent_collection() {
    let store = store_with("test");
    let rtx = store.read_tx().unwrap();
    assert_eq!(
        rtx.all_statements(&s("absent")).unwrap_err(),
        LigatureError::CollectionNotFound
    );
    assert_eq!(
        rtx.match_statements(&s("absent"), None, None, None, None).unwrap_err(),
        LigatureError::CollectionNotFound
    );
    assert_eq!(
        rtx.match_statements_range(&s("absent"), None, None, None, None).unwrap_err(),
        LigatureError::CollectionNotFound
    );
}

#[test]
fn matching_statements_in_collections() {
    let mut store = store_with("test");
    let mut tx = store.write_tx().unwrap();
    let valjean = tx.new_entity(&s("test")).unwrap();
    let javert = tx.new_entity(&s("test")).unwrap();
    let v_nat = stmt(valjean, "nationality", Object::StringLiteral(s("French")));
    let v_num = stmt(valjean, "prisonNumber", Object::LongLiteral(24601));
    let j_nat = stmt(javert, "nationality", Object::StringLiteral(s("French")));
    tx.add_statement(&s("test"), v_nat.duplicate()).unwrap();
    tx.add_statement(&s("test"), v_num.duplicate()).unwrap();
    tx.add_statement(&s("test"), j_nat.duplicate()).unwrap();
    tx.commit(&mut store).unwrap();
    let rtx = store.read_tx().unwrap();

    let french = rtx
        .match_statements(&s("test"), None, None, Some(Object::StringLiteral(s("French"))), None)
        .unwrap();
    assert!(same_stmt_set(&french, &vec![v_nat.duplicate(), j_nat.duplicate()]));

    let num = rtx
        .match_statements(&s("test"), None, None, Some(Object::LongLiteral(24601)), None)
        .unwrap();
    assert!(same_stmt_set(&num, &vec![v_num.duplicate()]));

    let of_valjean = rtx
        .match_statements(&s("test"), Some(valjean), None, None, None)
        .unwrap();
    assert!(same_stmt_set(&of_valjean, &vec![v_nat.duplicate(), v_num.duplicate()]));

    let all_wild = rtx.match_statements(&s("test"), None, None, None, None).unwrap();
    assert!(same_stmt_set(
        &all_wild,
        &vec![v_nat.duplicate(), v_num.duplicate(), j_nat.duplicate()]
    ));

    let exact = rtx
        .match_statements(
            &s("test"),
            Some(javert),
            Some(s("nationality")),
            Some(Object::StringLiteral(s("French"))),
            Some(Entity { id: 0 }),
        )
        .unwrap();
    assert!(same_stmt_set(&exact, &vec![j_nat.duplicate()]));
}

#[test]
fn matching_statements_with_ranges() {
    let mut store = store_with("test");
    let mut tx = store.write_tx().unwrap();
    let valjean = tx.new_entity(&s("test")).unwrap();
    let javert = tx.new_entity(&s("test")).unwrap();
    let trout = tx.new_entity(&s("test")).unwrap();
    let v_num = stmt(valjean, "prisonNumber", Object::LongLiteral(24601));
    let j_num = stmt(javert, "prisonNumber", Object::LongLiteral(24602));
    let t_num = stmt(trout, "prisonNumber", Object::LongLiteral(24603));
    let v_nat = stmt(valjean, "nationality", Object::StringLiteral(s("French")));
    let j_nat = stmt(javert, "nationality", Object::StringLiteral(s("French")));
    let t_nat = stmt(trout, "nationality", Object::StringLiteral(s("American")));
    tx.add_statement(&s("test"), v_num.duplicate()).unwrap();
    tx.add_statement(&s("test"), j_num.duplicate()).unwrap();
    tx.add_statement(&s("test"), t_num.duplicate()).unwrap();
    tx.add_statement(&s("test"), v_nat.duplicate()).unwrap();
    tx.add_statement(&s("test"), j_nat.duplicate()).unwrap();
    tx.add_statement(&s("test"), t_nat.duplicate()).unwrap();
    tx.commit(&mut store).unwrap();
    let rtx = store.read_tx().unwrap();

    let longs = rtx
        .match_statements_range(
            &s("test"),
            None,
            None,
            Some(ObjectRange::LongRange { start: 24601, end: 24603 }),
            None,
        )
        .unwrap();
    assert!(same_stmt_set(&longs, &vec![v_num.duplicate(), j_num.duplicate()]));

    let strings = rtx
        .match_statements_range(
            &s("test"),
            None,
            None,
            Some(ObjectRange::StringRange { start: s("French"), end: s("German") }),
            None,
        )
        .unwrap();
    assert!(same_stmt_set(&strings, &vec![v_nat.duplicate(), j_nat.duplicate()]));

    let narrowed = rtx
        .match_statements_range(
            &s("test"),
            Some(valjean),
            None,
            Some(ObjectRange::LongRange { start: 24601, end: 24603 }),
            None,
        )
        .unwrap();
    assert!(same_stmt_set(&narrowed, &vec![v_num.duplicate()]));

    let inverted = rtx.match_statements_range(
        &s("test"),
        None,
        None,
        Some(ObjectRange::LongRange { start: 5, end: 3 }),
        None,
    );
    assert_eq!(inverted.unwrap_err(), LigatureError::InvalidRange);
}

#[test]
fn adding_a_statement_with_unknown_entity_fails() {
    let mut store = store_with("test");
    let mut tx = store.write_tx().unwrap();
    let e1 = tx.new_entity(&s("test")).unwrap();
    let ghostly = Entity { id: 41 };
    let err = tx
        .add_statement(&s("test"), stmt(ghostly, "p", Object::Entity(e1)))
        .unwrap_err();
    assert_eq!(err, LigatureError::UnknownEntity);
    let err2 = tx
        .add_statement(&s("test"), stmt(e1, "p", Object::Entity(ghostly)))
        .unwrap_err();
    assert_eq!(err2, LigatureError::UnknownEntity);
    let mut bad_ctx = stmt(e1, "p", Object::LongLiteral(1));
    bad_ctx.context = ghostly;
    let err3 = tx.add_statement(&s("test"), bad_ctx).unwrap_err();
    assert_eq!(err3, LigatureError::UnknownEntity);
    // the failed additions left the working copy unchanged
    tx.add_statement(&s("test"), stmt(e1, "p", Object::LongLiteral(1))).unwrap();
    tx.commit(&mut store).unwrap();
    let rtx = store.read_tx().unwrap();
    assert_eq!(rtx.all_statements(&s("test")).unwrap().len(), 1);
}

#[test]
fn collection_name_listings() {
    let mut store = ligature_in_memory();
    let mut tx = store.write_tx().unwrap();
    tx.create_collection(&s("beta")).unwrap();
    tx.create_collection(&s("alpha")).unwrap();
    tx.create_collection(&s("alpine")).unwrap();
    tx.create_collection(&s("gamma")).unwrap();
    tx.commit(&mut store).unwrap();
    let rtx = store.read_tx().unwrap();
    let all = rtx.collections().unwrap();
    assert_eq!(all, vec![s("alpha"), s("alpine"), s("beta"), s("gamma")]);
    let al = rtx.collections_prefix(&s("al")).unwrap();
    assert_eq!(al, vec![s("alpha"), s("alpine")]);
    let none = rtx.collections_prefix(&s("zz")).unwrap();
    assert!(none.is_empty());
    let mid = rtx.collections_range(&s("alpine"), &s("gamma")).unwrap();
    assert_eq!(mid, vec![s("alpine"), s("beta")]);
    let inverted = rtx.collections_range(&s("gamma"), &s("alpha"));
    assert_eq!(inverted.unwrap_err(), LigatureError::InvalidRange);
}
