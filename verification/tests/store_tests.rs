use academy_core::envelope::{execute_query, fetch_outcome, query_outcome, Status};
use academy_core::errors::FetchError;
use academy_core::errors::{QueryError, SchemaError};
use academy_core::store::{init_database, Operation, QueryDescriptor, Store, Table, SCHEMA_VERSION};

#[test]
fn init_database_is_idempotent() {
    let mut store = Store::new();
    assert!(init_database(&mut store).is_ok());
    assert!(store.initialized);
    assert_eq!(store.schema_version, SCHEMA_VERSION);
    assert!(init_database(&mut store).is_ok());
    assert!(store.initialized);
    assert_eq!(store.schema_version, SCHEMA_VERSION);
    assert_eq!(store.records.len(), 0);
    assert_eq!(store.queue.len(), 0);
}

#[test]
fn init_database_rejects_newer_schema() {
    let mut store = Store::new();
    store.schema_version = SCHEMA_VERSION + 1;
    assert_eq!(init_database(&mut store), Err(SchemaError::VersionMismatch));
    assert_eq!(store.schema_version, SCHEMA_VERSION + 1);
    assert!(!store.initialized);
}

#[test]
fn select_on_fresh_store_is_success_with_no_rows() {
    let mut store = Store::new();
    init_database(&mut store).unwrap();
    let out = execute_query(
        &mut store,
        QueryDescriptor::SelectById { table: Table::Lessons, id: 1 },
        0,
    );
    assert_eq!(out.status, Status::Success);
    assert_eq!(out.rows.len(), 0);
    assert!(out.error.is_none());
    let out = execute_query(&mut store, QueryDescriptor::SelectAll { table: Table::Lessons }, 0);
    assert_eq!(out.status, Status::Success);
    assert_eq!(out.rows.len(), 0);
}

#[test]
fn insert_then_select_returns_the_row() {
    let mut store = Store::new();
    init_database(&mut store).unwrap();
    let out = execute_query(
        &mut store,
        QueryDescriptor::Insert { table: Table::Lessons, id: 1, payload: String::from("alpha") },
        10,
    );
    assert_eq!(out.status, Status::Success);
    let out = execute_query(
        &mut store,
        QueryDescriptor::SelectById { table: Table::Lessons, id: 1 },
        11,
    );
    assert_eq!(out.rows.len(), 1);
    assert_eq!(out.rows[0].payload, "alpha");
    assert_eq!(out.rows[0].revision, 1);
    assert_eq!(out.rows[0].updated_at, 10);
}

#[test]
fn duplicate_insert_is_a_constraint_error() {
    let mut store = Store::new();
    init_database(&mut store).unwrap();
    store
        .execute(
            QueryDescriptor::Insert { table: Table::Lessons, id: 1, payload: String::from("a") },
            0,
        )
        .unwrap();
    let r = store.execute(
        QueryDescriptor::Insert { table: Table::Lessons, id: 1, payload: String::from("b") },
        1,
    );
    assert_eq!(r.unwrap_err(), QueryError::Constraint);
}

#[test]
fn update_of_absent_row_is_not_found() {
    let mut store = Store::new();
    init_database(&mut store).unwrap();
    let r = store.execute(
        QueryDescriptor::Update { table: Table::Students, id: 9, payload: String::from("x") },
        0,
    );
    assert_eq!(r.unwrap_err(), QueryError::NotFound);
    let r = store.execute(QueryDescriptor::Delete { table: Table::Students, id: 9 }, 0);
    assert_eq!(r.unwrap_err(), QueryError::NotFound);
}

#[test]
fn update_advances_the_revision() {
    let mut store = Store::new();
    init_database(&mut store).unwrap();
    store
        .execute(
            QueryDescriptor::Insert { table: Table::Lessons, id: 1, payload: String::from("a") },
            0,
        )
        .unwrap();
    store
        .execute(
            QueryDescriptor::Update { table: Table::Lessons, id: 1, payload: String::from("b") },
            5,
        )
        .unwrap();
    store
        .execute(
            QueryDescriptor::Update { table: Table::Lessons, id: 1, payload: String::from("c") },
            7,
        )
        .unwrap();
    assert_eq!(store.records.len(), 1);
    assert_eq!(store.records[0].revision, 3);
    assert_eq!(store.records[0].payload, "c");
    assert_eq!(store.records[0].updated_at, 7);
}

#[test]
fn every_mutation_is_queued_and_coalesced() {
    let mut store = Store::new();
    init_database(&mut store).unwrap();
    store
        .execute(
            QueryDescriptor::Insert { table: Table::Lessons, id: 1, payload: String::from("a") },
            0,
        )
        .unwrap();
    assert_eq!(store.queue.len(), 1);
    assert_eq!(store.queue[0].op, Operation::Create);
    assert_eq!(store.queue[0].payload, "a");
    // a repeated edit coalesces into the same entry with the latest payload
    store
        .execute(
            QueryDescriptor::Update { table: Table::Lessons, id: 1, payload: String::from("b") },
            1,
        )
        .unwrap();
    assert_eq!(store.queue.len(), 1);
    assert_eq!(store.queue[0].op, Operation::Create);
    assert_eq!(store.queue[0].payload, "b");
    // a second entity queues its own entry
    store
        .execute(
            QueryDescriptor::Insert { table: Table::Students, id: 1, payload: String::from("s") },
            2,
        )
        .unwrap();
    assert_eq!(store.queue.len(), 2);
}

#[test]
fn create_then_delete_cancels_the_queued_entry() {
    let mut store = Store::new();
    init_database(&mut store).unwrap();
    store
        .execute(
            QueryDescriptor::Insert { table: Table::Lessons, id: 1, payload: String::from("a") },
            0,
        )
        .unwrap();
    store.execute(QueryDescriptor::Delete { table: Table::Lessons, id: 1 }, 1).unwrap();
    assert_eq!(store.records.len(), 0);
    assert_eq!(store.queue.len(), 0);
}

#[test]
fn query_outcome_wraps_an_io_error() {
    let out = query_outcome(Err(QueryError::Io));
    assert_eq!(out.status, Status::Error);
    assert_eq!(out.error, Some(QueryError::Io));
    assert_eq!(out.rows.len(), 0);
}

#[test]
fn fetch_outcome_wraps_both_cases() {
    let out = fetch_outcome(String::from("x"), Ok(String::from("/data/content/x")));
    assert_eq!(out.status, Status::Success);
    assert_eq!(out.content_id, "x");
    assert_eq!(out.local_path.unwrap(), "/data/content/x");
    assert!(out.error.is_none());
    let out = fetch_outcome(String::from("y"), Err(FetchError::Network));
    assert_eq!(out.status, Status::Error);
    assert_eq!(out.content_id, "y");
    assert!(out.local_path.is_none());
    assert_eq!(out.error, Some(FetchError::Network));
}
