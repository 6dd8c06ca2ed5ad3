use academy_core::envelope::Status;
use academy_core::errors::SyncErrorKind;
use academy_core::store::{QueryDescriptor, Store, Table};
use academy_core::sync::{
    backoff_delay, run_sync_pass, trigger_sync, PushOutcome, PushStep, RemoteChange, SyncEngine,
    TriggerDecision,
};

fn engine() -> SyncEngine {
    SyncEngine { active: false, max_attempts: 3, base_delay_ms: 100, max_delay_ms: 5000 }
}

fn store_with(entries: &[(Table, u64, &str)]) -> Store {
    let mut store = Store::new();
    academy_core::store::init_database(&mut store).unwrap();
    for (i, (t, id, p)) in entries.iter().enumerate() {
        store
            .execute(
                QueryDescriptor::Insert { table: *t, id: *id, payload: String::from(*p) },
                i as i64,
            )
            .unwrap();
    }
    store
}

#[test]
fn backoff_doubles_and_caps() {
    assert_eq!(backoff_delay(100, 0, 5000), 100);
    assert_eq!(backoff_delay(100, 1, 5000), 200);
    assert_eq!(backoff_delay(100, 3, 5000), 800);
    assert_eq!(backoff_delay(100, 10, 5000), 5000);
    assert_eq!(backoff_delay(0, 7, 5000), 0);
    assert_eq!(backoff_delay(100, u64::MAX, 5000), 5000);
}

#[test]
fn trigger_while_offline_is_a_successful_no_op() {
    let mut store = store_with(&[(Table::Lessons, 1, "a")]);
    let mut eng = engine();
    let out = run_sync_pass(
        &mut store,
        &mut eng,
        false,
        &Vec::new(),
        Vec::new(),
        50,
        String::from("t"),
    );
    assert_eq!(out.status, Status::Success);
    assert!(!out.synced);
    assert!(out.error.is_none());
    assert_eq!(store.queue.len(), 1);
    assert!(!eng.active);
}

#[test]
fn concurrent_trigger_coalesces() {
    let mut eng = engine();
    eng.active = true;
    assert_eq!(trigger_sync(&mut eng, true), TriggerDecision::AlreadyActive);
    assert!(eng.active);
    eng.active = false;
    assert_eq!(trigger_sync(&mut eng, true), TriggerDecision::Start);
    assert!(eng.active);
}

#[test]
fn offline_mutations_drain_after_reconnecting() {
    let mut store = store_with(&[
        (Table::Lessons, 1, "a"),
        (Table::Lessons, 2, "b"),
        (Table::Students, 1, "c"),
    ]);
    assert_eq!(store.queue.len(), 3);
    let mut eng = engine();
    let outcomes = vec![PushOutcome::Ack, PushOutcome::Ack, PushOutcome::Ack];
    let out = run_sync_pass(
        &mut store,
        &mut eng,
        true,
        &outcomes,
        Vec::new(),
        90,
        String::from("t"),
    );
    assert_eq!(out.status, Status::Success);
    assert!(out.synced);
    assert_eq!(store.queue.len(), 0);
    assert_eq!(store.cursor.last_successful_sync_at, 90);
    assert!(!eng.active);
}

#[test]
fn remote_newer_version_wins_and_is_audited() {
    // local entity at revision 3 (timestamp 5), remote at revision 5 with a
    // later timestamp: after sync the local value is the remote value and a
    // conflict record referencing the discarded local value is retained
    let mut store = store_with(&[(Table::Lessons, 1, "v1")]);
    store
        .execute(
            QueryDescriptor::Update { table: Table::Lessons, id: 1, payload: String::from("v2") },
            3,
        )
        .unwrap();
    store
        .execute(
            QueryDescriptor::Update { table: Table::Lessons, id: 1, payload: String::from("v3") },
            5,
        )
        .unwrap();
    assert_eq!(store.records[0].revision, 3);
    assert_eq!(store.queue.len(), 1);
    let step = store.push_step(
        PushOutcome::Conflict {
            remote_revision: 5,
            remote_updated_at: 9,
            remote_payload: String::from("remote"),
        },
        3,
    );
    match step {
        PushStep::RemoteWon(c) => {
            assert_eq!(c.discarded_payload, "v3");
            assert_eq!(c.discarded_revision, 3);
            assert_eq!(c.winning_payload, "remote");
            assert_eq!(c.winning_updated_at, 9);
        }
        _ => panic!("remote version should win"),
    }
    assert_eq!(store.queue.len(), 0);
    assert_eq!(store.records[0].payload, "remote");
    assert_eq!(store.records[0].revision, 5);
    assert_eq!(store.records[0].updated_at, 9);
    assert_eq!(store.conflicts.len(), 1);
    assert_eq!(store.conflicts[0].discarded_payload, "v3");
}

#[test]
fn local_newer_change_is_retained() {
    let mut store = store_with(&[(Table::Lessons, 1, "local")]);
    let step = store.push_step(
        PushOutcome::Conflict {
            remote_revision: 9,
            remote_updated_at: -10,
            remote_payload: String::from("older"),
        },
        3,
    );
    assert!(matches!(step, PushStep::LocalNewerRetained));
    assert_eq!(store.queue.len(), 1);
    assert_eq!(store.records[0].payload, "local");
}

#[test]
fn transient_failure_backs_off_then_turns_terminal() {
    let mut store = store_with(&[(Table::Lessons, 1, "a")]);
    let mut eng = engine();
    eng.max_attempts = 2;
    let outcomes = vec![PushOutcome::TransientFailure];
    let out = run_sync_pass(
        &mut store,
        &mut eng,
        true,
        &outcomes,
        Vec::new(),
        40,
        String::from("t"),
    );
    assert_eq!(out.status, Status::Error);
    assert_eq!(out.error, Some(SyncErrorKind::Network));
    assert!(!out.synced);
    assert_eq!(store.queue.len(), 1);
    assert_eq!(store.queue[0].attempt_count, 1);
    assert_eq!(store.queue[0].last_error, Some(SyncErrorKind::Network));
    // the cursor is untouched by a failed pass
    assert_eq!(store.cursor.last_successful_sync_at, 0);
    // a second failure reaches the bound and the entry turns terminal
    let step = store.push_step(PushOutcome::TransientFailure, eng.max_attempts);
    assert!(matches!(step, PushStep::Terminal(_)));
    assert_eq!(store.queue.len(), 0);
    assert_eq!(store.dead_letters.len(), 1);
    assert_eq!(store.dead_letters[0].attempt_count, 2);
    assert_eq!(store.dead_letters[0].last_error, Some(SyncErrorKind::Terminal));
}

#[test]
fn pull_skips_entities_with_pending_local_edits() {
    let mut store = store_with(&[(Table::Lessons, 1, "mine")]);
    let changes = vec![
        RemoteChange::Upsert {
            table: Table::Lessons,
            id: 1,
            revision: 4,
            updated_at: 20,
            payload: String::from("theirs"),
            watermark: 7,
        },
        RemoteChange::Upsert {
            table: Table::Lessons,
            id: 2,
            revision: 1,
            updated_at: 21,
            payload: String::from("new"),
            watermark: 9,
        },
    ];
    let wm = store.apply_pull(changes);
    assert_eq!(wm, 9);
    // the pending local edit of lesson 1 was not overwritten
    assert_eq!(store.records[0].payload, "mine");
    // the unrelated remote row was created
    assert_eq!(store.records.len(), 2);
    assert_eq!(store.records[1].id, 2);
    assert_eq!(store.records[1].payload, "new");
}

#[test]
fn pull_applies_deletes_for_unpending_entities() {
    let mut store = store_with(&[(Table::Lessons, 1, "a")]);
    // drain the queue so nothing is pending
    let outcomes = vec![PushOutcome::Ack];
    let report = store.push_all(&outcomes, 3);
    assert!(!report.aborted);
    assert_eq!(report.acked.len(), 1);
    let changes = vec![RemoteChange::Delete { table: Table::Lessons, id: 1, watermark: 3 }];
    let wm = store.apply_pull(changes);
    assert_eq!(wm, 3);
    assert_eq!(store.records.len(), 0);
}

#[test]
fn conflict_abort_is_surfaced_as_a_conflict_error() {
    // the queued local change is newer than the remote version: the pass
    // stops, the entry stays, and the error kind names the conflict
    let mut store = Store::new();
    academy_core::store::init_database(&mut store).unwrap();
    store
        .execute(
            QueryDescriptor::Insert { table: Table::Lessons, id: 1, payload: String::from("a") },
            100,
        )
        .unwrap();
    let mut eng = engine();
    let outcomes = vec![PushOutcome::Conflict {
        remote_revision: 2,
        remote_updated_at: 5,
        remote_payload: String::from("old remote"),
    }];
    let out = run_sync_pass(
        &mut store,
        &mut eng,
        true,
        &outcomes,
        Vec::new(),
        101,
        String::from("t"),
    );
    assert_eq!(out.status, Status::Error);
    assert_eq!(out.error, Some(SyncErrorKind::Conflict));
    assert!(!out.synced);
    assert_eq!(store.queue.len(), 1);
    assert_eq!(store.records[0].payload, "a");
}

#[test]
fn completed_pass_advances_the_watermark() {
    let mut store = store_with(&[(Table::Lessons, 1, "a")]);
    let mut eng = engine();
    let outcomes = vec![PushOutcome::Ack];
    let changes = vec![RemoteChange::Upsert {
        table: Table::Lessons,
        id: 9,
        revision: 2,
        updated_at: 30,
        payload: String::from("r"),
        watermark: 44,
    }];
    let out = run_sync_pass(&mut store, &mut eng, true, &outcomes, changes, 77, String::from("t"));
    assert!(out.synced);
    assert_eq!(store.cursor.remote_watermark, 44);
    assert_eq!(store.cursor.last_successful_sync_at, 77);
    assert_eq!(store.records.len(), 2);
}
