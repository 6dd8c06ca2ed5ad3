//! Local store manager: the embedded store modelled as the source of truth
//! on-device, with schema lifecycle and a constrained, parameterized query
//! interface.
//!
//! The central correctness guarantee: every successful mutation enqueues a
//! corresponding sync queue entry in the same transaction (write-ahead
//! coupling), so a crash between local commit and queue write cannot lose a
//! pending sync. In this model a transaction is one call on `&mut Store`.

use vstd::prelude::*;

use crate::errors::QueryError;
use crate::errors::SchemaError;

verus! {

/// The schema version this build of the library creates and understands.
pub const SCHEMA_VERSION: u64 = 1;

/// One of the fixed application tables of the local schema.
#[derive(Clone, Copy, Debug, PartialEq, Eq, Structural)]
pub enum Table {
    Lessons,
    Students,
    Settings,
}

/// The kind of a pending outbound mutation.
#[derive(Clone, Copy, Debug, PartialEq, Eq, Structural)]
pub enum Operation {
    Create,
    Update,
    Delete,
}

/// A row in the embedded store: a table-scoped primary key, a strictly
/// increasing local revision number, the time of the last local write, and
/// the row payload.
#[derive(Debug)]
pub struct LocalRecord {
    pub table: Table,
    pub id: u64,
    pub revision: u64,
    pub updated_at: i64,
    pub payload: String,
}

impl Clone for LocalRecord {
    fn clone(&self) -> (r: Self)
        ensures
            r == *self,
    {
        LocalRecord {
            table: self.table,
            id: self.id,
            revision: self.revision,
            updated_at: self.updated_at,
            payload: self.payload.clone(),
        }
    }
}

/// One pending outbound mutation, durable until the remote service
/// acknowledges it.
#[derive(Debug)]
pub struct SyncQueueEntry {
    pub table: Table,
    pub entity_id: u64,
    pub op: Operation,
    pub payload: String,
    pub enqueued_at: i64,
    pub attempt_count: u64,
    pub last_error: Option<crate::errors::SyncErrorKind>,
}

impl Clone for SyncQueueEntry {
    fn clone(&self) -> (r: Self)
        ensures
            r == *self,
    {
        SyncQueueEntry {
            table: self.table,
            entity_id: self.entity_id,
            op: self.op,
            payload: self.payload.clone(),
            enqueued_at: self.enqueued_at,
            attempt_count: self.attempt_count,
            last_error: self.last_error,
        }
    }
}

/// Process-wide sync cursor, updated only at the end of a successful pass.
#[derive(Clone, Copy, Debug, PartialEq, Eq, Structural)]
pub struct SyncCursor {
    pub last_successful_sync_at: i64,
    pub remote_watermark: i64,
}

/// Audit record of a local change discarded by conflict resolution; never
/// silently dropped.
#[derive(Debug)]
pub struct ConflictRecord {
    pub table: Table,
    pub entity_id: u64,
    pub discarded_payload: String,
    pub discarded_revision: u64,
    pub discarded_updated_at: i64,
    pub winning_payload: String,
    pub winning_updated_at: i64,
}

impl Clone for ConflictRecord {
    fn clone(&self) -> (r: Self)
        ensures
            r == *self,
    {
        ConflictRecord {
            table: self.table,
            entity_id: self.entity_id,
            discarded_payload: self.discarded_payload.clone(),
            discarded_revision: self.discarded_revision,
            discarded_updated_at: self.discarded_updated_at,
            winning_payload: self.winning_payload.clone(),
            winning_updated_at: self.winning_updated_at,
        }
    }
}

/// The embedded store: application rows, the durable sync queue, entries
/// that exhausted their attempts, the conflict audit log, and the cursor.
pub struct Store {
    pub initialized: bool,
    pub schema_version: u64,
    pub records: Vec<LocalRecord>,
    pub queue: Vec<SyncQueueEntry>,
    pub dead_letters: Vec<SyncQueueEntry>,
    pub conflicts: Vec<ConflictRecord>,
    pub cursor: SyncCursor,
}

/// Record `r` is the row of entity (`t`, `id`).
pub open spec fn is_record(r: LocalRecord, t: Table, id: u64) -> bool {
    r.table == t && r.id == id
}

/// Queue entry `e` is the pending mutation of entity (`t`, `id`).
pub open spec fn is_entry(e: SyncQueueEntry, t: Table, id: u64) -> bool {
    e.table == t && e.entity_id == id
}

/// No two records address the same entity.
pub open spec fn records_unique(records: Seq<LocalRecord>) -> bool {
    forall|i: int, j: int|
        #![trigger records[i], records[j]]
        0 <= i < j < records.len() ==> !(records[i].table == records[j].table && records[i].id
            == records[j].id)
}

/// No two queue entries address the same entity.
pub open spec fn queue_unique(queue: Seq<SyncQueueEntry>) -> bool {
    forall|i: int, j: int|
        #![trigger queue[i], queue[j]]
        0 <= i < j < queue.len() ==> !(queue[i].table == queue[j].table && queue[i].entity_id
            == queue[j].entity_id)
}

/// Some record of `records` addresses entity (`t`, `id`).
pub open spec fn has_record(records: Seq<LocalRecord>, t: Table, id: u64) -> bool {
    exists|i: int| 0 <= i < records.len() && is_record(#[trigger] records[i], t, id)
}

/// The index of the record of entity (`t`, `id`); meaningful only when
/// `has_record` holds, and then unique under `records_unique`.
pub open spec fn record_at(records: Seq<LocalRecord>, t: Table, id: u64) -> int {
    choose|i: int| 0 <= i < records.len() && is_record(#[trigger] records[i], t, id)
}

/// Some entry of `queue` addresses entity (`t`, `id`).
pub open spec fn has_entry(queue: Seq<SyncQueueEntry>, t: Table, id: u64) -> bool {
    exists|i: int| 0 <= i < queue.len() && is_entry(#[trigger] queue[i], t, id)
}

/// The index of the queue entry of entity (`t`, `id`); meaningful only when
/// `has_entry` holds, and then unique under `queue_unique`.
pub open spec fn entry_at(queue: Seq<SyncQueueEntry>, t: Table, id: u64) -> int {
    choose|i: int| 0 <= i < queue.len() && is_entry(#[trigger] queue[i], t, id)
}

/// Under uniqueness, any matching record index is the `record_at` index.
pub proof fn lemma_record_at_is(records: Seq<LocalRecord>, t: Table, id: u64, i: int)
    requires
        records_unique(records),
        0 <= i < records.len(),
        is_record(records[i], t, id),
    ensures
        has_record(records, t, id),
        record_at(records, t, id) == i,
{
    assert(has_record(records, t, id));
    let j = record_at(records, t, id);
    assert(0 <= j < records.len() && is_record(records[j], t, id));
}

/// Under uniqueness, any matching entry index is the `entry_at` index.
pub proof fn lemma_entry_at_is(queue: Seq<SyncQueueEntry>, t: Table, id: u64, i: int)
    requires
        queue_unique(queue),
        0 <= i < queue.len(),
        is_entry(queue[i], t, id),
    ensures
        has_entry(queue, t, id),
        entry_at(queue, t, id) == i,
{
    assert(has_entry(queue, t, id));
    let j = entry_at(queue, t, id);
    assert(0 <= j < queue.len() && is_entry(queue[j], t, id));
}

impl Store {
    /// There is at most one record per (table, id), at most one queue entry
    /// per (table, entity_id), and every record's revision is at least 1.
    pub open spec fn inv(self) -> bool {
        &&& records_unique(self.records@)
        &&& queue_unique(self.queue@)
        &&& forall|i: int| 0 <= i < self.records@.len() ==> (#[trigger] self.records@[i]).revision >= 1
    }

    /// An empty, not-yet-initialized store, as on first run.
    pub fn new() -> (r: Store)
        ensures
            r.inv(),
            !r.initialized,
            r.schema_version == 0,
            r.records@ =~= Seq::<LocalRecord>::empty(),
            r.queue@ =~= Seq::<SyncQueueEntry>::empty(),
            r.dead_letters@ =~= Seq::<SyncQueueEntry>::empty(),
            r.conflicts@ =~= Seq::<ConflictRecord>::empty(),
            r.cursor == (SyncCursor { last_successful_sync_at: 0, remote_watermark: 0 }),
    {
        Store {
            initialized: false,
            schema_version: 0,
            records: Vec::new(),
            queue: Vec::new(),
            dead_letters: Vec::new(),
            conflicts: Vec::new(),
            cursor: SyncCursor { last_successful_sync_at: 0, remote_watermark: 0 },
        }
    }
}

/// Creates the schema if absent and applies additive migrations only.
///
/// Idempotent: safe to call on every startup; a second call on an already
/// current store changes nothing. Fails exactly when the store carries a
/// schema version newer than this build understands, and then changes
/// nothing. No data is ever dropped.
pub fn init_database(store: &mut Store) -> (r: Result<(), SchemaError>)
    ensures
        r is Ok <==> old(store).schema_version <= SCHEMA_VERSION,
        r is Ok ==> *final(store) == (Store {
            initialized: true,
            schema_version: SCHEMA_VERSION,
            ..*old(store)
        }),
        r is Err ==> *final(store) == *old(store) && r == Err::<(), SchemaError>(
            SchemaError::VersionMismatch,
        ),
        old(store).initialized && old(store).schema_version == SCHEMA_VERSION ==> *final(store)
            == *old(store),
        old(store).inv() ==> final(store).inv(),
{
    if store.schema_version > SCHEMA_VERSION {
        return Err(SchemaError::VersionMismatch);
    }
    store.initialized = true;
    store.schema_version = SCHEMA_VERSION;
    Ok(())
}

/// How a new pending operation on an entity merges with the entry already
/// queued for it. `None` means the merged mutation is a no-op for the remote
/// service (a creation that was undone before it was ever pushed) and the
/// entry is dropped.
pub open spec fn combine_op(existing: Operation, fresh: Operation) -> Option<Operation> {
    match (existing, fresh) {
        (Operation::Create, Operation::Delete) => None,
        (Operation::Create, _) => Some(Operation::Create),
        (Operation::Delete, Operation::Create) => Some(Operation::Update),
        (Operation::Delete, other) => Some(other),
        (Operation::Update, other) => Some(other),
    }
}

/// The queue entry a mutation enqueues when no entry for its entity exists.
pub open spec fn fresh_entry(
    t: Table,
    id: u64,
    op: Operation,
    payload: String,
    now: i64,
) -> SyncQueueEntry {
    SyncQueueEntry {
        table: t,
        entity_id: id,
        op,
        payload,
        enqueued_at: now,
        attempt_count: 0,
        last_error: None,
    }
}

/// The queue after a mutation of entity (`t`, `id`) is recorded: repeated
/// edits of one entity coalesce into the latest payload in the entry's
/// original queue position (insertion order is preserved, duplicates are
/// never queued); a new entity appends at the back.
pub open spec fn coalesced(
    queue: Seq<SyncQueueEntry>,
    t: Table,
    id: u64,
    op: Operation,
    payload: String,
    now: i64,
) -> Seq<SyncQueueEntry> {
    if has_entry(queue, t, id) {
        let i = entry_at(queue, t, id);
        match combine_op(queue[i].op, op) {
            None => queue.remove(i),
            Some(c) => queue.update(
                i,
                SyncQueueEntry {
                    table: t,
                    entity_id: id,
                    op: c,
                    payload,
                    enqueued_at: queue[i].enqueued_at,
                    attempt_count: 0,
                    last_error: None,
                },
            ),
        }
    } else {
        queue.push(fresh_entry(t, id, op, payload, now))
    }
}

/// The queue carries the last local write: after a mutation of an entity is
/// recorded, the queue's entry for that entity holds exactly that latest
/// payload, in the entity's original queue position — so a drain that pushes
/// the queue sends, per entity, the last local write. The one exception is a
/// creation undone before it was pushed, whose entry is dropped entirely.
pub proof fn lemma_queue_carries_latest_write(
    queue: Seq<SyncQueueEntry>,
    t: Table,
    id: u64,
    op: Operation,
    payload: String,
    now: i64,
)
    requires
        queue_unique(queue),
        has_entry(queue, t, id) ==> !(combine_op(queue[entry_at(queue, t, id)].op, op) is None),
    ensures
        ({
            let q2 = coalesced(queue, t, id, op, payload, now);
            &&& has_entry(q2, t, id)
            &&& q2[entry_at(q2, t, id)].payload == payload
        }),
{
    let q2 = coalesced(queue, t, id, op, payload, now);
    if has_entry(queue, t, id) {
        let i = entry_at(queue, t, id);
        assert(0 <= i < queue.len() && is_entry(queue[i], t, id));
        match combine_op(queue[i].op, op) {
            None => {},
            Some(c) => {
                lemma_queue_unique_update(queue, i, q2[i]);
                lemma_entry_at_is(q2, t, id, i);
            },
        }
    } else {
        lemma_queue_unique_push(queue, q2.last(), t, id);
        lemma_entry_at_is(q2, t, id, queue.len() as int);
    }
}

/// The index of the record of entity (`t`, `id`), if one exists.
pub(crate) fn find_record(records: &Vec<LocalRecord>, t: Table, id: u64) -> (r: Option<usize>)
    ensures
        match r {
            Some(i) => i < records@.len() && is_record(records@[i as int], t, id),
            None => !has_record(records@, t, id),
        },
{
    let mut i: usize = 0;
    while i < records.len()
        invariant
            i <= records@.len(),
            forall|k: int| 0 <= k < i ==> !is_record(#[trigger] records@[k], t, id),
        decreases records@.len() - i,
    {
        if records[i].table == t && records[i].id == id {
            return Some(i);
        }
        i = i + 1;
    }
    None
}

/// The index of the queue entry of entity (`t`, `id`), if one exists.
pub(crate) fn find_entry(queue: &Vec<SyncQueueEntry>, t: Table, id: u64) -> (r: Option<usize>)
    ensures
        match r {
            Some(i) => i < queue@.len() && is_entry(queue@[i as int], t, id),
            None => !has_entry(queue@, t, id),
        },
{
    let mut i: usize = 0;
    while i < queue.len()
        invariant
            i <= queue@.len(),
            forall|k: int| 0 <= k < i ==> !is_entry(#[trigger] queue@[k], t, id),
        decreases queue@.len() - i,
    {
        if queue[i].table == t && queue[i].entity_id == id {
            return Some(i);
        }
        i = i + 1;
    }
    None
}

impl Store {
    /// Records one pending outbound mutation, coalescing with any entry
    /// already queued for the same entity. Touches nothing but the queue.
    fn coalesce_enqueue(&mut self, t: Table, id: u64, op: Operation, payload: String, now: i64)
        requires
            old(self).inv(),
        ensures
            final(self).inv(),
            final(self).queue@ == coalesced(old(self).queue@, t, id, op, payload, now),
            final(self).records@ == old(self).records@,
            final(self).dead_letters@ == old(self).dead_letters@,
            final(self).conflicts@ == old(self).conflicts@,
            final(self).cursor == old(self).cursor,
            final(self).initialized == old(self).initialized,
            final(self).schema_version == old(self).schema_version,
    {
        match find_entry(&self.queue, t, id) {
            Some(i) => {
                proof {
                    lemma_entry_at_is(self.queue@, t, id, i as int);
                }
                let existing = self.queue.remove(i);
                let merged: Option<Operation> = match (existing.op, op) {
                    (Operation::Create, Operation::Delete) => None,
                    (Operation::Create, _) => Some(Operation::Create),
                    (Operation::Delete, Operation::Create) => Some(Operation::Update),
                    (Operation::Delete, other) => Some(other),
                    (Operation::Update, other) => Some(other),
                };
                match merged {
                    None => {
                        proof {
                            lemma_queue_unique_remove(old(self).queue@, i as int);
                        }
                    },
                    Some(c) => {
                        let updated = SyncQueueEntry {
                            table: t,
                            entity_id: id,
                            op: c,
                            payload,
                            enqueued_at: existing.enqueued_at,
                            attempt_count: 0,
                            last_error: None,
                        };
                        self.queue.insert(i, updated);
                        proof {
                            assert(final(self).queue@ =~= old(self).queue@.update(
                                i as int,
                                final(self).queue@[i as int],
                            ));
                            lemma_queue_unique_update(
                                old(self).queue@,
                                i as int,
                                final(self).queue@[i as int],
                            );
                        }
                    },
                }
            },
            None => {
                self.queue.push(
                    SyncQueueEntry {
                        table: t,
                        entity_id: id,
                        op,
                        payload,
                        enqueued_at: now,
                        attempt_count: 0,
                        last_error: None,
                    },
                );
                proof {
                    lemma_queue_unique_push(old(self).queue@, final(self).queue@.last(), t, id);
                }
            },
        }
    }
}

/// A constrained, parameterized query: a tagged descriptor instead of
/// free-form text, so no injection is possible and the shape is statically
/// validated.
pub enum QueryDescriptor {
    /// All rows of a table, in storage order.
    SelectAll { table: Table },
    /// The row of one entity, if present.
    SelectById { table: Table, id: u64 },
    /// A new row; fails on a duplicate primary key.
    Insert { table: Table, id: u64, payload: String },
    /// A new payload for an existing row; fails if the row is absent.
    Update { table: Table, id: u64, payload: String },
    /// Removal of an existing row; fails if the row is absent.
    Delete { table: Table, id: u64 },
}

/// Appending to a sequence extends its filtered image by the new element
/// exactly when the element satisfies the predicate.
pub(crate) proof fn lemma_filter_push<A>(s: Seq<A>, x: A, p: spec_fn(A) -> bool)
    ensures
        s.push(x).filter(p) == if p(x) {
            s.filter(p).push(x)
        } else {
            s.filter(p)
        },
{
    reveal(Seq::filter);
    assert(s.push(x).drop_last() =~= s);
    assert(s.push(x).last() == x);
}

/// The filtered-and-mapped image of a sequence grows by the mapped element
/// exactly when the appended element satisfies the predicate.
pub(crate) proof fn lemma_filter_map_push<A, B>(
    s: Seq<A>,
    x: A,
    p: spec_fn(A) -> bool,
    f: spec_fn(A) -> B,
)
    ensures
        s.push(x).filter(p).map_values(f) == if p(x) {
            s.filter(p).map_values(f).push(f(x))
        } else {
            s.filter(p).map_values(f)
        },
{
    lemma_filter_push(s, x, p);
    if p(x) {
        assert(s.filter(p).push(x).map_values(f) =~= s.filter(p).map_values(f).push(f(x)));
    }
}

impl Store {
    /// All rows of `table`, cloned in storage order.
    fn select_all(&self, table: Table) -> (rows: Vec<LocalRecord>)
        ensures
            rows@ == self.records@.filter(|rec: LocalRecord| rec.table == table),
    {
        let ghost p = |rec: LocalRecord| rec.table == table;
        let mut rows: Vec<LocalRecord> = Vec::new();
        proof {
            assert(self.records@.subrange(0, 0) =~= Seq::<LocalRecord>::empty());
            reveal(Seq::filter);
        }
        let mut i: usize = 0;
        while i < self.records.len()
            invariant
                i <= self.records@.len(),
                p == (|rec: LocalRecord| rec.table == table),
                rows@ == self.records@.subrange(0, i as int).filter(p),
            decreases self.records@.len() - i,
        {
            proof {
                lemma_filter_push(self.records@.subrange(0, i as int), self.records@[i as int], p);
                assert(self.records@.subrange(0, i as int).push(self.records@[i as int])
                    =~= self.records@.subrange(0, i as int + 1));
            }
            if self.records[i].table == table {
                rows.push(self.records[i].clone());
            }
            i = i + 1;
        }
        proof {
            assert(self.records@.subrange(0, self.records@.len() as int) =~= self.records@);
        }
        rows
    }

    /// The row of entity (`table`, `id`) alone, or no rows: an absent row is
    /// an empty result, not an error.
    fn select_by_id(&self, table: Table, id: u64) -> (rows: Vec<LocalRecord>)
        requires
            self.inv(),
        ensures
            has_record(self.records@, table, id) ==> rows@ =~= seq![
                self.records@[record_at(self.records@, table, id)],
            ],
            !has_record(self.records@, table, id) ==> rows@ =~= Seq::<LocalRecord>::empty(),
    {
        let mut rows: Vec<LocalRecord> = Vec::new();
        match find_record(&self.records, table, id) {
            Some(i) => {
                proof {
                    lemma_record_at_is(self.records@, table, id, i as int);
                }
                rows.push(self.records[i].clone());
            },
            None => {},
        }
        rows
    }

    /// Inserts a new row and, in the same transaction, queues the create for
    /// sync (write-ahead coupling).
    fn insert_row(&mut self, table: Table, id: u64, payload: String, now: i64) -> (r: Result<
        (),
        QueryError,
    >)
        requires
            old(self).inv(),
        ensures
            final(self).inv(),
            r is Ok <==> !has_record(old(self).records@, table, id),
            r is Err ==> *final(self) == *old(self) && r == Err::<(), QueryError>(
                QueryError::Constraint,
            ),
            r is Ok ==> final(self).records@ == old(self).records@.push(
                LocalRecord { table, id, revision: 1, updated_at: now, payload },
            ) && final(self).queue@ == coalesced(
                old(self).queue@,
                table,
                id,
                Operation::Create,
                payload,
                now,
            ),
            final(self).dead_letters@ == old(self).dead_letters@,
            final(self).conflicts@ == old(self).conflicts@,
            final(self).cursor == old(self).cursor,
            final(self).initialized == old(self).initialized,
            final(self).schema_version == old(self).schema_version,
    {
        match find_record(&self.records, table, id) {
            Some(_) => Err(QueryError::Constraint),
            None => {
                let rec = LocalRecord { table, id, revision: 1, updated_at: now, payload: payload.clone() };
                self.records.push(rec);
                proof {
                    lemma_records_unique_push(
                        old(self).records@,
                        self.records@.last(),
                        table,
                        id,
                    );
                }
                self.coalesce_enqueue(table, id, Operation::Create, payload, now);
                Ok(())
            },
        }
    }

    /// Replaces the payload of an existing row, advancing its revision, and,
    /// in the same transaction, queues the update for sync.
    fn update_row(&mut self, table: Table, id: u64, payload: String, now: i64) -> (r: Result<
        (),
        QueryError,
    >)
        requires
            old(self).inv(),
        ensures
            final(self).inv(),
            r is Ok <==> has_record(old(self).records@, table, id) && old(self).records@[record_at(
                old(self).records@,
                table,
                id,
            )].revision < u64::MAX,
            r is Err ==> *final(self) == *old(self),
            r is Err ==> r == Err::<(), QueryError>(
                if has_record(old(self).records@, table, id) {
                    QueryError::Constraint
                } else {
                    QueryError::NotFound
                },
            ),
            r is Ok ==> ({
                let i = record_at(old(self).records@, table, id);
                let prev = old(self).records@[i];
                final(self).records@ == old(self).records@.update(
                    i,
                    LocalRecord {
                        table,
                        id,
                        revision: (prev.revision + 1) as u64,
                        updated_at: now,
                        payload,
                    },
                ) && final(self).queue@ == coalesced(
                    old(self).queue@,
                    table,
                    id,
                    Operation::Update,
                    payload,
                    now,
                )
            }),
            final(self).dead_letters@ == old(self).dead_letters@,
            final(self).conflicts@ == old(self).conflicts@,
            final(self).cursor == old(self).cursor,
            final(self).initialized == old(self).initialized,
            final(self).schema_version == old(self).schema_version,
    {
        match find_record(&self.records, table, id) {
            None => Err(QueryError::NotFound),
            Some(i) => {
                proof {
                    lemma_record_at_is(self.records@, table, id, i as int);
                }
                if self.records[i].revision == u64::MAX {
                    return Err(QueryError::Constraint);
                }
                let prev = self.records.remove(i);
                let rec = LocalRecord {
                    table,
                    id,
                    revision: prev.revision + 1,
                    updated_at: now,
                    payload: payload.clone(),
                };
                self.records.insert(i, rec);
                proof {
                    assert(self.records@ =~= old(self).records@.update(
                        i as int,
                        self.records@[i as int],
                    ));
                    lemma_records_unique_update(
                        old(self).records@,
                        i as int,
                        self.records@[i as int],
                    );
                }
                self.coalesce_enqueue(table, id, Operation::Update, payload, now);
                Ok(())
            },
        }
    }

    /// Removes an existing row and, in the same transaction, queues the
    /// delete for sync.
    fn delete_row(&mut self, table: Table, id: u64, now: i64) -> (r: Result<(), QueryError>)
        requires
            old(self).inv(),
        ensures
            final(self).inv(),
            r is Ok <==> has_record(old(self).records@, table, id),
            r is Err ==> *final(self) == *old(self) && r == Err::<(), QueryError>(
                QueryError::NotFound,
            ),
            r is Ok ==> ({
                let i = record_at(old(self).records@, table, id);
                final(self).records@ == old(self).records@.remove(i) && final(self).queue@
                    == coalesced(
                    old(self).queue@,
                    table,
                    id,
                    Operation::Delete,
                    old(self).records@[i].payload,
                    now,
                )
            }),
            final(self).dead_letters@ == old(self).dead_letters@,
            final(self).conflicts@ == old(self).conflicts@,
            final(self).cursor == old(self).cursor,
            final(self).initialized == old(self).initialized,
            final(self).schema_version == old(self).schema_version,
    {
        match find_record(&self.records, table, id) {
            None => Err(QueryError::NotFound),
            Some(i) => {
                proof {
                    lemma_record_at_is(self.records@, table, id, i as int);
                }
                let prev = self.records.remove(i);
                proof {
                    lemma_records_unique_remove(old(self).records@, i as int);
                }
                self.coalesce_enqueue(table, id, Operation::Delete, prev.payload, now);
                Ok(())
            },
        }
    }

    /// Executes one constrained query as one transaction: reads return the
    /// addressed rows and change nothing; every successful mutation also
    /// queues its sync entry before returning (write-ahead coupling), so no
    /// committed local change can miss the queue. The in-memory model never
    /// fails with `QueryError::Io`; that variant is produced only where a
    /// storage engine's own input/output failure is mapped at the boundary.
    pub fn execute(&mut self, q: QueryDescriptor, now: i64) -> (r: Result<
        Vec<LocalRecord>,
        QueryError,
    >)
        requires
            old(self).inv(),
        ensures
            final(self).inv(),
            final(self).dead_letters@ == old(self).dead_letters@,
            final(self).conflicts@ == old(self).conflicts@,
            final(self).cursor == old(self).cursor,
            final(self).initialized == old(self).initialized,
            final(self).schema_version == old(self).schema_version,
            (q is SelectAll || q is SelectById) ==> *final(self) == *old(self) && r is Ok,
            q matches QueryDescriptor::SelectAll { table } ==> r matches Ok(rows) && rows@
                == old(self).records@.filter(|rec: LocalRecord| rec.table == table),
            q matches QueryDescriptor::SelectById { table, id } ==> r matches Ok(rows) && rows@
                == if has_record(old(self).records@, table, id) {
                seq![old(self).records@[record_at(old(self).records@, table, id)]]
            } else {
                Seq::<LocalRecord>::empty()
            },
            q matches QueryDescriptor::Insert { table, id, payload } ==> {
                &&& r is Ok <==> !has_record(old(self).records@, table, id)
                &&& r is Err ==> *final(self) == *old(self) && r == Err::<
                    Vec<LocalRecord>,
                    QueryError,
                >(QueryError::Constraint)
                &&& r matches Ok(rows) ==> rows@ == Seq::<LocalRecord>::empty() && final(self).records@ == old(self).records@.push(
                    LocalRecord { table, id, revision: 1, updated_at: now, payload },
                ) && final(self).queue@ == coalesced(
                    old(self).queue@,
                    table,
                    id,
                    Operation::Create,
                    payload,
                    now,
                )
            },
            q matches QueryDescriptor::Update { table, id, payload } ==> {
                &&& r is Ok <==> has_record(old(self).records@, table, id) && old(self).records@[record_at(old(self).records@, table, id)].revision < u64::MAX
                &&& r is Err ==> *final(self) == *old(self) && r == Err::<
                    Vec<LocalRecord>,
                    QueryError,
                >(
                    if has_record(old(self).records@, table, id) {
                        QueryError::Constraint
                    } else {
                        QueryError::NotFound
                    },
                )
                &&& r matches Ok(rows) ==> ({
                    let i = record_at(old(self).records@, table, id);
                    let prev = old(self).records@[i];
                    rows@ == Seq::<LocalRecord>::empty() && final(self).records@ == old(self).records@.update(
                        i,
                        LocalRecord {
                            table,
                            id,
                            revision: (prev.revision + 1) as u64,
                            updated_at: now,
                            payload,
                        },
                    ) && final(self).queue@ == coalesced(
                        old(self).queue@,
                        table,
                        id,
                        Operation::Update,
                        payload,
                        now,
                    )
                })
            },
            q matches QueryDescriptor::Delete { table, id } ==> {
                &&& r is Ok <==> has_record(old(self).records@, table, id)
                &&& r is Err ==> *final(self) == *old(self) && r == Err::<
                    Vec<LocalRecord>,
                    QueryError,
                >(QueryError::NotFound)
                &&& r matches Ok(rows) ==> ({
                    let i = record_at(old(self).records@, table, id);
                    rows@ == Seq::<LocalRecord>::empty() && final(self).records@ == old(self).records@.remove(i) && final(self).queue@ == coalesced(
                        old(self).queue@,
                        table,
                        id,
                        Operation::Delete,
                        old(self).records@[i].payload,
                        now,
                    )
                })
            },
            r is Err ==> *final(self) == *old(self),
    {
        match q {
            QueryDescriptor::SelectAll { table } => Ok(self.select_all(table)),
            QueryDescriptor::SelectById { table, id } => Ok(self.select_by_id(table, id)),
            QueryDescriptor::Insert { table, id, payload } => match self.insert_row(
                table,
                id,
                payload,
                now,
            ) {
                Ok(()) => Ok(Vec::new()),
                Err(e) => Err(e),
            },
            QueryDescriptor::Update { table, id, payload } => match self.update_row(
                table,
                id,
                payload,
                now,
            ) {
                Ok(()) => Ok(Vec::new()),
                Err(e) => Err(e),
            },
            QueryDescriptor::Delete { table, id } => match self.delete_row(table, id, now) {
                Ok(()) => Ok(Vec::new()),
                Err(e) => Err(e),
            },
        }
    }
}

/// Removing a record keeps the records' entities unique.
pub(crate) proof fn lemma_records_unique_remove(records: Seq<LocalRecord>, i: int)
    requires
        records_unique(records),
        0 <= i < records.len(),
    ensures
        records_unique(records.remove(i)),
{
}

/// Replacing a record with one addressing the same entity keeps the records'
/// entities unique.
pub(crate) proof fn lemma_records_unique_update(records: Seq<LocalRecord>, i: int, r: LocalRecord)
    requires
        records_unique(records),
        0 <= i < records.len(),
        r.table == records[i].table,
        r.id == records[i].id,
    ensures
        records_unique(records.update(i, r)),
{
}

/// Appending a record for an entity with no row keeps the records' entities
/// unique.
pub(crate) proof fn lemma_records_unique_push(records: Seq<LocalRecord>, r: LocalRecord, t: Table, id: u64)
    requires
        records_unique(records),
        !has_record(records, t, id),
        is_record(r, t, id),
    ensures
        records_unique(records.push(r)),
{
    let r2 = records.push(r);
    assert forall|i: int, j: int|
        #![trigger r2[i], r2[j]]
        0 <= i < j < r2.len() implies !(r2[i].table == r2[j].table && r2[i].id == r2[j].id) by {
        if j == records.len() as int {
            assert(r2[i] == records[i]);
            if r2[i].table == t && r2[i].id == id {
                assert(is_record(records[i], t, id));
            }
        } else {
            assert(r2[i] == records[i] && r2[j] == records[j]);
        }
    }
}

/// Removing an entry keeps the queue's entities unique.
pub(crate) proof fn lemma_queue_unique_remove(queue: Seq<SyncQueueEntry>, i: int)
    requires
        queue_unique(queue),
        0 <= i < queue.len(),
    ensures
        queue_unique(queue.remove(i)),
{
}

/// Replacing an entry with one addressing the same entity keeps the queue's
/// entities unique.
pub(crate) proof fn lemma_queue_unique_update(queue: Seq<SyncQueueEntry>, i: int, e: SyncQueueEntry)
    requires
        queue_unique(queue),
        0 <= i < queue.len(),
        e.table == queue[i].table,
        e.entity_id == queue[i].entity_id,
    ensures
        queue_unique(queue.update(i, e)),
{
}

/// Appending an entry for an entity with no queued entry keeps the queue's
/// entities unique.
pub(crate) proof fn lemma_queue_unique_push(
    queue: Seq<SyncQueueEntry>,
    e: SyncQueueEntry,
    t: Table,
    id: u64,
)
    requires
        queue_unique(queue),
        !has_entry(queue, t, id),
        is_entry(e, t, id),
    ensures
        queue_unique(queue.push(e)),
{
    let q2 = queue.push(e);
    assert forall|i: int, j: int|
        #![trigger q2[i], q2[j]]
        0 <= i < j < q2.len() implies !(q2[i].table == q2[j].table && q2[i].entity_id
        == q2[j].entity_id) by {
        if j == queue.len() as int {
            assert(q2[i] == queue[i]);
            if q2[i].table == t && q2[i].entity_id == id {
                assert(is_entry(queue[i], t, id));
            }
        } else {
            assert(q2[i] == queue[i] && q2[j] == queue[j]);
        }
    }
}

} // verus!
