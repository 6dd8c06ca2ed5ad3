//! Structured result envelopes for the boundary operations exposed to the
//! application shell. No internal error object crosses the boundary raw:
//! each operation reports a status and, on failure, an error kind the shell
//! can turn into an actionable message.

use vstd::prelude::*;

use crate::errors::QueryError;
use crate::store::LocalRecord;
use crate::store::QueryDescriptor;
use crate::store::Store;

verus! {

/// Whether a boundary operation succeeded.
#[derive(Clone, Copy, Debug, PartialEq, Eq, Structural)]
pub enum Status {
    Success,
    Error,
}

/// The result envelope of a query: on success the ordered rows, on failure
/// the error kind.
pub struct QueryOutcome {
    pub status: Status,
    pub rows: Vec<LocalRecord>,
    pub error: Option<QueryError>,
}

/// Wraps a query result into its envelope: a success carries the rows and
/// no error, a failure carries no rows and exactly the error.
pub fn query_outcome(r: Result<Vec<LocalRecord>, QueryError>) -> (out: QueryOutcome)
    ensures
        r matches Ok(rows) ==> out.status == Status::Success && out.rows == rows
            && out.error is None,
        r matches Err(e) ==> out.status == Status::Error && out.rows@ == Seq::<
            LocalRecord,
        >::empty() && out.error == Some(e),
{
    match r {
        Ok(rows) => QueryOutcome { status: Status::Success, rows, error: None },
        Err(e) => QueryOutcome { status: Status::Error, rows: Vec::new(), error: Some(e) },
    }
}

/// The result envelope of a content fetch: the identifier asked for and, on
/// success, where the finished file lives.
pub struct FetchOutcome {
    pub status: Status,
    pub content_id: String,
    pub local_path: Option<String>,
    pub error: Option<crate::errors::FetchError>,
}

/// Wraps a fetch result into its envelope: a success carries the local path
/// and no error, a failure carries no path and exactly the error.
pub fn fetch_outcome(content_id: String, r: Result<String, crate::errors::FetchError>) -> (out:
    FetchOutcome)
    ensures
        out.content_id == content_id,
        r matches Ok(p) ==> out.status == Status::Success && out.local_path == Some(p)
            && out.error is None,
        r matches Err(e) ==> out.status == Status::Error && out.local_path is None && out.error
            == Some(e),
{
    match r {
        Ok(p) => FetchOutcome {
            status: Status::Success,
            content_id,
            local_path: Some(p),
            error: None,
        },
        Err(e) => FetchOutcome { status: Status::Error, content_id, local_path: None, error: Some(e) },
    }
}

/// Executes one constrained query and wraps the result for the shell. A
/// select that finds nothing is a success with no rows, not an error; a
/// mutation succeeds exactly under `Store::execute`'s law, and then the
/// store holds the mutated rows with the sync entry coalesced into the
/// queue in the same transaction.
pub fn execute_query(store: &mut Store, q: QueryDescriptor, now: i64) -> (out: QueryOutcome)
    requires
        old(store).inv(),
    ensures
        final(store).inv(),
        out.status == Status::Success <==> out.error is None,
        final(store).dead_letters@ == old(store).dead_letters@,
        final(store).conflicts@ == old(store).conflicts@,
        final(store).cursor == old(store).cursor,
        final(store).initialized == old(store).initialized,
        final(store).schema_version == old(store).schema_version,
        (q is SelectAll || q is SelectById) ==> *final(store) == *old(store) && out.status
            == Status::Success,
        q matches QueryDescriptor::SelectAll { table } ==> out.rows@ == old(
            store,
        ).records@.filter(|rec: LocalRecord| rec.table == table),
        q matches QueryDescriptor::SelectById { table, id } ==> out.rows@
            == if crate::store::has_record(old(store).records@, table, id) {
            seq![
                old(store).records@[crate::store::record_at(old(store).records@, table, id)],
            ]
        } else {
            Seq::<LocalRecord>::empty()
        },
        q matches QueryDescriptor::Insert { table, id, payload } ==> {
            &&& out.status == Status::Success <==> !crate::store::has_record(
                old(store).records@,
                table,
                id,
            )
            &&& out.status == Status::Error ==> out.error == Some(QueryError::Constraint)
            &&& out.status == Status::Success ==> out.rows@ == Seq::<LocalRecord>::empty()
                && final(store).records@ == old(store).records@.push(
                LocalRecord { table, id, revision: 1, updated_at: now, payload },
            ) && final(store).queue@ == crate::store::coalesced(
                old(store).queue@,
                table,
                id,
                crate::store::Operation::Create,
                payload,
                now,
            )
        },
        q matches QueryDescriptor::Update { table, id, payload } ==> {
            &&& out.status == Status::Success <==> crate::store::has_record(
                old(store).records@,
                table,
                id,
            ) && old(store).records@[crate::store::record_at(
                old(store).records@,
                table,
                id,
            )].revision < u64::MAX
            &&& out.status == Status::Error ==> out.error == Some(
                if crate::store::has_record(old(store).records@, table, id) {
                    QueryError::Constraint
                } else {
                    QueryError::NotFound
                },
            )
            &&& out.status == Status::Success ==> ({
                let i = crate::store::record_at(old(store).records@, table, id);
                let prev = old(store).records@[i];
                out.rows@ == Seq::<LocalRecord>::empty() && final(store).records@ == old(
                    store,
                ).records@.update(
                    i,
                    LocalRecord {
                        table,
                        id,
                        revision: (prev.revision + 1) as u64,
                        updated_at: now,
                        payload,
                    },
                ) && final(store).queue@ == crate::store::coalesced(
                    old(store).queue@,
                    table,
                    id,
                    crate::store::Operation::Update,
                    payload,
                    now,
                )
            })
        },
        q matches QueryDescriptor::Delete { table, id } ==> {
            &&& out.status == Status::Success <==> crate::store::has_record(
                old(store).records@,
                table,
                id,
            )
            &&& out.status == Status::Error ==> out.error == Some(QueryError::NotFound)
            &&& out.status == Status::Success ==> ({
                let i = crate::store::record_at(old(store).records@, table, id);
                out.rows@ == Seq::<LocalRecord>::empty() && final(store).records@ == old(
                    store,
                ).records@.remove(i) && final(store).queue@ == crate::store::coalesced(
                    old(store).queue@,
                    table,
                    id,
                    crate::store::Operation::Delete,
                    old(store).records@[i].payload,
                    now,
                )
            })
        },
        out.status == Status::Error ==> *final(store) == *old(store) && out.rows@ == Seq::<
            LocalRecord,
        >::empty(),
{
    query_outcome(store.execute(q, now))
}

} // verus!
