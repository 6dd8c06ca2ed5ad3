//! Sync engine: drains the durable queue of pending local mutations
//! oldest-first, applies remote changes locally, resolves conflicts by
//! last-writer-wins (the remote version takes precedence on a timestamp
//! tie), and schedules bounded exponential backoff on transient failure.
//!
//! The engine decides; it performs no network transfer itself. The caller
//! performs each remote call and hands the outcome back as a plain value, so
//! every decision here is verified for every outcome the remote can produce.

use vstd::prelude::*;

use crate::errors::SyncErrorKind;
use crate::store::ConflictRecord;
use crate::store::LocalRecord;
use crate::store::Store;
use crate::store::SyncCursor;
use crate::store::SyncQueueEntry;
use crate::store::Table;
use crate::store::has_entry;
use crate::store::has_record;
use crate::store::lemma_record_at_is;
use crate::store::record_at;

verus! {

/// Two to the power `n`.
pub open spec fn pow2(n: nat) -> nat
    decreases n,
{
    if n == 0 {
        1
    } else {
        2 * pow2((n - 1) as nat)
    }
}

/// The backoff delay before retry `attempt`: the base delay doubled per
/// attempt, capped.
pub open spec fn spec_backoff(base: nat, attempt: nat, cap: nat) -> nat {
    if base * pow2(attempt) > cap {
        cap
    } else {
        base * pow2(attempt)
    }
}

/// Doubling never shrinks a power of two.
proof fn lemma_pow2_mono(i: nat, j: nat)
    requires
        i <= j,
    ensures
        pow2(i) <= pow2(j),
    decreases j - i,
{
    if i < j {
        lemma_pow2_mono(i, (j - 1) as nat);
        assert(pow2(j) == 2 * pow2((j - 1) as nat));
    }
}

/// Once the doubled delay reaches the cap it stays there for every later
/// attempt.
proof fn lemma_backoff_saturated(base: nat, i: nat, attempt: nat, cap: nat)
    requires
        i <= attempt,
        base * pow2(i) >= cap,
    ensures
        spec_backoff(base, attempt, cap) == cap,
{
    lemma_pow2_mono(i, attempt);
    assert(base * pow2(attempt) >= base * pow2(i)) by (nonlinear_arith)
        requires
            pow2(attempt) >= pow2(i),
    ;
}

/// The delay in milliseconds before the given retry attempt: the base delay
/// times two to the attempt count, capped at `cap_ms`.
pub fn backoff_delay(base_ms: u64, attempt: u64, cap_ms: u64) -> (r: u64)
    ensures
        r as nat == spec_backoff(base_ms as nat, attempt as nat, cap_ms as nat),
{
    if base_ms == 0 {
        return 0;
    }
    let mut d: u64 = if base_ms > cap_ms {
        cap_ms
    } else {
        base_ms
    };
    let mut i: u64 = 0;
    proof {
        assert(pow2(0) == 1);
        assert(base_ms as nat * pow2(0) == base_ms as nat);
    }
    while i < attempt
        invariant
            i <= attempt,
            d <= cap_ms,
            d as nat == spec_backoff(base_ms as nat, i as nat, cap_ms as nat),
        decreases attempt - i,
    {
        if d >= cap_ms {
            proof {
                lemma_backoff_saturated(base_ms as nat, i as nat, attempt as nat, cap_ms as nat);
            }
            return cap_ms;
        }
        proof {
            assert(pow2((i + 1) as nat) == 2 * pow2(i as nat));
            assert(base_ms as nat * pow2((i + 1) as nat) == 2 * (base_ms as nat * pow2(
                i as nat,
            ))) by (nonlinear_arith)
                requires
                    pow2((i + 1) as nat) == 2 * pow2(i as nat),
            ;
            assert(base_ms as nat * pow2(i as nat) >= 0);
        }
        if d > cap_ms / 2 {
            d = cap_ms;
        } else {
            d = d * 2;
        }
        i = i + 1;
    }
    d
}

/// What the remote service answered to one pushed mutation.
pub enum PushOutcome {
    /// The mutation was accepted.
    Ack,
    /// The remote holds a different version of the same entity.
    Conflict { remote_revision: u64, remote_updated_at: i64, remote_payload: String },
    /// A transient network or server failure; the entry stays queued.
    TransientFailure,
}

impl Clone for PushOutcome {
    fn clone(&self) -> (r: Self)
        ensures
            r == *self,
    {
        match self {
            PushOutcome::Ack => PushOutcome::Ack,
            PushOutcome::Conflict { remote_revision, remote_updated_at, remote_payload } => (
            PushOutcome::Conflict {
                remote_revision: *remote_revision,
                remote_updated_at: *remote_updated_at,
                remote_payload: remote_payload.clone(),
            }),
            PushOutcome::TransientFailure => PushOutcome::TransientFailure,
        }
    }
}

/// One remote change pulled from the service.
pub enum RemoteChange {
    /// A remote row version to apply locally as an upsert.
    Upsert { table: Table, id: u64, revision: u64, updated_at: i64, payload: String, watermark: i64 },
    /// A remote deletion to apply locally.
    Delete { table: Table, id: u64, watermark: i64 },
}

/// The revision an entity takes when a remote version lands on it: the
/// remote revision where that moves forward, else the local revision
/// advanced by one (saturating at the largest representable revision).
pub open spec fn bumped_revision(local: u64, remote: u64) -> u64 {
    if remote > local {
        remote
    } else if local < u64::MAX {
        (local + 1) as u64
    } else {
        local
    }
}

/// The conflict audit record for a local change to (`t`, `id`) that lost
/// against a remote version.
pub open spec fn spec_conflict_record(
    records: Seq<LocalRecord>,
    e: SyncQueueEntry,
    remote_payload: String,
    remote_updated_at: i64,
) -> ConflictRecord {
    ConflictRecord {
        table: e.table,
        entity_id: e.entity_id,
        discarded_payload: e.payload,
        discarded_revision: if has_record(records, e.table, e.entity_id) {
            records[record_at(records, e.table, e.entity_id)].revision
        } else {
            0
        },
        discarded_updated_at: e.enqueued_at,
        winning_payload: remote_payload,
        winning_updated_at: remote_updated_at,
    }
}

/// The records after a remote version of entity (`t`, `id`) is applied
/// locally: the existing row is replaced (its revision still advancing), an
/// absent row is created.
pub open spec fn upserted(
    records: Seq<LocalRecord>,
    t: Table,
    id: u64,
    revision: u64,
    updated_at: i64,
    payload: String,
) -> Seq<LocalRecord> {
    if has_record(records, t, id) {
        let i = record_at(records, t, id);
        records.update(
            i,
            LocalRecord {
                table: t,
                id,
                revision: bumped_revision(records[i].revision, revision),
                updated_at,
                payload,
            },
        )
    } else {
        records.push(
            LocalRecord {
                table: t,
                id,
                revision: if revision >= 1 {
                    revision
                } else {
                    1
                },
                updated_at,
                payload,
            },
        )
    }
}

/// What one push step decided.
pub enum PushStep {
    /// The remote acknowledged; the entry left the queue.
    Acked(SyncQueueEntry),
    /// The remote version was as new or newer: the local change was
    /// discarded, recorded for audit, and the remote version applied.
    RemoteWon(ConflictRecord),
    /// The local change is newer than the conflicting remote version; it
    /// stays queued and the pass stops pushing.
    LocalNewerRetained,
    /// Transient failure: the entry stays queued with its attempt count
    /// advanced, and the pass stops pushing until the given backoff.
    Backoff { attempt_count: u64 },
    /// The entry exhausted its attempts: moved out of the queue, surfaced
    /// as terminally failed, never retried again.
    Terminal(SyncQueueEntry),
}

impl Store {
    /// Replaces or creates the row of one entity with a remote version.
    fn upsert_remote(&mut self, t: Table, id: u64, revision: u64, updated_at: i64, payload: String)
        requires
            old(self).inv(),
        ensures
            final(self).inv(),
            final(self).records@ == upserted(
                old(self).records@,
                t,
                id,
                revision,
                updated_at,
                payload,
            ),
            final(self).queue@ == old(self).queue@,
            final(self).dead_letters@ == old(self).dead_letters@,
            final(self).conflicts@ == old(self).conflicts@,
            final(self).cursor == old(self).cursor,
            final(self).initialized == old(self).initialized,
            final(self).schema_version == old(self).schema_version,
    {
        match crate::store::find_record(&self.records, t, id) {
            Some(i) => {
                proof {
                    lemma_record_at_is(self.records@, t, id, i as int);
                }
                let local_rev = self.records[i].revision;
                let new_rev: u64 = if revision > local_rev {
                    revision
                } else if local_rev < u64::MAX {
                    local_rev + 1
                } else {
                    local_rev
                };
                let rec = LocalRecord { table: t, id, revision: new_rev, updated_at, payload };
                let _ = self.records.remove(i);
                self.records.insert(i, rec);
                proof {
                    assert(self.records@ =~= old(self).records@.update(
                        i as int,
                        self.records@[i as int],
                    ));
                    crate::store::lemma_records_unique_update(
                        old(self).records@,
                        i as int,
                        self.records@[i as int],
                    );
                }
            },
            None => {
                let rec = LocalRecord {
                    table: t,
                    id,
                    revision: if revision >= 1 {
                        revision
                    } else {
                        1
                    },
                    updated_at,
                    payload,
                };
                self.records.push(rec);
                proof {
                    crate::store::lemma_records_unique_push(
                        old(self).records@,
                        self.records@.last(),
                        t,
                        id,
                    );
                }
            },
        }
    }
}

impl Store {
    /// Pushes the oldest queued mutation: the caller has sent it to the
    /// remote service and hands in the outcome; this step applies the
    /// decision. An acknowledged entry leaves the queue, and that departure
    /// is the entity's local revision marker advancing: the row's revision
    /// already moved at the local write, and once nothing of the entity
    /// remains queued, every revision up to the row's is pushed. Conflicts
    /// resolve last-writer-wins by timestamp, the remote version taking
    /// precedence on a tie, and a losing local change is recorded for audit,
    /// never silently dropped.
    pub fn push_step(&mut self, outcome: PushOutcome, max_attempts: u64) -> (r: PushStep)
        requires
            old(self).inv(),
            old(self).queue@.len() > 0,
        ensures
            final(self).inv(),
            final(self).cursor == old(self).cursor,
            final(self).initialized == old(self).initialized,
            final(self).schema_version == old(self).schema_version,
            outcome is Ack ==> (r matches PushStep::Acked(e) && e == old(self).queue@[0] && final(self).queue@ == old(self).queue@.drop_first() && final(self).records@ == old(self).records@
                && final(self).conflicts@ == old(self).conflicts@ && final(self).dead_letters@
                == old(self).dead_letters@),
            outcome matches PushOutcome::Conflict {
                remote_revision,
                remote_updated_at,
                remote_payload,
            } ==> ({
                let e = old(self).queue@[0];
                if remote_updated_at >= e.enqueued_at {
                    &&& r == PushStep::RemoteWon(
                        spec_conflict_record(
                            old(self).records@,
                            e,
                            remote_payload,
                            remote_updated_at,
                        ),
                    )
                    &&& final(self).queue@ == old(self).queue@.drop_first()
                    &&& final(self).records@ == upserted(
                        old(self).records@,
                        e.table,
                        e.entity_id,
                        remote_revision,
                        remote_updated_at,
                        remote_payload,
                    )
                    &&& final(self).conflicts@ == old(self).conflicts@.push(
                        spec_conflict_record(
                            old(self).records@,
                            e,
                            remote_payload,
                            remote_updated_at,
                        ),
                    )
                    &&& final(self).dead_letters@ == old(self).dead_letters@
                } else {
                    r == PushStep::LocalNewerRetained && *final(self) == *old(self)
                }
            }),
            outcome is TransientFailure ==> ({
                let e = old(self).queue@[0];
                let a = if e.attempt_count < u64::MAX {
                    (e.attempt_count + 1) as u64
                } else {
                    e.attempt_count
                };
                &&& final(self).records@ == old(self).records@
                &&& final(self).conflicts@ == old(self).conflicts@
                &&& if a >= max_attempts {
                    &&& (r matches PushStep::Terminal(t) && t == (SyncQueueEntry {
                        attempt_count: a,
                        last_error: Some(SyncErrorKind::Terminal),
                        ..e
                    }))
                    &&& final(self).queue@ == old(self).queue@.drop_first()
                    &&& final(self).dead_letters@ == old(self).dead_letters@.push(
                        SyncQueueEntry {
                            attempt_count: a,
                            last_error: Some(SyncErrorKind::Terminal),
                            ..e
                        },
                    )
                } else {
                    &&& r == (PushStep::Backoff { attempt_count: a })
                    &&& final(self).queue@ == old(self).queue@.update(
                        0,
                        SyncQueueEntry {
                            attempt_count: a,
                            last_error: Some(SyncErrorKind::Network),
                            ..e
                        },
                    )
                    &&& final(self).dead_letters@ == old(self).dead_letters@
                }
            }),
    {
        match outcome {
            PushOutcome::Ack => {
                let e = self.queue.remove(0);
                proof {
                    crate::store::lemma_queue_unique_remove(old(self).queue@, 0);
                    assert(self.queue@ =~= old(self).queue@.drop_first());
                }
                PushStep::Acked(e)
            },
            PushOutcome::Conflict { remote_revision, remote_updated_at, remote_payload } => {
                if remote_updated_at >= self.queue[0].enqueued_at {
                    let e = self.queue.remove(0);
                    proof {
                        crate::store::lemma_queue_unique_remove(old(self).queue@, 0);
                        assert(self.queue@ =~= old(self).queue@.drop_first());
                    }
                    let disc_rev: u64 = match crate::store::find_record(
                        &self.records,
                        e.table,
                        e.entity_id,
                    ) {
                        Some(i) => {
                            proof {
                                lemma_record_at_is(self.records@, e.table, e.entity_id, i as int);
                            }
                            self.records[i].revision
                        },
                        None => 0,
                    };
                    let c = ConflictRecord {
                        table: e.table,
                        entity_id: e.entity_id,
                        discarded_payload: e.payload,
                        discarded_revision: disc_rev,
                        discarded_updated_at: e.enqueued_at,
                        winning_payload: remote_payload.clone(),
                        winning_updated_at: remote_updated_at,
                    };
                    self.upsert_remote(
                        e.table,
                        e.entity_id,
                        remote_revision,
                        remote_updated_at,
                        remote_payload,
                    );
                    self.conflicts.push(c.clone());
                    PushStep::RemoteWon(c)
                } else {
                    PushStep::LocalNewerRetained
                }
            },
            PushOutcome::TransientFailure => {
                let e = self.queue.remove(0);
                let a: u64 = if e.attempt_count < u64::MAX {
                    e.attempt_count + 1
                } else {
                    e.attempt_count
                };
                if a >= max_attempts {
                    proof {
                        crate::store::lemma_queue_unique_remove(old(self).queue@, 0);
                        assert(self.queue@ =~= old(self).queue@.drop_first());
                    }
                    let t_entry = SyncQueueEntry {
                        attempt_count: a,
                        last_error: Some(SyncErrorKind::Terminal),
                        ..e
                    };
                    self.dead_letters.push(t_entry.clone());
                    PushStep::Terminal(t_entry)
                } else {
                    let upd = SyncQueueEntry {
                        attempt_count: a,
                        last_error: Some(SyncErrorKind::Network),
                        ..e
                    };
                    self.queue.insert(0, upd);
                    proof {
                        assert(self.queue@ =~= old(self).queue@.update(
                            0,
                            self.queue@[0],
                        ));
                        crate::store::lemma_queue_unique_update(
                            old(self).queue@,
                            0,
                            self.queue@[0],
                        );
                    }
                    PushStep::Backoff { attempt_count: a }
                }
            },
        }
    }
}

/// The queue an aborted push phase leaves, the failing outcome at index `c`
/// of the outcome sequence (everything before it was consumed head-first): a
/// transient failure keeps the failing entry queued with its attempt count
/// advanced and the failure recorded, and an older conflicting remote
/// version keeps it queued untouched.
pub open spec fn aborted_push_state(
    queue: Seq<SyncQueueEntry>,
    outcome: PushOutcome,
    c: int,
    max_attempts: u64,
    final_queue: Seq<SyncQueueEntry>,
    by_conflict: bool,
) -> bool {
    match outcome {
        PushOutcome::TransientFailure => {
            let e = queue[c];
            let a = if e.attempt_count < u64::MAX {
                (e.attempt_count + 1) as u64
            } else {
                e.attempt_count
            };
            &&& !by_conflict
            &&& a < max_attempts
            &&& final_queue == queue.skip(c).update(
                0,
                SyncQueueEntry { attempt_count: a, last_error: Some(SyncErrorKind::Network), ..e },
            )
        },
        PushOutcome::Conflict { remote_revision: _, remote_updated_at, remote_payload: _ } => {
            &&& by_conflict
            &&& remote_updated_at < queue[c].enqueued_at
            &&& final_queue == queue.skip(c)
        },
        PushOutcome::Ack => false,
    }
}

/// Outcome `j` lets the push phase move past queue entry `j` without
/// aborting: an acknowledgement, a conflicting remote version at least as
/// new as the local change (resolved remote-wins), or a transient failure
/// that exhausted the entry's attempts (turned terminal). Anything else
/// aborts the phase.
pub open spec fn outcome_consumable(
    queue: Seq<SyncQueueEntry>,
    outcome: PushOutcome,
    j: int,
    max_attempts: u64,
) -> bool {
    match outcome {
        PushOutcome::Ack => true,
        PushOutcome::TransientFailure => ({
            let e = queue[j];
            (if e.attempt_count < u64::MAX {
                (e.attempt_count + 1) as u64
            } else {
                e.attempt_count
            }) >= max_attempts
        }),
        PushOutcome::Conflict { remote_revision: _, remote_updated_at, remote_payload: _ } =>
            remote_updated_at >= queue[j].enqueued_at,
    }
}

/// Every outcome in the sequence is an acknowledgement.
pub open spec fn all_ack(s: Seq<PushOutcome>) -> bool {
    forall|i: int| 0 <= i < s.len() ==> (#[trigger] s[i]) is Ack
}

/// What one pass's push phase did.
pub struct PushReport {
    /// The entries the remote acknowledged, oldest first.
    pub acked: Vec<SyncQueueEntry>,
    /// Conflicts resolved against the remote version during this phase.
    pub conflicts: Vec<ConflictRecord>,
    /// Entries that exhausted their attempts during this phase.
    pub terminal: Vec<SyncQueueEntry>,
    /// Whether the phase stopped before the queue drained (transient
    /// failure backoff, or a conflicting remote version older than the
    /// local change).
    pub aborted: bool,
    /// Whether the stop was a conflicting remote version older than the
    /// local change (retained and retried on a later pass).
    pub aborted_by_conflict: bool,
}

impl Store {
    /// Drains the queue oldest-first against the outcomes the remote
    /// produced, one outcome per attempted entry, stopping at a transient
    /// failure or at a conflicting remote version older than the local
    /// change. Every queued entry is accounted for — acknowledged,
    /// conflict-resolved, turned terminal, or still queued — and an abort
    /// freezes the phase at the failing outcome: everything before it was
    /// consumed head-first and the failing entry stays queued, a transient
    /// failure with its attempt count advanced and its error recorded.
    ///
    /// The drain law: when every outcome is an acknowledgement and there
    /// are outcomes for the whole queue, the queue drains to empty and the
    /// acknowledged entries are exactly the old queue in order — for any
    /// sequence of offline mutations, a connected pass whose pushes all
    /// succeed empties the queue, and what the remote received is the last
    /// local write per entity (each queued entry coalesces the entity's
    /// latest payload).
    pub fn push_all(&mut self, outcomes: &Vec<PushOutcome>, max_attempts: u64) -> (report:
        PushReport)
        requires
            old(self).inv(),
        ensures
            final(self).inv(),
            final(self).cursor == old(self).cursor,
            final(self).initialized == old(self).initialized,
            final(self).schema_version == old(self).schema_version,
            final(self).conflicts@ == old(self).conflicts@ + report.conflicts@,
            final(self).dead_letters@ == old(self).dead_letters@ + report.terminal@,
            all_ack(outcomes@) && outcomes@.len() >= old(self).queue@.len() ==> final(self).queue@
                == Seq::<SyncQueueEntry>::empty() && report.acked@ == old(self).queue@ && final(self).records@ == old(self).records@ && report.conflicts@ == Seq::<
                ConflictRecord,
            >::empty() && report.terminal@ == Seq::<SyncQueueEntry>::empty() && !report.aborted,
            report.aborted_by_conflict ==> report.aborted,
            (report.acked@.len() + report.conflicts@.len() + report.terminal@.len()) as int
                + final(self).queue@.len() == old(self).queue@.len(),
            report.conflicts@.len() == 0 ==> final(self).records@ == old(self).records@,
            !report.aborted ==> final(self).queue@ == old(self).queue@.skip(
                (report.acked@.len() + report.conflicts@.len() + report.terminal@.len()) as int,
            ) && (final(self).queue@.len() == 0 || (report.acked@.len() + report.conflicts@.len()
                + report.terminal@.len()) as int == outcomes@.len()),
            !report.aborted ==> (forall|j: int|
                0 <= j < (report.acked@.len() + report.conflicts@.len()
                    + report.terminal@.len()) as int ==> outcome_consumable(
                    old(self).queue@,
                    #[trigger] outcomes@[j],
                    j,
                    max_attempts,
                )),
            report.aborted ==> ({
                let c = (report.acked@.len() + report.conflicts@.len()
                    + report.terminal@.len()) as int;
                &&& 0 <= c < outcomes@.len()
                &&& c < old(self).queue@.len()
                &&& aborted_push_state(
                    old(self).queue@,
                    outcomes@[c],
                    c,
                    max_attempts,
                    final(self).queue@,
                    report.aborted_by_conflict,
                )
            }),
    {
        let mut acked: Vec<SyncQueueEntry> = Vec::new();
        let mut confs: Vec<ConflictRecord> = Vec::new();
        let mut terms: Vec<SyncQueueEntry> = Vec::new();
        let mut aborted = false;
        let mut by_conflict = false;
        let mut k: usize = 0;
        while k < outcomes.len() && !aborted && self.queue.len() > 0
            invariant
                self.inv(),
                k <= outcomes@.len(),
                self.cursor == old(self).cursor,
                self.initialized == old(self).initialized,
                self.schema_version == old(self).schema_version,
                self.conflicts@ == old(self).conflicts@ + confs@,
                self.dead_letters@ == old(self).dead_letters@ + terms@,
                by_conflict ==> aborted,
                all_ack(outcomes@) ==> !aborted && acked@ + self.queue@ == old(self).queue@
                    && acked@.len() == k && self.records@ == old(self).records@ && confs@ == Seq::<
                    ConflictRecord,
                >::empty() && terms@ == Seq::<SyncQueueEntry>::empty(),
                (acked@.len() + confs@.len() + terms@.len()) as int + self.queue@.len() == old(
                    self,
                ).queue@.len(),
                (acked@.len() + confs@.len() + terms@.len()) as int == k as int - (if aborted {
                    1int
                } else {
                    0int
                }),
                confs@.len() == 0 ==> self.records@ == old(self).records@,
                !aborted ==> self.queue@ == old(self).queue@.skip(
                    (acked@.len() + confs@.len() + terms@.len()) as int,
                ),
                !aborted ==> (forall|j: int|
                    0 <= j < k as int ==> outcome_consumable(
                        old(self).queue@,
                        #[trigger] outcomes@[j],
                        j,
                        max_attempts,
                    )),
                aborted ==> ({
                    let c = (acked@.len() + confs@.len() + terms@.len()) as int;
                    &&& 0 <= c < outcomes@.len()
                    &&& c < old(self).queue@.len()
                    &&& aborted_push_state(
                        old(self).queue@,
                        outcomes@[c],
                        c,
                        max_attempts,
                        self.queue@,
                        by_conflict,
                    )
                }),
            decreases outcomes@.len() - k,
        {
            let o = outcomes[k].clone();
            let ghost pre_queue = self.queue@;
            let ghost pre_acked = acked@;
            let ghost b = (acked@.len() + confs@.len() + terms@.len()) as int;
            proof {
                assert(old(self).queue@.skip(b).drop_first() =~= old(self).queue@.skip(b + 1));
                assert(pre_queue[0] == old(self).queue@[b]);
            }
            let step = self.push_step(o, max_attempts);
            match step {
                PushStep::Acked(e) => {
                    acked.push(e);
                    proof {
                        assert(acked@ + self.queue@ =~= pre_acked + pre_queue);
                        assert(outcome_consumable(old(self).queue@, o, b, max_attempts));
                    }
                },
                PushStep::RemoteWon(c) => {
                    confs.push(c);
                    proof {
                        assert(old(self).conflicts@ + confs@ =~= self.conflicts@);
                        assert(outcome_consumable(old(self).queue@, o, b, max_attempts));
                    }
                },
                PushStep::LocalNewerRetained => {
                    aborted = true;
                    by_conflict = true;
                },
                PushStep::Backoff { .. } => {
                    aborted = true;
                },
                PushStep::Terminal(t) => {
                    terms.push(t);
                    proof {
                        assert(old(self).dead_letters@ + terms@ =~= self.dead_letters@);
                        assert(outcome_consumable(old(self).queue@, o, b, max_attempts));
                    }
                },
            }
            k = k + 1;
        }
        proof {
            if !aborted && self.queue@.len() > 0 {
                assert((acked@.len() + confs@.len() + terms@.len()) as int == k as int);
                assert(k >= outcomes@.len());
            }
            if all_ack(outcomes@) && outcomes@.len() >= old(self).queue@.len() {
                if self.queue@.len() > 0 {
                    assert(acked@.len() == k);
                    assert(k >= outcomes@.len());
                    assert(acked@.len() + self.queue@.len() == old(self).queue@.len());
                }
                assert(acked@ + self.queue@ == old(self).queue@);
                assert(self.queue@ =~= Seq::<SyncQueueEntry>::empty());
                assert(acked@ + self.queue@ =~= acked@);
            }
        }
        PushReport { acked, conflicts: confs, terminal: terms, aborted, aborted_by_conflict: by_conflict }
    }
}

/// The watermark of one remote change.
pub open spec fn change_watermark(c: RemoteChange) -> i64 {
    match c {
        RemoteChange::Upsert { watermark, .. } => watermark,
        RemoteChange::Delete { watermark, .. } => watermark,
    }
}

/// The greatest watermark among `acc` and the changes.
pub open spec fn max_watermark(acc: i64, changes: Seq<RemoteChange>) -> i64
    decreases changes.len(),
{
    if changes.len() == 0 {
        acc
    } else {
        max_watermark(
            if change_watermark(changes[0]) > acc {
                change_watermark(changes[0])
            } else {
                acc
            },
            changes.drop_first(),
        )
    }
}

/// The records after one pulled remote change: an entity with a pending
/// (not-yet-pushed) queue entry is skipped, so an unsent local edit is
/// never overwritten; any other change is applied as a local upsert or
/// delete.
pub open spec fn apply_change_spec(
    records: Seq<LocalRecord>,
    queue: Seq<SyncQueueEntry>,
    c: RemoteChange,
) -> Seq<LocalRecord> {
    match c {
        RemoteChange::Upsert { table, id, revision, updated_at, payload, .. } => if has_entry(
            queue,
            table,
            id,
        ) {
            records
        } else {
            upserted(records, table, id, revision, updated_at, payload)
        },
        RemoteChange::Delete { table, id, .. } => if has_entry(queue, table, id) || !has_record(
            records,
            table,
            id,
        ) {
            records
        } else {
            records.remove(record_at(records, table, id))
        },
    }
}

/// The records after a whole batch of pulled changes, applied in order.
pub open spec fn pulled(
    records: Seq<LocalRecord>,
    queue: Seq<SyncQueueEntry>,
    changes: Seq<RemoteChange>,
) -> Seq<LocalRecord>
    decreases changes.len(),
{
    if changes.len() == 0 {
        records
    } else {
        pulled(apply_change_spec(records, queue, changes[0]), queue, changes.drop_first())
    }
}

impl Store {
    /// Applies one pulled remote change, skipping any entity that still has
    /// a pending local mutation queued.
    fn apply_change(&mut self, c: RemoteChange)
        requires
            old(self).inv(),
        ensures
            final(self).inv(),
            final(self).records@ == apply_change_spec(old(self).records@, old(self).queue@, c),
            final(self).queue@ == old(self).queue@,
            final(self).dead_letters@ == old(self).dead_letters@,
            final(self).conflicts@ == old(self).conflicts@,
            final(self).cursor == old(self).cursor,
            final(self).initialized == old(self).initialized,
            final(self).schema_version == old(self).schema_version,
    {
        match c {
            RemoteChange::Upsert { table, id, revision, updated_at, payload, watermark: _ } => {
                match crate::store::find_entry(&self.queue, table, id) {
                    Some(i) => {
                        proof {
                            crate::store::lemma_entry_at_is(self.queue@, table, id, i as int);
                        }
                    },
                    None => {
                        self.upsert_remote(table, id, revision, updated_at, payload);
                    },
                }
            },
            RemoteChange::Delete { table, id, watermark: _ } => {
                match crate::store::find_entry(&self.queue, table, id) {
                    Some(i) => {
                        proof {
                            crate::store::lemma_entry_at_is(self.queue@, table, id, i as int);
                        }
                    },
                    None => {
                        match crate::store::find_record(&self.records, table, id) {
                            Some(i) => {
                                proof {
                                    lemma_record_at_is(self.records@, table, id, i as int);
                                }
                                let _ = self.records.remove(i);
                                proof {
                                    crate::store::lemma_records_unique_remove(
                                        old(self).records@,
                                        i as int,
                                    );
                                }
                            },
                            None => {},
                        }
                    },
                }
            },
        }
    }

    /// Applies a pulled batch of remote changes newer than the cursor's
    /// watermark, in order, within one transaction; entities with pending
    /// local mutations are skipped. Returns the greatest watermark seen, the
    /// cursor's own to start.
    pub fn apply_pull(&mut self, changes: Vec<RemoteChange>) -> (watermark: i64)
        requires
            old(self).inv(),
        ensures
            final(self).inv(),
            final(self).records@ == pulled(old(self).records@, old(self).queue@, changes@),
            final(self).queue@ == old(self).queue@,
            final(self).dead_letters@ == old(self).dead_letters@,
            final(self).conflicts@ == old(self).conflicts@,
            final(self).cursor == old(self).cursor,
            final(self).initialized == old(self).initialized,
            final(self).schema_version == old(self).schema_version,
            watermark == max_watermark(old(self).cursor.remote_watermark, changes@),
    {
        let ghost orig = changes@;
        let mut rest = changes;
        let mut wm: i64 = self.cursor.remote_watermark;
        proof {
            assert(pulled(old(self).records@, old(self).queue@, orig) == pulled(
                self.records@,
                self.queue@,
                rest@,
            ));
        }
        while rest.len() > 0
            invariant
                self.inv(),
                self.queue@ == old(self).queue@,
                self.dead_letters@ == old(self).dead_letters@,
                self.conflicts@ == old(self).conflicts@,
                self.cursor == old(self).cursor,
                self.initialized == old(self).initialized,
                self.schema_version == old(self).schema_version,
                pulled(old(self).records@, old(self).queue@, orig) == pulled(
                    self.records@,
                    self.queue@,
                    rest@,
                ),
                max_watermark(old(self).cursor.remote_watermark, orig) == max_watermark(
                    wm,
                    rest@,
                ),
            decreases rest@.len(),
        {
            let ghost pre_rest = rest@;
            let c = rest.remove(0);
            proof {
                assert(rest@ =~= pre_rest.drop_first());
            }
            let cwm = match &c {
                RemoteChange::Upsert { watermark, .. } => *watermark,
                RemoteChange::Delete { watermark, .. } => *watermark,
            };
            if cwm > wm {
                wm = cwm;
            }
            self.apply_change(c);
        }
        wm
    }
}

/// Process-wide sync engine state and policy. Only one pass may be active
/// at a time; a concurrent trigger is coalesced into a no-op.
pub struct SyncEngine {
    /// Whether a sync pass is in flight.
    pub active: bool,
    /// After this many failed attempts a queue entry becomes terminal.
    pub max_attempts: u64,
    /// Base backoff delay in milliseconds.
    pub base_delay_ms: u64,
    /// Cap on the backoff delay in milliseconds.
    pub max_delay_ms: u64,
}

/// What a trigger request decided.
#[derive(Clone, Copy, Debug, PartialEq, Eq, Structural)]
pub enum TriggerDecision {
    /// A pass is already in flight; this trigger coalesces into a no-op.
    AlreadyActive,
    /// Offline: sync is opportunistic, so this is not an error.
    Offline,
    /// A new pass starts; the engine is now active.
    Start,
}

/// Gates the start of a sync pass: a trigger while a pass is active
/// coalesces into a no-op, a trigger while offline ends idle without error,
/// and otherwise the engine becomes active and the pass starts.
pub fn trigger_sync(engine: &mut SyncEngine, online: bool) -> (d: TriggerDecision)
    ensures
        old(engine).active ==> d == TriggerDecision::AlreadyActive && *final(engine) == *old(
            engine,
        ),
        !old(engine).active && !online ==> d == TriggerDecision::Offline && *final(engine) == *old(
            engine,
        ),
        !old(engine).active && online ==> d == TriggerDecision::Start && *final(engine)
            == (SyncEngine { active: true, ..*old(engine) }),
{
    if engine.active {
        TriggerDecision::AlreadyActive
    } else if !online {
        TriggerDecision::Offline
    } else {
        engine.active = true;
        TriggerDecision::Start
    }
}

/// Ends a pass. The cursor advances only when both push and pull completed
/// without fatal error; the engine always returns to idle.
pub fn finish_pass(store: &mut Store, engine: &mut SyncEngine, now: i64, watermark: i64, success: bool)
    requires
        old(store).inv(),
    ensures
        final(store).inv(),
        !final(engine).active,
        final(engine).max_attempts == old(engine).max_attempts,
        final(engine).base_delay_ms == old(engine).base_delay_ms,
        final(engine).max_delay_ms == old(engine).max_delay_ms,
        success ==> final(store).cursor == (SyncCursor {
            last_successful_sync_at: now,
            remote_watermark: if watermark > old(store).cursor.remote_watermark {
                watermark
            } else {
                old(store).cursor.remote_watermark
            },
        }),
        !success ==> final(store).cursor == old(store).cursor,
        final(store).records@ == old(store).records@,
        final(store).queue@ == old(store).queue@,
        final(store).dead_letters@ == old(store).dead_letters@,
        final(store).conflicts@ == old(store).conflicts@,
        final(store).initialized == old(store).initialized,
        final(store).schema_version == old(store).schema_version,
{
    if success {
        let wm = if watermark > store.cursor.remote_watermark {
            watermark
        } else {
            store.cursor.remote_watermark
        };
        store.cursor = SyncCursor { last_successful_sync_at: now, remote_watermark: wm };
    }
    engine.active = false;
}

/// The greatest watermark over a batch never falls below where it started.
proof fn lemma_max_watermark_ge(acc: i64, changes: Seq<RemoteChange>)
    ensures
        max_watermark(acc, changes) >= acc,
    decreases changes.len(),
{
    if changes.len() > 0 {
        let acc2 = if change_watermark(changes[0]) > acc {
            change_watermark(changes[0])
        } else {
            acc
        };
        lemma_max_watermark_ge(acc2, changes.drop_first());
    }
}

/// The structured result of a sync trigger, handed back to the shell.
pub struct SyncOutcome {
    pub status: crate::envelope::Status,
    /// Whether a full push and pull completed in this pass.
    pub synced: bool,
    /// The time of this trigger, as the caller formatted it.
    pub timestamp: String,
    /// Conflicts resolved during this pass, surfaced to the caller.
    pub conflicts: Vec<ConflictRecord>,
    pub error: Option<SyncErrorKind>,
}

/// One whole sync pass: probe gate, push, pull, reconcile.
///
/// The caller has already performed the remote calls this pass needed and
/// hands in their outcomes as plain values: one `PushOutcome` per queued
/// entry it attempted, and the pulled changes. Offline, or while another
/// pass is in flight, the pass is a successful no-op with `synced` false
/// and the store untouched. A transient push failure aborts the pass
/// (backoff; retried on a later trigger) and leaves the cursor untouched.
pub fn run_sync_pass(
    store: &mut Store,
    engine: &mut SyncEngine,
    online: bool,
    outcomes: &Vec<PushOutcome>,
    changes: Vec<RemoteChange>,
    now: i64,
    timestamp: String,
) -> (out: SyncOutcome)
    requires
        old(store).inv(),
    ensures
        final(store).inv(),
        out.timestamp == timestamp,
        final(store).conflicts@ == old(store).conflicts@ + out.conflicts@,
        old(engine).active ==> *final(engine) == *old(engine) && *final(store) == *old(store)
            && out.status == crate::envelope::Status::Success && !out.synced && out.error is None,
        !old(engine).active && !online ==> *final(engine) == *old(engine) && *final(store) == *old(
            store,
        ) && out.status == crate::envelope::Status::Success && !out.synced && out.error is None,
        !old(engine).active && online ==> !final(engine).active,
        !old(engine).active && online && all_ack(outcomes@) && outcomes@.len() >= old(
            store,
        ).queue@.len() ==> out.synced && out.status == crate::envelope::Status::Success
            && final(store).queue@ == Seq::<SyncQueueEntry>::empty() && out.conflicts@ == Seq::<
            ConflictRecord,
        >::empty() && final(store).cursor.last_successful_sync_at == now,
        out.synced ==> final(store).cursor.last_successful_sync_at == now,
        !out.synced ==> final(store).cursor == old(store).cursor,
        out.status == crate::envelope::Status::Success <==> out.error is None,
        !old(engine).active && online ==> (out.synced <==> out.error is None),
        out.synced ==> final(store).cursor == (SyncCursor {
            last_successful_sync_at: now,
            remote_watermark: max_watermark(old(store).cursor.remote_watermark, changes@),
        }),
        out.synced ==> (forall|j: int|
            0 <= j < old(store).queue@.len() - final(store).queue@.len()
                ==> outcome_consumable(
                old(store).queue@,
                #[trigger] outcomes@[j],
                j,
                old(engine).max_attempts,
            )),
        out.error is Some ==> ({
            let c = old(store).queue@.len() - final(store).queue@.len();
            &&& 0 <= c < outcomes@.len()
            &&& c < old(store).queue@.len()
            &&& final(store).queue@.len() > 0
            &&& (outcomes@[c] is TransientFailure ==> out.error == Some(SyncErrorKind::Network))
            &&& (outcomes@[c] is Conflict ==> out.error == Some(SyncErrorKind::Conflict))
            &&& aborted_push_state(
                old(store).queue@,
                outcomes@[c],
                c,
                old(engine).max_attempts,
                final(store).queue@,
                out.error == Some(SyncErrorKind::Conflict),
            )
        }),
{
    match trigger_sync(engine, online) {
        TriggerDecision::AlreadyActive => SyncOutcome {
            status: crate::envelope::Status::Success,
            synced: false,
            timestamp,
            conflicts: Vec::new(),
            error: None,
        },
        TriggerDecision::Offline => SyncOutcome {
            status: crate::envelope::Status::Success,
            synced: false,
            timestamp,
            conflicts: Vec::new(),
            error: None,
        },
        TriggerDecision::Start => {
            let max_attempts = engine.max_attempts;
            let report = store.push_all(outcomes, max_attempts);
            if report.aborted {
                let kind = if report.aborted_by_conflict {
                    SyncErrorKind::Conflict
                } else {
                    SyncErrorKind::Network
                };
                finish_pass(store, engine, now, 0, false);
                SyncOutcome {
                    status: crate::envelope::Status::Error,
                    synced: false,
                    timestamp,
                    conflicts: report.conflicts,
                    error: Some(kind),
                }
            } else {
                let wm = store.apply_pull(changes);
                proof {
                    lemma_max_watermark_ge(old(store).cursor.remote_watermark, changes@);
                }
                finish_pass(store, engine, now, wm, true);
                SyncOutcome {
                    status: crate::envelope::Status::Success,
                    synced: true,
                    timestamp,
                    conflicts: report.conflicts,
                    error: None,
                }
            }
        },
    }
}

} // verus!
