//! The record store.
//!
//! [`Database`] holds the records in memory, in the order of a listing:
//! newest first, records of one instant in the order of their ids. Contracts
//! speak of a store through its view, the sequence of its records in that
//! order, and the laws of the store are stated over such sequences: what is
//! stored is found again, a listing finds exactly what passes its filters, a
//! sweep removes exactly what is older than its cutoff. The store also keeps
//! every id under which it has ever held a record, so that no id is used
//! twice in its lifetime.
//!
//! A listing is evaluated through the same [`QueryPlan`] whose statements a
//! SQL database is given, so both are asked the same conditions.

use crate::models::{
    text_of, AnchorStatus, CreateLogRequest, LogEntry, LogFilter, LogQueryParams, LogRecord,
};
use crate::query::{lemma_conditions_match, page_limit, page_offset, passes, QueryPlan};
use vstd::prelude::*;

verus! {

/// Why an operation of the store failed.
#[derive(Clone, Copy, Debug, PartialEq, Eq, Structural)]
pub enum StoreError {
    /// The store could not be reached.
    Unavailable,
    /// A record with this id is already stored.
    DuplicateId,
    /// The store holds as many records as it can count.
    Full,
    /// No record with this id is stored.
    NotFound,
    /// The page of a listing has a negative limit or offset.
    InvalidPage,
}

/// The largest number of records that a store holds.
pub const MAX_RECORDS: u64 = 0x7fff_ffff_ffff_ffff;

/// Whether `a` is listed before `b`: the newer record comes first, and of two
/// records of one instant the one with the smaller id.
pub open spec fn precedes(a: LogRecord, b: LogRecord) -> bool {
    a.created_at > b.created_at || (a.created_at == b.created_at && a.id < b.id)
}

/// Whether the records stand in the order of a listing.
pub open spec fn newest_first(records: Seq<LogRecord>) -> bool {
    forall|i: int, j: int|
        0 <= i < j < records.len() ==> precedes(#[trigger] records[i], #[trigger] records[j])
}

/// Whether no two records share an id.
pub open spec fn distinct_ids(records: Seq<LogRecord>) -> bool {
    forall|i: int, j: int|
        0 <= i < j < records.len() ==> (#[trigger] records[i]).id != (#[trigger] records[j]).id
}

/// Whether a sequence of records can be the content of a store.
pub open spec fn well_formed(records: Seq<LogRecord>) -> bool {
    &&& newest_first(records)
    &&& distinct_ids(records)
    &&& records.len() <= MAX_RECORDS
}

/// Whether a record with this id is among the records.
pub open spec fn has_id(records: Seq<LogRecord>, id: u128) -> bool {
    exists|i: int| 0 <= i < records.len() && (#[trigger] records[i]).id == id
}

/// The record with this id, if there is one.
pub open spec fn lookup(records: Seq<LogRecord>, id: u128) -> Option<LogRecord> {
    if has_id(records, id) {
        Some(records[choose|i: int| 0 <= i < records.len() && (#[trigger] records[i]).id == id])
    } else {
        None
    }
}

/// The place of a new record in a listing: the number of leading records
/// that are listed before it.
pub open spec fn insertion_point(records: Seq<LogRecord>, record: LogRecord) -> int
    decreases records.len(),
{
    if records.len() == 0 || !precedes(records[0], record) {
        0
    } else {
        1 + insertion_point(records.skip(1), record)
    }
}

/// The record that is stored for a new event: not yet anchored, created and
/// last changed at `now`.
pub open spec fn pending_record(
    id: u128,
    event_type: Seq<char>,
    severity: Seq<char>,
    data: Seq<char>,
    hash: Seq<char>,
    now: i64,
) -> LogRecord {
    LogRecord {
        id,
        event_type,
        severity,
        data,
        hash,
        tx_signature: None,
        blockchain_status: AnchorStatus::Pending,
        created_at: now,
        updated_at: now,
    }
}

/// The records of a store after one more was stored.
pub open spec fn inserted(records: Seq<LogRecord>, record: LogRecord) -> Seq<LogRecord> {
    records.insert(insertion_point(records, record), record)
}

/// The views of a sequence of entries.
pub open spec fn record_views(entries: Seq<LogEntry>) -> Seq<LogRecord> {
    entries.map_values(|e: LogEntry| e@)
}

/// Whether `a` is listed before `b`.
pub fn comes_before(a: &LogEntry, b: &LogEntry) -> (r: bool)
    ensures
        r == precedes(a@, b@),
{
    a.created_at > b.created_at || (a.created_at == b.created_at && a.id < b.id)
}

/// The insertion point lies within the sequence, every record before it
/// precedes the new one, and the record at it, if any, does not.
pub proof fn lemma_insertion_point(records: Seq<LogRecord>, record: LogRecord)
    ensures
        0 <= insertion_point(records, record) <= records.len(),
        forall|k: int|
            0 <= k < insertion_point(records, record) ==> precedes(#[trigger] records[k], record),
        insertion_point(records, record) < records.len() ==> !precedes(
            records[insertion_point(records, record)],
            record,
        ),
    decreases records.len(),
{
    if records.len() == 0 || !precedes(records[0], record) {
    } else {
        let rest = records.skip(1);
        lemma_insertion_point(rest, record);
        let p = insertion_point(rest, record);
        assert forall|k: int| 0 <= k < p + 1 implies precedes(#[trigger] records[k], record) by {
            if k > 0 {
                assert(records[k] == rest[k - 1]);
            }
        }
        if p + 1 < records.len() {
            assert(records[p + 1] == rest[p]);
        }
    }
}

/// Storing a record with a fresh id in a well-ordered sequence leaves the
/// sequence well ordered.
pub proof fn lemma_inserted_well_formed(records: Seq<LogRecord>, record: LogRecord)
    requires
        well_formed(records),
        !has_id(records, record.id),
        records.len() < MAX_RECORDS,
    ensures
        well_formed(inserted(records, record)),
{
    lemma_insertion_point(records, record);
    let p = insertion_point(records, record);
    let after = inserted(records, record);
    assert forall|k: int| 0 <= k < records.len() implies (#[trigger] records[k]).id
        != record.id by {
        if records[k].id == record.id {
            assert(has_id(records, record.id));
        }
    }
    assert forall|k: int| p <= k < records.len() implies precedes(record, #[trigger] records[k]) by {
        assert(!precedes(records[p], record));
        assert(records[p].id != record.id);
        if k > p {
            assert(precedes(records[p], records[k]));
        }
    }
    assert forall|i: int, j: int| 0 <= i < j < after.len() implies precedes(
        #[trigger] after[i],
        #[trigger] after[j],
    ) && after[i].id != after[j].id by {
        let a = if i < p {
            records[i]
        } else if i == p {
            record
        } else {
            records[i - 1]
        };
        let b = if j < p {
            records[j]
        } else if j == p {
            record
        } else {
            records[j - 1]
        };
        assert(after[i] == a);
        assert(after[j] == b);
    }
}

/// A record after its anchoring ended: the reference, the status and the
/// time of the change are new, all else is as it was.
pub open spec fn anchored(
    record: LogRecord,
    reference: Option<Seq<char>>,
    status: AnchorStatus,
    now: i64,
) -> LogRecord {
    LogRecord { tx_signature: reference, blockchain_status: status, updated_at: now, ..record }
}

/// The records of a store after the anchoring of the record with this id
/// ended. No other record changes.
pub open spec fn with_status(
    records: Seq<LogRecord>,
    id: u128,
    reference: Option<Seq<char>>,
    status: AnchorStatus,
    now: i64,
) -> Seq<LogRecord> {
    records.map_values(
        |r: LogRecord|
            if r.id == id {
                anchored(r, reference, status, now)
            } else {
                r
            },
    )
}

/// The test that a listing's filters put to a record.
pub open spec fn wanted(filter: LogFilter) -> spec_fn(LogRecord) -> bool {
    |r: LogRecord| passes(filter, r)
}

/// The records that pass a listing's filters, in the order of the store.
pub open spec fn matching(records: Seq<LogRecord>, filter: LogFilter) -> Seq<LogRecord> {
    records.filter(wanted(filter))
}

/// One page of the records that were found: `offset` of them are skipped, at
/// most `limit` follow.
pub open spec fn page_of(found: Seq<LogRecord>, limit: int, offset: int) -> Seq<LogRecord> {
    let from = if offset < found.len() {
        offset
    } else {
        found.len() as int
    };
    let to = if offset + limit < found.len() {
        offset + limit
    } else {
        found.len() as int
    };
    found.subrange(from, to)
}

/// The number of microseconds in a day.
pub const MICROS_PER_DAY: i64 = 86_400_000_000;

/// The instant `days` days before `now`.
pub open spec fn cutoff(now: i64, days: i64) -> int {
    now - days * MICROS_PER_DAY
}

/// The test that a sweep puts to a record: whether it was created at the
/// cutoff or later, and so stays.
pub open spec fn recent(cutoff: int) -> spec_fn(LogRecord) -> bool {
    |r: LogRecord| r.created_at >= cutoff
}

/// The test whether a record has a status; `None` stands for any status.
pub open spec fn in_status(status: Option<AnchorStatus>) -> spec_fn(LogRecord) -> bool {
    |r: LogRecord| status matches Some(s) ==> r.blockchain_status == s
}

/// Every record that a filter lets through is one of the records it was
/// given.
pub proof fn lemma_filter_subset(records: Seq<LogRecord>, keep: spec_fn(LogRecord) -> bool, i: int)
    requires
        0 <= i < records.filter(keep).len(),
    ensures
        exists|k: int| 0 <= k < records.len() && #[trigger] records[k] == records.filter(keep)[i],
    decreases records.len(),
{
    reveal(Seq::filter);
    if records.len() > 0 {
        let rest = records.drop_last();
        if i < rest.filter(keep).len() {
            lemma_filter_subset(rest, keep, i);
            let k = choose|k: int| 0 <= k < rest.len() && #[trigger] rest[k] == rest.filter(keep)[i];
            assert(records[k] == records.filter(keep)[i]);
        } else {
            assert(records[records.len() - 1] == records.filter(keep)[i]);
        }
    }
}

/// A filter keeps a well-formed sequence of records well formed: what stays
/// keeps its order, and no id comes twice.
pub proof fn lemma_filter_well_formed(records: Seq<LogRecord>, keep: spec_fn(LogRecord) -> bool)
    requires
        well_formed(records),
    ensures
        well_formed(records.filter(keep)),
        records.filter(keep).len() <= records.len(),
    decreases records.len(),
{
    reveal(Seq::filter);
    if records.len() > 0 {
        let rest = records.drop_last();
        let last = records.last();
        assert forall|i: int, j: int| 0 <= i < j < rest.len() implies precedes(
            #[trigger] rest[i],
            #[trigger] rest[j],
        ) && rest[i].id != rest[j].id by {
            assert(rest[i] == records[i]);
            assert(rest[j] == records[j]);
        }
        lemma_filter_well_formed(rest, keep);
        let kept = rest.filter(keep);
        let all = records.filter(keep);
        if keep(last) {
            assert(all == kept.push(last));
            assert forall|i: int, j: int| 0 <= i < j < all.len() implies precedes(
                #[trigger] all[i],
                #[trigger] all[j],
            ) && all[i].id != all[j].id by {
                if j < kept.len() {
                    assert(all[i] == kept[i]);
                    assert(all[j] == kept[j]);
                } else {
                    lemma_filter_subset(rest, keep, i);
                    let k = choose|k: int| 0 <= k < rest.len() && #[trigger] rest[k] == kept[i];
                    assert(records[k] == all[i]);
                    assert(records[records.len() - 1] == all[j]);
                }
            }
        }
    }
}

/// A filter lets through exactly the records that pass its test: a record
/// is among those that stay if and only if it was among those given and
/// passes.
pub proof fn lemma_filter_exact(
    records: Seq<LogRecord>,
    keep: spec_fn(LogRecord) -> bool,
    record: LogRecord,
)
    ensures
        records.filter(keep).contains(record) <==> records.contains(record) && keep(record),
    decreases records.len(),
{
    reveal(Seq::filter);
    if records.len() > 0 {
        let rest = records.drop_last();
        let last = records.last();
        lemma_filter_exact(rest, keep, record);
        let kept = rest.filter(keep);
        let all = records.filter(keep);
        if all.contains(record) {
            let i = choose|i: int| 0 <= i < all.len() && all[i] == record;
            if i < kept.len() {
                assert(kept[i] == record);
                assert(kept.contains(record));
                let k = choose|k: int| 0 <= k < rest.len() && rest[k] == record;
                assert(records[k] == record);
            } else {
                assert(record == last);
                assert(records[records.len() - 1] == record);
            }
        }
        if records.contains(record) && keep(record) {
            let k = choose|k: int| 0 <= k < records.len() && records[k] == record;
            if k < rest.len() {
                assert(rest[k] == record);
                assert(rest.contains(record));
                let i = choose|i: int| 0 <= i < kept.len() && kept[i] == record;
                assert(all[i] == record);
            } else {
                assert(all[all.len() - 1] == record);
            }
        }
    }
}

/// Round trip: a record that is stored under a fresh id is found under that
/// id just as it was stored, and every other id finds what it found before.
pub proof fn lemma_insert_then_get(records: Seq<LogRecord>, record: LogRecord, id: u128)
    requires
        well_formed(records),
        !has_id(records, record.id),
        records.len() < MAX_RECORDS,
    ensures
        lookup(inserted(records, record), record.id) == Some(record),
        id != record.id ==> lookup(inserted(records, record), id) == lookup(records, id),
{
    lemma_insertion_point(records, record);
    lemma_inserted_well_formed(records, record);
    let p = insertion_point(records, record);
    let after = inserted(records, record);
    assert(after[p] == record);
    lemma_lookup_at(after, p);
    if id != record.id {
        if has_id(records, id) {
            let k = choose|k: int| 0 <= k < records.len() && (#[trigger] records[k]).id == id;
            lemma_lookup_at(records, k);
            let moved = if k < p {
                k
            } else {
                k + 1
            };
            assert(after[moved] == records[k]);
            lemma_lookup_at(after, moved);
        } else {
            if has_id(after, id) {
                let k = choose|k: int| 0 <= k < after.len() && (#[trigger] after[k]).id == id;
                let origin = if k < p {
                    k
                } else {
                    k - 1
                };
                assert(after[k] == records[origin]);
                assert(has_id(records, id));
            }
        }
    }
}

/// In a sequence without a repeated id, the record at a place is the one
/// that its id finds.
pub proof fn lemma_lookup_at(records: Seq<LogRecord>, at: int)
    requires
        distinct_ids(records),
        0 <= at < records.len(),
    ensures
        has_id(records, records[at].id),
        lookup(records, records[at].id) == Some(records[at]),
{
    let id = records[at].id;
    assert(has_id(records, id));
    let k = choose|k: int| 0 <= k < records.len() && (#[trigger] records[k]).id == id;
    if k < at {
        assert(records[k].id != records[at].id);
    }
    if at < k {
        assert(records[at].id != records[k].id);
    }
}

/// The end of an anchoring is written to the record with the id and to no
/// other: that record is found with the new reference and status and is
/// otherwise as it was, and every other id finds what it found before.
pub proof fn lemma_status_written(
    records: Seq<LogRecord>,
    id: u128,
    reference: Option<Seq<char>>,
    status: AnchorStatus,
    now: i64,
    other: u128,
)
    requires
        well_formed(records),
        has_id(records, id),
    ensures
        well_formed(with_status(records, id, reference, status, now)),
        lookup(with_status(records, id, reference, status, now), id) == Some(
            anchored(lookup(records, id)->0, reference, status, now),
        ),
        other != id ==> lookup(with_status(records, id, reference, status, now), other) == lookup(
            records,
            other,
        ),
{
    let after = with_status(records, id, reference, status, now);
    assert forall|a: int, b: int| 0 <= a < b < after.len() implies precedes(
        #[trigger] after[a],
        #[trigger] after[b],
    ) && after[a].id != after[b].id by {
        assert(precedes(records[a], records[b]));
        assert(records[a].id != records[b].id);
    }
    let k = choose|k: int| 0 <= k < records.len() && (#[trigger] records[k]).id == id;
    lemma_lookup_at(records, k);
    assert(after[k].id == id);
    lemma_lookup_at(after, k);
    if other != id {
        if has_id(records, other) {
            let j = choose|j: int| 0 <= j < records.len() && (#[trigger] records[j]).id == other;
            lemma_lookup_at(records, j);
            assert(after[j] == records[j]);
            lemma_lookup_at(after, j);
        } else {
            if has_id(after, other) {
                let j = choose|j: int| 0 <= j < after.len() && (#[trigger] after[j]).id == other;
                assert(records[j].id == other);
                assert(has_id(records, other));
            }
        }
    }
}

/// The write of an anchoring's end is idempotent: written twice, it leaves
/// what it left when written once.
pub proof fn lemma_status_write_idempotent(
    records: Seq<LogRecord>,
    id: u128,
    reference: Option<Seq<char>>,
    status: AnchorStatus,
    now: i64,
)
    ensures
        with_status(with_status(records, id, reference, status, now), id, reference, status, now)
            == with_status(records, id, reference, status, now),
{
    let once = with_status(records, id, reference, status, now);
    let twice = with_status(once, id, reference, status, now);
    assert(twice =~= once);
}

/// Filter composition: a listing finds exactly the stored records that pass
/// every filter that is present, whichever filters those are.
pub proof fn lemma_matching_exact(records: Seq<LogRecord>, filter: LogFilter, record: LogRecord)
    ensures
        matching(records, filter).contains(record) <==> records.contains(record) && passes(
            filter,
            record,
        ),
        matching(records, filter).len() <= records.len(),
{
    lemma_filter_exact(records, wanted(filter), record);
    records.lemma_filter_len(wanted(filter));
}

/// Pagination: a page holds no more records than its limit, which is 100
/// where none was named and never more than 1000, and a page without an
/// offset starts at the first record that was found.
pub proof fn lemma_page_bounds(found: Seq<LogRecord>, limit: Option<i64>, offset: Option<i64>)
    requires
        page_limit(limit) >= 0,
        page_offset(offset) >= 0,
    ensures
        page_of(found, page_limit(limit) as int, page_offset(offset) as int).len() <= page_limit(
            limit,
        ) <= 1000,
        limit is None ==> page_limit(limit) == 100,
        offset is None ==> page_of(found, page_limit(limit) as int, 0) == found.take(
            if page_limit(limit) < found.len() {
                page_limit(limit) as int
            } else {
                found.len() as int
            },
        ),
{
}

/// Retention: a sweep keeps exactly the records that were created at the
/// cutoff or later, those untouched, and removes exactly the older ones.
pub proof fn lemma_sweep_exact(records: Seq<LogRecord>, now: i64, days: i64, record: LogRecord)
    ensures
        records.filter(recent(cutoff(now, days))).contains(record) <==> records.contains(record)
            && record.created_at >= now - days * MICROS_PER_DAY,
        records.filter(recent(cutoff(now, days))).len() <= records.len(),
{
    lemma_filter_exact(records, recent(cutoff(now, days)), record);
    records.lemma_filter_len(recent(cutoff(now, days)));
}

/// The outcome of a status write by the number of records that it changed:
/// a write that changed none found no record with its id.
pub fn status_written(rows_affected: u64) -> (r: Result<(), StoreError>)
    ensures
        r == if rows_affected == 0 {
            Err::<(), StoreError>(StoreError::NotFound)
        } else {
            Ok::<(), StoreError>(())
        },
{
    if rows_affected == 0 {
        Err(StoreError::NotFound)
    } else {
        Ok(())
    }
}

/// The record store.
pub struct Database {
    rows: Vec<LogEntry>,
    used: Vec<u128>,
}

impl View for Database {
    type V = Seq<LogRecord>;

    closed spec fn view(&self) -> Seq<LogRecord> {
        record_views(self.rows@)
    }
}

impl Database {
    /// The ids under which the store has ever held a record, those of
    /// records that were removed since among them.
    pub closed spec fn ever_stored(&self) -> Set<u128> {
        Set::new(|id: u128| self.used@.contains(id))
    }

    /// Whether the store is in order: its records newest first, no id
    /// twice, and the id of every record among those ever stored. Every
    /// store that this module hands out is.
    pub open spec fn wf(&self) -> bool {
        &&& well_formed(self@)
        &&& forall|i: int|
            0 <= i < self@.len() ==> self.ever_stored().contains((#[trigger] self@[i]).id)
    }

    /// An empty store, which has never held a record.
    pub fn new() -> (db: Database)
        ensures
            db.wf(),
            db@ == Seq::<LogRecord>::empty(),
            db.ever_stored() == Set::<u128>::empty(),
    {
        let db = Database { rows: Vec::new(), used: Vec::new() };
        assert(db@ =~= Seq::<LogRecord>::empty());
        assert(db.ever_stored() =~= Set::<u128>::empty());
        db
    }

    /// Whether the store has ever held a record under this id.
    pub fn was_stored(&self, id: u128) -> (b: bool)
        ensures
            b == self.ever_stored().contains(id),
    {
        let mut i: usize = 0;
        while i < self.used.len()
            invariant
                i <= self.used.len(),
                forall|k: int| 0 <= k < i ==> self.used@[k] != id,
            decreases self.used.len() - i,
        {
            if self.used[i] == id {
                assert(self.used@[i as int] == id);
                return true;
            }
            i = i + 1;
        }
        false
    }

    /// The number of records in the store.
    pub fn len(&self) -> (n: usize)
        ensures
            n == self@.len(),
    {
        self.rows.len()
    }

    /// Stores the record of a new event under `id`, not yet anchored, created
    /// at `now`, and returns it.
    ///
    /// An id is unique over the lifetime of the store: the store refuses an
    /// id under which it has ever held a record, also one whose record was
    /// removed since. It refuses a record beyond the number it can count. It
    /// is unchanged where it refuses.
    pub fn insert_log(&mut self, id: u128, request: &CreateLogRequest, hash: &str, now: i64) -> (r:
        Result<LogEntry, StoreError>)
        requires
            old(self).wf(),
        ensures
            final(self).wf(),
            match r {
                Ok(entry) => {
                    &&& !old(self).ever_stored().contains(id)
                    &&& !has_id(old(self)@, id)
                    &&& old(self)@.len() < MAX_RECORDS
                    &&& entry@ == pending_record(
                        id,
                        request.event_type@,
                        request.severity@,
                        request.data@,
                        hash@,
                        now,
                    )
                    &&& final(self)@ == inserted(old(self)@, entry@)
                    &&& final(self).ever_stored() == old(self).ever_stored().insert(id)
                },
                Err(e) => {
                    &&& final(self)@ == old(self)@
                    &&& final(self).ever_stored() == old(self).ever_stored()
                    &&& e == if old(self).ever_stored().contains(id) {
                        StoreError::DuplicateId
                    } else {
                        StoreError::Full
                    }
                    &&& old(self).ever_stored().contains(id) || old(self)@.len() >= MAX_RECORDS
                },
            },
    {
        if self.was_stored(id) {
            return Err(StoreError::DuplicateId);
        }
        if self.rows.len() as u64 >= MAX_RECORDS {
            return Err(StoreError::Full);
        }
        assert(!has_id(self@, id)) by {
            if has_id(self@, id) {
                let k = choose|k: int| 0 <= k < self@.len() && (#[trigger] self@[k]).id == id;
                assert(self.ever_stored().contains(self@[k].id));
            }
        }
        let entry = LogEntry {
            id,
            event_type: request.event_type.clone(),
            severity: request.severity.clone(),
            data: request.data.clone(),
            hash: hash.to_owned(),
            tx_signature: None,
            blockchain_status: AnchorStatus::Pending,
            created_at: now,
            updated_at: now,
        };
        let ghost before = self@;
        let mut i: usize = 0;
        assert(before.skip(0) =~= before);
        while i < self.rows.len() && comes_before(&self.rows[i], &entry)
            invariant
                i <= self.rows.len(),
                before == record_views(self.rows@),
                insertion_point(before, entry@) == i + insertion_point(
                    before.skip(i as int),
                    entry@,
                ),
            decreases self.rows.len() - i,
        {
            assert(before.skip(i as int)[0] == before[i as int]);
            assert(before.skip(i as int).skip(1) =~= before.skip(i + 1));
            i = i + 1;
        }
        proof {
            if i < self.rows.len() {
                assert(before.skip(i as int)[0] == before[i as int]);
            }
            assert(insertion_point(before, entry@) == i);
            lemma_inserted_well_formed(before, entry@);
        }
        let stored = entry.clone();
        let ghost known = self.ever_stored();
        self.rows.insert(i, stored);
        self.used.push(id);
        proof {
            let after = record_views(self.rows@);
            assert(after =~= inserted(before, entry@));
            assert forall|x: u128| self.ever_stored().contains(x) == known.insert(id).contains(
                x,
            ) by {
                let used = old(self).used@;
                assert(self.used@ == used.push(id));
                if used.contains(x) {
                    let k = choose|k: int| 0 <= k < used.len() && used[k] == x;
                    assert(self.used@[k] == x);
                }
                if x == id {
                    assert(self.used@[used.len() as int] == x);
                }
            }
            assert(self.ever_stored() =~= known.insert(id));
            assert forall|k: int| 0 <= k < after.len() implies self.ever_stored().contains(
                (#[trigger] after[k]).id,
            ) by {
                if k < i {
                    assert(after[k] == before[k]);
                    assert(known.contains(before[k].id));
                } else if k > i {
                    assert(after[k] == before[k - 1]);
                    assert(known.contains(before[k - 1].id));
                }
            }
        }
        Ok(entry)
    }

    /// The index of the record with this id.
    fn position_of(&self, id: u128) -> (at: Option<usize>)
        requires
            self.wf(),
        ensures
            match at {
                Some(i) => i < self@.len() && self@[i as int].id == id && self.rows@[i as int]@
                    == self@[i as int] && lookup(self@, id) == Some(self@[i as int]),
                None => !has_id(self@, id) && lookup(self@, id) is None,
            },
            self@.len() == self.rows@.len(),
    {
        let mut i: usize = 0;
        while i < self.rows.len()
            invariant
                self.wf(),
                i <= self.rows.len(),
                forall|k: int| 0 <= k < i ==> (#[trigger] self@[k]).id != id,
            decreases self.rows.len() - i,
        {
            if self.rows[i].id == id {
                proof {
                    assert(self@[i as int].id == id);
                    assert(has_id(self@, id));
                    let j = choose|j: int| 0 <= j < self@.len() && (#[trigger] self@[j]).id == id;
                    assert(j == i) by {
                        if i < j {
                            assert(self@[i as int].id != self@[j].id);
                        }
                    }
                }
                return Some(i);
            }
            i = i + 1;
        }
        None
    }

    /// The record with this id, if the store holds one.
    pub fn get_log_by_id(&self, log_id: u128) -> (r: Result<Option<LogEntry>, StoreError>)
        requires
            self.wf(),
        ensures
            r matches Ok(found) && match found {
                Some(entry) => lookup(self@, log_id) == Some(entry@),
                None => lookup(self@, log_id) is None,
            },
    {
        match self.position_of(log_id) {
            Some(i) => Ok(Some(self.rows[i].clone())),
            None => Ok(None),
        }
    }

    /// Writes the end of a record's anchoring: its reference, its status and
    /// the time of the change. The store does not ask what the status was.
    ///
    /// Fails, and changes nothing, where no record has this id.
    pub fn update_log_tx_signature(
        &mut self,
        log_id: u128,
        tx_signature: Option<String>,
        status: AnchorStatus,
        now: i64,
    ) -> (r: Result<(), StoreError>)
        requires
            old(self).wf(),
        ensures
            final(self).wf(),
            final(self).ever_stored() == old(self).ever_stored(),
            match r {
                Ok(_) => has_id(old(self)@, log_id) && final(self)@ == with_status(
                    old(self)@,
                    log_id,
                    text_of(tx_signature),
                    status,
                    now,
                ),
                Err(e) => e == StoreError::NotFound && !has_id(old(self)@, log_id) && final(self)@
                    == old(self)@,
            },
    {
        match self.position_of(log_id) {
            None => Err(StoreError::NotFound),
            Some(i) => {
                let ghost before = self@;
                let row = &self.rows[i];
                let updated = LogEntry {
                    id: row.id,
                    event_type: row.event_type.clone(),
                    severity: row.severity.clone(),
                    data: row.data.clone(),
                    hash: row.hash.clone(),
                    tx_signature,
                    blockchain_status: status,
                    created_at: row.created_at,
                    updated_at: now,
                };
                self.rows.set(i, updated);
                proof {
                    let after = record_views(self.rows@);
                    let expected = with_status(before, log_id, text_of(tx_signature), status, now);
                    assert(has_id(before, log_id));
                    assert forall|k: int| 0 <= k < before.len() implies after[k] == expected[k] by {
                        if k < i {
                            assert(before[k].id != before[i as int].id);
                        } else if k > i {
                            assert(before[i as int].id != before[k].id);
                        }
                    }
                    assert(after =~= expected);
                    assert forall|a: int, b: int| 0 <= a < b < after.len() implies precedes(
                        #[trigger] after[a],
                        #[trigger] after[b],
                    ) && after[a].id != after[b].id by {
                        assert(precedes(before[a], before[b]));
                        assert(before[a].id != before[b].id);
                    }
                }
                Ok(())
            },
        }
    }

    /// One page of the records that pass the filters of a listing, newest
    /// first, and the number of all records that pass them.
    ///
    /// The page size is 100 where none is named and at most 1000; the page
    /// starts at the newest record where no offset is named. A negative
    /// limit or offset is refused.
    pub fn query_logs(&self, params: &LogQueryParams) -> (r: Result<(Vec<LogEntry>, i64), StoreError>)
        requires
            self.wf(),
        ensures
            match r {
                Ok((page, total)) => {
                    &&& page_limit(params.limit) >= 0
                    &&& page_offset(params.offset) >= 0
                    &&& total == matching(self@, params.filter()).len()
                    &&& record_views(page@) == page_of(
                        matching(self@, params.filter()),
                        page_limit(params.limit) as int,
                        page_offset(params.offset) as int,
                    )
                    &&& newest_first(record_views(page@))
                },
                Err(e) => e == StoreError::InvalidPage && (page_limit(params.limit) < 0
                    || page_offset(params.offset) < 0),
            },
    {
        let plan = QueryPlan::new(params);
        if plan.limit < 0 || plan.offset < 0 {
            return Err(StoreError::InvalidPage);
        }
        let ghost filter = params.filter();
        let ghost limit = plan.limit as int;
        let ghost offset = plan.offset as int;
        let mut page: Vec<LogEntry> = Vec::new();
        let mut total: i64 = 0;
        let mut i: usize = 0;
        proof {
            assert(self@.take(0) =~= Seq::<LogRecord>::empty());
            reveal(Seq::filter);
            assert(record_views(page@) =~= page_of(matching(self@.take(0), filter), limit, offset));
        }
        while i < self.rows.len()
            invariant
                self.wf(),
                self@.len() == self.rows@.len(),
                self@ == record_views(self.rows@),
                plan.plans(*params),
                filter == params.filter(),
                limit == plan.limit,
                offset == plan.offset,
                0 <= limit,
                0 <= offset,
                i <= self.rows.len(),
                0 <= total <= i,
                total == matching(self@.take(i as int), filter).len(),
                record_views(page@) == page_of(
                    matching(self@.take(i as int), filter),
                    limit,
                    offset,
                ),
            decreases self.rows.len() - i,
        {
            let ghost found = matching(self@.take(i as int), filter);
            let row = &self.rows[i];
            let accepted = plan.accepts(row);
            proof {
                lemma_conditions_match(filter, row@);
                reveal(Seq::filter);
                assert(self@.take(i + 1).drop_last() =~= self@.take(i as int));
                assert(self@.take(i + 1).last() == row@);
                assert(accepted == wanted(filter)(row@));
            }
            if accepted {
                if total >= plan.offset && (page.len() as u64) < (plan.limit as u64) {
                    let ghost shown = record_views(page@);
                    assert(shown.len() == page@.len());
                    page.push(row.clone());
                    proof {
                        let longer = found.push(row@);
                        assert(record_views(page@) =~= shown.push(row@));
                        assert(page_of(longer, limit, offset).len() == shown.len() + 1);
                        assert(page_of(longer, limit, offset) =~= shown.push(row@));
                    }
                } else {
                    proof {
                        let longer = found.push(row@);
                        assert(record_views(page@).len() == page@.len());
                        assert(page_of(found, limit, offset).len() == page@.len());
                        assert(page_of(longer, limit, offset).len() == page@.len());
                        assert(record_views(page@) =~= page_of(longer, limit, offset));
                    }
                }
                total = total + 1;
            }
            i = i + 1;
        }
        proof {
            assert(self@.take(i as int) =~= self@);
            let found = matching(self@, filter);
            lemma_filter_well_formed(self@, wanted(filter));
            let shown = record_views(page@);
            assert forall|a: int, b: int| 0 <= a < b < shown.len() implies precedes(
                #[trigger] shown[a],
                #[trigger] shown[b],
            ) by {
                let from = if offset < found.len() {
                    offset
                } else {
                    found.len() as int
                };
                assert(shown[a] == found[from + a]);
                assert(shown[b] == found[from + b]);
            }
        }
        Ok((page, total))
    }

    /// Removes every record that was created more than `days` days before
    /// `now`, whatever its status, and returns how many were removed.
    pub fn delete_logs_older_than(&mut self, days: i64, now: i64) -> (r: Result<u64, StoreError>)
        requires
            old(self).wf(),
        ensures
            final(self).wf(),
            final(self)@ == old(self)@.filter(recent(cutoff(now, days))),
            final(self).ever_stored() == old(self).ever_stored(),
            r matches Ok(removed) && removed == old(self)@.len() - final(self)@.len(),
    {
        let limit: i128 = now as i128 - (days as i128) * (MICROS_PER_DAY as i128);
        let ghost before = self@;
        let ghost keep = recent(cutoff(now, days));
        let mut kept: Vec<LogEntry> = Vec::new();
        let mut removed: u64 = 0;
        let mut i: usize = 0;
        proof {
            assert(before.take(0) =~= Seq::<LogRecord>::empty());
            reveal(Seq::filter);
            assert(record_views(kept@) =~= before.take(0).filter(keep));
        }
        while i < self.rows.len()
            invariant
                self.wf(),
                before == self@,
                before == record_views(self.rows@),
                keep == recent(cutoff(now, days)),
                limit == cutoff(now, days),
                i <= self.rows.len(),
                record_views(kept@) == before.take(i as int).filter(keep),
                removed + kept@.len() == i,
            decreases self.rows.len() - i,
        {
            let row = &self.rows[i];
            proof {
                reveal(Seq::filter);
                assert(before.take(i + 1).drop_last() =~= before.take(i as int));
                assert(before.take(i + 1).last() == row@);
            }
            if (row.created_at as i128) >= limit {
                kept.push(row.clone());
                assert(record_views(kept@) =~= before.take(i + 1).filter(keep));
            } else {
                removed = removed + 1;
            }
            i = i + 1;
        }
        proof {
            assert(before.take(i as int) =~= before);
            lemma_filter_well_formed(before, keep);
            let after = before.filter(keep);
            assert forall|k: int| 0 <= k < after.len() implies self.ever_stored().contains(
                (#[trigger] after[k]).id,
            ) by {
                lemma_filter_subset(before, keep, k);
                let origin = choose|j: int| 0 <= j < before.len() && #[trigger] before[j] == after[k];
                assert(self.ever_stored().contains(before[origin].id));
            }
        }
        self.rows = kept;
        Ok(removed)
    }

    /// The number of records with a status, or of all records for `None`.
    pub fn count_logs(&self, status: Option<AnchorStatus>) -> (n: i64)
        requires
            self.wf(),
        ensures
            n == self@.filter(in_status(status)).len(),
    {
        let ghost keep = in_status(status);
        let mut n: i64 = 0;
        let mut i: usize = 0;
        proof {
            assert(self@.take(0) =~= Seq::<LogRecord>::empty());
            reveal(Seq::filter);
        }
        while i < self.rows.len()
            invariant
                self.wf(),
                self@ == record_views(self.rows@),
                keep == in_status(status),
                i <= self.rows.len(),
                0 <= n <= i,
                n == self@.take(i as int).filter(keep).len(),
            decreases self.rows.len() - i,
        {
            let row = &self.rows[i];
            proof {
                reveal(Seq::filter);
                assert(self@.take(i + 1).drop_last() =~= self@.take(i as int));
                assert(self@.take(i + 1).last() == row@);
            }
            let counted = match status {
                Some(s) => row.blockchain_status == s,
                None => true,
            };
            if counted {
                n = n + 1;
            }
            i = i + 1;
        }
        assert(self@.take(i as int) =~= self@);
        n
    }
}

} // verus!
