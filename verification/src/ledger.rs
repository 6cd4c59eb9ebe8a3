//! The ledger of fallback download attempts: at most one record per
//! extension identifier, replaced on a new attempt and marked when the
//! attempt has ended.

use vstd::prelude::*;
use crate::host::current_timestamp;

verus! {

/// One attempt to fetch an extension from the secondary registry.
#[derive(Clone, Debug, PartialEq, Eq)]
pub struct DownloadRecord {
    /// The extension's identifier: the key of the ledger.
    pub identifier: String,
    pub lookup_url: String,
    pub resolved_asset_url: String,
    pub destination_path: String,
    pub file_name: String,
    pub version: Option<String>,
    /// When the record was written or last marked, as RFC 3339 text.
    pub last_updated: String,
    pub succeeded: bool,
}

/// The mathematical content of a [`DownloadRecord`].
pub ghost struct RecordModel {
    pub identifier: Seq<char>,
    pub lookup_url: Seq<char>,
    pub resolved_asset_url: Seq<char>,
    pub destination_path: Seq<char>,
    pub file_name: Seq<char>,
    pub version: Option<Seq<char>>,
    pub last_updated: Seq<char>,
    pub succeeded: bool,
}

impl View for DownloadRecord {
    type V = RecordModel;

    open spec fn view(&self) -> RecordModel {
        RecordModel {
            identifier: self.identifier@,
            lookup_url: self.lookup_url@,
            resolved_asset_url: self.resolved_asset_url@,
            destination_path: self.destination_path@,
            file_name: self.file_name@,
            version: self.version.deep_view(),
            last_updated: self.last_updated@,
            succeeded: self.succeeded,
        }
    }
}

/// The models of a sequence of records, in the same order.
pub open spec fn models(records: Seq<DownloadRecord>) -> Seq<RecordModel> {
    records.map_values(|r: DownloadRecord| r@)
}

/// Some record of `ledger` has the identifier `id`.
pub open spec fn holds(ledger: Seq<RecordModel>, id: Seq<char>) -> bool {
    exists|i: int| 0 <= i < ledger.len() && (#[trigger] ledger[i]).identifier == id
}

/// No identifier occurs twice in `ledger`.
pub open spec fn unique_identifiers(ledger: Seq<RecordModel>) -> bool {
    forall|i: int, j: int|
        0 <= i < j < ledger.len() ==> (#[trigger] ledger[i]).identifier != (
        #[trigger] ledger[j]).identifier
}

/// `i` is the position of the first record of `ledger` with identifier `id`.
pub open spec fn is_first_position(ledger: Seq<RecordModel>, id: Seq<char>, i: int) -> bool {
    &&& 0 <= i < ledger.len()
    &&& ledger[i].identifier == id
    &&& forall|j: int| 0 <= j < i ==> (#[trigger] ledger[j]).identifier != id
}

/// The position of the first record with identifier `id`, where there is one.
pub open spec fn first_position(ledger: Seq<RecordModel>, id: Seq<char>) -> int {
    choose|i: int| is_first_position(ledger, id, i)
}

/// The records of `ledger` with an identifier other than `id`, in order.
pub open spec fn without(ledger: Seq<RecordModel>, id: Seq<char>) -> Seq<RecordModel> {
    ledger.filter(|r: RecordModel| r.identifier != id)
}

/// The records of `ledger` with the identifier `id`, in order.
pub open spec fn entries_of(ledger: Seq<RecordModel>, id: Seq<char>) -> Seq<RecordModel> {
    ledger.filter(|r: RecordModel| r.identifier == id)
}

/// `ledger` after `record` has taken the place of every record with its
/// identifier: those are dropped, and `record` is appended.
pub open spec fn upserted(ledger: Seq<RecordModel>, record: RecordModel) -> Seq<RecordModel> {
    without(ledger, record.identifier).push(record)
}

/// `record` with a new outcome, marked at `now`.
pub open spec fn marked(record: RecordModel, succeeded: bool, now: Seq<char>) -> RecordModel {
    RecordModel { succeeded, last_updated: now, ..record }
}

/// `ledger` after the first record with identifier `id` has been marked;
/// `ledger` itself where there is none.
pub open spec fn with_status(
    ledger: Seq<RecordModel>,
    id: Seq<char>,
    succeeded: bool,
    now: Seq<char>,
) -> Seq<RecordModel> {
    if holds(ledger, id) {
        let i = first_position(ledger, id);
        ledger.update(i, marked(ledger[i], succeeded, now))
    } else {
        ledger
    }
}

/// What was found where the ledger is kept.
#[derive(Clone, Debug, PartialEq, Eq)]
pub enum StoredLedger {
    /// Nothing is stored yet.
    Absent,
    /// Something is stored that is no list of records; `detail` says why.
    Unreadable { detail: String },
    /// The stored records.
    Records(Vec<DownloadRecord>),
}

/// The stored ledger is no list of records.
#[derive(Clone, Debug, PartialEq, Eq)]
pub struct LedgerCorruption {
    /// Why the stored content could not be read as records.
    pub detail: String,
}

/// The records that a lenient reader takes from `stored`.
pub open spec fn lenient_content(stored: StoredLedger) -> Seq<RecordModel> {
    match stored {
        StoredLedger::Records(records) => models(records@),
        _ => Seq::empty(),
    }
}

/// The ledger of download attempts.
///
/// A ledger that starts empty never holds two records with one identifier:
/// [`unique_identifiers`] is kept by every operation. Stored records are
/// taken as they are found, and an upsert leaves exactly one record for the
/// identifier it is given, whatever was stored for it.
#[derive(Debug)]
pub struct Ledger {
    records: Vec<DownloadRecord>,
}

impl View for Ledger {
    type V = Seq<RecordModel>;

    closed spec fn view(&self) -> Seq<RecordModel> {
        models(self.records@)
    }
}

impl Ledger {
    /// The empty ledger.
    pub fn new() -> (ledger: Ledger)
        ensures
            ledger@ == Seq::<RecordModel>::empty(),
            unique_identifiers(ledger@),
    {
        let ledger = Ledger { records: Vec::new() };
        assert(ledger@ =~= Seq::<RecordModel>::empty());
        ledger
    }

    /// A ledger of the given records, in their order.
    pub fn from_records(records: Vec<DownloadRecord>) -> (ledger: Ledger)
        ensures
            ledger@ == models(records@),
    {
        Ledger { records }
    }

    /// The ledger to upsert into: what is stored, or the empty ledger where
    /// nothing readable is stored.
    pub fn open_lenient(stored: StoredLedger) -> (ledger: Ledger)
        ensures
            ledger@ == lenient_content(stored),
    {
        match stored {
            StoredLedger::Records(records) => Ledger::from_records(records),
            _ => Ledger::new(),
        }
    }

    /// The ledger to update a status in: what is stored, `None` where nothing
    /// is stored, and an error where the stored content is unreadable.
    pub fn open_strict(stored: StoredLedger) -> (result: Result<Option<Ledger>, LedgerCorruption>)
        ensures
            result is Err <==> stored is Unreadable,
            result matches Err(error) ==> error.detail == stored->detail,
            stored is Absent ==> result == Ok::<Option<Ledger>, LedgerCorruption>(None),
            stored matches StoredLedger::Records(records) ==> (result matches Ok(Some(ledger))
                && ledger@ == models(records@)),
    {
        match stored {
            StoredLedger::Absent => Ok(None),
            StoredLedger::Unreadable { detail } => Err(LedgerCorruption { detail }),
            StoredLedger::Records(records) => Ok(Some(Ledger::from_records(records))),
        }
    }

    /// The records, in order.
    pub fn records(&self) -> (records: &Vec<DownloadRecord>)
        ensures
            models(records@) == self@,
    {
        &self.records
    }

    /// The number of records.
    pub fn len(&self) -> (n: usize)
        ensures
            n == self@.len(),
    {
        self.records.len()
    }

    /// The position of the first record with the given identifier.
    pub fn position(&self, identifier: &str) -> (found: Option<usize>)
        ensures
            found is Some <==> holds(self@, identifier@),
            found matches Some(i) ==> is_first_position(self@, identifier@, i as int),
    {
        let mut i: usize = 0;
        while i < self.records.len()
            invariant
                i <= self.records.len(),
                forall|j: int| 0 <= j < i ==> (#[trigger] self@[j]).identifier != identifier@,
            decreases self.records.len() - i,
        {
            if self.records[i].identifier.as_str().eq(identifier) {
                assert(self@[i as int].identifier == identifier@);
                return Some(i);
            }
            i += 1;
        }
        None
    }

    /// The first record with the given identifier.
    pub fn get(&self, identifier: &str) -> (found: Option<&DownloadRecord>)
        ensures
            found is Some <==> holds(self@, identifier@),
            found matches Some(record) ==> record@ == self@[first_position(self@, identifier@)],
    {
        match self.position(identifier) {
            Some(i) => Some(&self.records[i]),
            None => None,
        }
    }

    /// Puts `record` in the place of whatever the ledger holds for its
    /// identifier: every record with that identifier is dropped, the others
    /// keep their order, and `record` becomes the last.
    pub fn upsert(&mut self, record: DownloadRecord)
        ensures
            final(self)@ == upserted(old(self)@, record@),
            entries_of(final(self)@, record@.identifier) == seq![record@],
            unique_identifiers(old(self)@) ==> unique_identifiers(final(self)@),
    {
        let ghost before = self@;
        let ghost id = record@.identifier;
        let ghost keep = |r: RecordModel| r.identifier != id;
        let ghost done: int = 0;
        let mut i: usize = 0;
        while i < self.records.len()
            invariant
                0 <= done <= before.len(),
                i <= self.records.len(),
                id == record@.identifier,
                keep == |r: RecordModel| r.identifier != id,
                self@ == before.take(done).filter(keep) + before.skip(done),
                i == before.take(done).filter(keep).len(),
            decreases before.len() - done,
        {
            proof {
                assert(before.take(done + 1) =~= before.take(done).push(before[done]));
                before.take(done).lemma_filter_push(before[done], keep);
                assert(self@[i as int] == before[done]);
            }
            if self.records[i].identifier.as_str().eq(record.identifier.as_str()) {
                let ghost previous = self.records@;
                self.records.remove(i);
                proof {
                    assert(models(self.records@) =~= models(previous).remove(i as int));
                    assert(self@ =~= before.take(done + 1).filter(keep) + before.skip(done + 1));
                }
            } else {
                proof {
                    assert(self@ =~= before.take(done + 1).filter(keep) + before.skip(done + 1));
                }
                i += 1;
            }
            proof {
                done = done + 1;
            }
        }
        proof {
            assert(before.take(done) =~= before);
            assert(self@ =~= without(before, id));
        }
        let ghost previous = self.records@;
        self.records.push(record);
        proof {
            assert(models(self.records@) =~= models(previous).push(record@));
            lemma_upserted_entry(before, record@);
            if unique_identifiers(before) {
                lemma_upsert_keeps_unique(before, record@);
            }
        }
    }

    /// Marks the record at position `i`.
    fn mark(&mut self, i: usize, succeeded: bool, now: String)
        requires
            i < old(self)@.len(),
        ensures
            final(self)@ == old(self)@.update(i as int, marked(old(self)@[i as int], succeeded, now@)),
    {
        self.records[i].succeeded = succeeded;
        self.records[i].last_updated = now;
        assert(self@ =~= old(self)@.update(i as int, marked(old(self)@[i as int], succeeded, now@)));
    }

    /// Marks the first record with the given identifier: its outcome becomes
    /// `succeeded` and it counts as updated at `now`. A ledger without such a
    /// record stays as it is.
    pub fn update_status_at(&mut self, identifier: &str, succeeded: bool, now: String) -> (found:
        bool)
        ensures
            found == holds(old(self)@, identifier@),
            final(self)@ == with_status(old(self)@, identifier@, succeeded, now@),
            !found ==> final(self)@ == old(self)@,
            unique_identifiers(old(self)@) ==> unique_identifiers(final(self)@),
    {
        proof {
            lemma_status_keeps_identifiers(self@, identifier@, succeeded, now@);
        }
        match self.position(identifier) {
            Some(i) => {
                self.mark(i, succeeded, now);
                true
            },
            None => false,
        }
    }

    /// Marks the first record with the given identifier as ended with
    /// `succeeded`, at the current time. A ledger without such a record stays
    /// as it is, and the clock is not read.
    pub fn update_status(&mut self, identifier: &str, succeeded: bool) -> (found: bool)
        ensures
            found == holds(old(self)@, identifier@),
            found ==> final(self)@ == with_status(
                old(self)@,
                identifier@,
                succeeded,
                final(self)@[first_position(old(self)@, identifier@)].last_updated,
            ),
            !found ==> final(self)@ == old(self)@,
            unique_identifiers(old(self)@) ==> unique_identifiers(final(self)@),
    {
        match self.position(identifier) {
            Some(i) => {
                let now = current_timestamp();
                proof {
                    lemma_status_keeps_identifiers(self@, identifier@, succeeded, now@);
                }
                self.mark(i, succeeded, now);
                true
            },
            None => false,
        }
    }
}

/// After an upsert the ledger holds exactly one record for the identifier:
/// the one that was put in.
pub proof fn lemma_upserted_entry(ledger: Seq<RecordModel>, record: RecordModel)
    ensures
        entries_of(upserted(ledger, record), record.identifier) == seq![record],
{
    let id = record.identifier;
    let keep = |r: RecordModel| r.identifier != id;
    let same = |r: RecordModel| r.identifier == id;
    let rest = ledger.filter(keep);
    rest.lemma_filter_push(record, same);
    assert(rest.filter(same) =~= Seq::<RecordModel>::empty()) by {
        lemma_filter_exclusive(ledger, id);
    }
    assert(rest.push(record).filter(same) =~= seq![record]);
}

/// Among the records with another identifier than `id`, none has `id`.
proof fn lemma_filter_exclusive(ledger: Seq<RecordModel>, id: Seq<char>)
    ensures
        entries_of(without(ledger, id), id).len() == 0,
{
    let keep = |r: RecordModel| r.identifier != id;
    let same = |r: RecordModel| r.identifier == id;
    let rest = ledger.filter(keep);
    let twice = rest.filter(same);
    if twice.len() > 0 {
        rest.lemma_filter_pred(same, 0);
        rest.lemma_filter_contains_rev(same, twice[0]);
        ledger.lemma_filter_contains_rev(keep, twice[0]);
    }
}

/// An upsert into a ledger without repeated identifiers leaves none.
pub proof fn lemma_upsert_keeps_unique(ledger: Seq<RecordModel>, record: RecordModel)
    requires
        unique_identifiers(ledger),
    ensures
        unique_identifiers(upserted(ledger, record)),
{
    let id = record.identifier;
    let keep = |r: RecordModel| r.identifier != id;
    let rest = ledger.filter(keep);
    lemma_filter_keeps_unique(ledger, keep);
    let after = rest.push(record);
    assert forall|i: int, j: int| 0 <= i < j < after.len() implies (#[trigger] after[i]).identifier
        != (#[trigger] after[j]).identifier by {
        if j == rest.len() {
            ledger.lemma_filter_pred(keep, i);
        }
    }
}

/// A selection from a ledger without repeated identifiers has none.
proof fn lemma_filter_keeps_unique(ledger: Seq<RecordModel>, keep: spec_fn(RecordModel) -> bool)
    requires
        unique_identifiers(ledger),
    ensures
        unique_identifiers(ledger.filter(keep)),
    decreases ledger.len(),
{
    reveal(Seq::filter);
    if ledger.len() > 0 {
        let front = ledger.drop_last();
        lemma_filter_keeps_unique(front, keep);
        let kept = front.filter(keep);
        if keep(ledger.last()) {
            let after = kept.push(ledger.last());
            assert forall|i: int, j: int| 0 <= i < j < after.len() implies (
            #[trigger] after[i]).identifier != (#[trigger] after[j]).identifier by {
                if j == kept.len() {
                    front.lemma_filter_contains_rev(keep, kept[i]);
                    let k = choose|k: int| 0 <= k < front.len() && front[k] == kept[i];
                    assert(ledger[k].identifier != ledger[ledger.len() - 1].identifier);
                }
            }
        }
    }
}

/// Two upserts for one identifier leave what the second alone would have
/// left: exactly one record for that identifier, the second.
pub proof fn lemma_upsert_twice(ledger: Seq<RecordModel>, first: RecordModel, second: RecordModel)
    requires
        first.identifier == second.identifier,
    ensures
        upserted(upserted(ledger, first), second) == upserted(ledger, second),
        entries_of(upserted(upserted(ledger, first), second), second.identifier) == seq![second],
{
    let id = second.identifier;
    let keep = |r: RecordModel| r.identifier != id;
    let rest = ledger.filter(keep);
    rest.lemma_filter_push(first, keep);
    lemma_filter_idempotent(ledger, keep);
    assert(upserted(ledger, first).filter(keep) =~= rest);
    lemma_upserted_entry(upserted(ledger, first), second);
}

/// Selecting twice by one predicate is selecting once.
proof fn lemma_filter_idempotent(ledger: Seq<RecordModel>, keep: spec_fn(RecordModel) -> bool)
    ensures
        ledger.filter(keep).filter(keep) == ledger.filter(keep),
    decreases ledger.len(),
{
    reveal(Seq::filter);
    if ledger.len() > 0 {
        let front = ledger.drop_last();
        lemma_filter_idempotent(front, keep);
        if keep(ledger.last()) {
            front.filter(keep).lemma_filter_push(ledger.last(), keep);
        }
    }
}

/// Marking a status changes neither the number of records nor any
/// identifier, and so keeps a ledger free of repeated identifiers.
pub proof fn lemma_status_keeps_identifiers(
    ledger: Seq<RecordModel>,
    id: Seq<char>,
    succeeded: bool,
    now: Seq<char>,
)
    ensures
        with_status(ledger, id, succeeded, now).len() == ledger.len(),
        forall|i: int|
            0 <= i < ledger.len() ==> (#[trigger] with_status(
                ledger,
                id,
                succeeded,
                now,
            )[i]).identifier == ledger[i].identifier,
        unique_identifiers(ledger) ==> unique_identifiers(with_status(ledger, id, succeeded, now)),
{
    if holds(ledger, id) {
        lemma_first_position(ledger, id);
    }
}

/// A ledger that holds `id` has a first record with it.
pub proof fn lemma_first_position(ledger: Seq<RecordModel>, id: Seq<char>)
    requires
        holds(ledger, id),
    ensures
        is_first_position(ledger, id, first_position(ledger, id)),
{
    let some = choose|i: int| 0 <= i < ledger.len() && (#[trigger] ledger[i]).identifier == id;
    lemma_first_before(ledger, id, some);
}

/// A record with `id` at position `at` has a first record with `id` at or
/// before it.
proof fn lemma_first_before(ledger: Seq<RecordModel>, id: Seq<char>, at: int)
    requires
        0 <= at < ledger.len(),
        ledger[at].identifier == id,
    ensures
        exists|i: int| is_first_position(ledger, id, i),
    decreases at,
{
    if exists|j: int| 0 <= j < at && (#[trigger] ledger[j]).identifier == id {
        let j = choose|j: int| 0 <= j < at && (#[trigger] ledger[j]).identifier == id;
        lemma_first_before(ledger, id, j);
    } else {
        assert(is_first_position(ledger, id, at));
    }
}

} // verus!
