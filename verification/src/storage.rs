//! The storage of a collection: its review log, cards and notes, each a
//! table of rows by id, with the registry of tags and the collection's own
//! sequence number.

use crate::card::Card;
use crate::card::CardRow;
use crate::notes::Note;
use crate::matcher::TagPredicate;
use crate::notes::NoteRow;
use crate::notes::NoteTags;
use crate::notes::NoteTagsRow;
use crate::revlog::RevlogEntry;
use crate::revlog::RevlogRow;
use crate::revlog::RevlogTags;
use crate::revlog::RevlogTagsRow;
use crate::table::Table;
use crate::tags::find_tag;
use crate::tags::first_named;
use crate::tags::has_tag_named;
use crate::tags::is_first_named;
use crate::tags::join_tags;
use crate::tags::join_tags_spec;
use crate::tags::lemma_first_named;
use crate::tags::split_tags;
use crate::tags::split_tags_spec;
use crate::tags::tag_rows;
use crate::tags::Tag;
use crate::tags::TagRow;
use crate::text::eq_ignore_case;
use crate::types::spec_is_pending_sync;
use crate::types::CardId;
use crate::types::NoteId;
use crate::types::NotetypeId;
use crate::types::RevlogId;
use crate::types::Usn;
use vstd::prelude::*;

verus! {

/// A row that carries an update sequence number.
pub trait SyncedRow: View + Sized {
    /// The sequence number of a row.
    spec fn usn_of(row: Self::V) -> Usn;

    /// The row with another sequence number and nothing else changed.
    spec fn with_usn(row: Self::V, usn: Usn) -> Self::V;

    /// Giving a row the same number twice is giving it once, and the row
    /// then carries that number.
    proof fn lemma_with_usn(row: Self::V, usn: Usn)
        ensures
            Self::with_usn(Self::with_usn(row, usn), usn) == Self::with_usn(row, usn),
            Self::usn_of(Self::with_usn(row, usn)) == usn,
            Self::with_usn(row, Self::usn_of(row)) == row,
    ;

    /// The sequence number of this row.
    fn row_usn(&self) -> (usn: Usn)
        ensures
            usn == Self::usn_of(self@),
    ;

    /// A copy of this row that carries `usn`.
    fn copy_with_usn(&self, usn: Usn) -> (copy: Self)
        ensures
            copy@ == Self::with_usn(self@, usn),
    ;
}

impl SyncedRow for RevlogEntry {
    open spec fn usn_of(row: RevlogRow) -> Usn {
        row.usn
    }

    open spec fn with_usn(row: RevlogRow, usn: Usn) -> RevlogRow {
        RevlogRow { usn, ..row }
    }

    proof fn lemma_with_usn(row: RevlogRow, usn: Usn) {
    }

    fn row_usn(&self) -> (usn: Usn) {
        self.usn
    }

    fn copy_with_usn(&self, usn: Usn) -> (copy: RevlogEntry) {
        let mut copy = self.duplicate();
        copy.usn = usn;
        copy
    }
}

impl SyncedRow for Card {
    open spec fn usn_of(row: CardRow) -> Usn {
        row.usn
    }

    open spec fn with_usn(row: CardRow, usn: Usn) -> CardRow {
        CardRow { usn, ..row }
    }

    proof fn lemma_with_usn(row: CardRow, usn: Usn) {
    }

    fn row_usn(&self) -> (usn: Usn) {
        self.usn
    }

    fn copy_with_usn(&self, usn: Usn) -> (copy: Card) {
        let mut copy = self.duplicate();
        copy.usn = usn;
        copy
    }
}

impl SyncedRow for Note {
    open spec fn usn_of(row: NoteRow) -> Usn {
        row.usn
    }

    open spec fn with_usn(row: NoteRow, usn: Usn) -> NoteRow {
        NoteRow { usn, ..row }
    }

    proof fn lemma_with_usn(row: NoteRow, usn: Usn) {
    }

    fn row_usn(&self) -> (usn: Usn) {
        self.usn
    }

    fn copy_with_usn(&self, usn: Usn) -> (copy: Note) {
        let mut copy = self.duplicate();
        copy.usn = usn;
        copy
    }
}

/// The test of a row for being pending relative to `pending_usn`.
pub open spec fn pending_row<T: SyncedRow>(pending_usn: Usn) -> spec_fn(T::V) -> bool {
    |row: T::V| spec_is_pending_sync(T::usn_of(row).0 as int, pending_usn.0 as int)
}

/// The ids of the rows of `table` that are pending relative to
/// `pending_usn`, in the table's order.
pub fn pending_ids<T: SyncedRow>(table: &Table<T>, pending_usn: Usn) -> (ids: Vec<i64>)
    requires
        table.wf(),
    ensures
        ids@ == table.ids_where(pending_row::<T>(pending_usn)),
{
    let ghost keeps = pending_row::<T>(pending_usn);
    let mut ids: Vec<i64> = Vec::new();
    let n = table.len();
    let mut i: usize = 0;
    proof {
        table.lemma_no_ids_where(keeps);
    }
    while i < n
        invariant
            table.wf(),
            n == table.ids().len(),
            i <= n,
            keeps == pending_row::<T>(pending_usn),
            ids@ == table.first_ids_where(keeps, i as int),
        decreases n - i,
    {
        proof {
            table.lemma_first_ids_where(keeps, i as int);
        }
        if table.row_at(i).row_usn().is_pending_sync(pending_usn) {
            ids.push(table.id_at(i));
        }
        i += 1;
    }
    ids
}

/// Every id of `ids` has a row in `rows`.
pub open spec fn all_stored<V>(rows: Map<i64, V>, ids: Seq<i64>) -> bool {
    forall|j: int| 0 <= j < ids.len() ==> rows.contains_key(#[trigger] ids[j])
}

/// The first id of `ids` that has no row in `table`, if there is one.
pub fn find_missing<T: View>(table: &Table<T>, ids: &Vec<i64>) -> (missing: Option<i64>)
    requires
        table.wf(),
    ensures
        missing is None <==> all_stored(table@, ids@),
        missing matches Some(id) ==> ids@.contains(id) && !table@.contains_key(id),
{
    let mut i: usize = 0;
    while i < ids.len()
        invariant
            i <= ids.len(),
            table.wf(),
            forall|j: int| 0 <= j < i ==> table@.contains_key(#[trigger] ids@[j]),
        decreases ids.len() - i,
    {
        if !table.contains(ids[i]) {
            return Some(ids[i]);
        }
        i += 1;
    }
    None
}

/// The row as it is sent: with the sequence number `usn`, where one is
/// given, in place of its own.
pub open spec fn sent_row<T: SyncedRow>(row: T::V, usn: Option<Usn>) -> T::V {
    match usn {
        Some(usn) => T::with_usn(row, usn),
        None => row,
    }
}

/// A copy of `row` as it is sent.
pub fn copy_to_send<T: SyncedRow>(row: &T, usn: Option<Usn>) -> (copy: T)
    ensures
        copy@ == sent_row::<T>(row@, usn),
{
    proof {
        T::lemma_with_usn(row@, T::usn_of(row@));
    }
    match usn {
        Some(usn) => row.copy_with_usn(usn),
        None => row.copy_with_usn(row.row_usn()),
    }
}

/// Copies of the rows of `table` under `ids`, in the order of `ids`, as they
/// are sent.
pub fn rows_to_send<T: SyncedRow>(table: &Table<T>, ids: &Vec<i64>, usn: Option<Usn>) -> (rows:
    Vec<T>)
    requires
        table.wf(),
        all_stored(table@, ids@),
    ensures
        rows.len() == ids.len(),
        forall|j: int|
            0 <= j < rows.len() ==> (#[trigger] rows[j])@ == sent_row::<T>(table@[ids[j]], usn),
{
    let mut rows: Vec<T> = Vec::new();
    let mut i: usize = 0;
    while i < ids.len()
        invariant
            i <= ids.len(),
            table.wf(),
            all_stored(table@, ids@),
            rows.len() == i,
            forall|j: int|
                0 <= j < i ==> (#[trigger] rows[j])@ == sent_row::<T>(table@[ids[j]], usn),
        decreases ids.len() - i,
    {
        assert(table@.contains_key(ids@[i as int]));
        match table.get(ids[i]) {
            Some(row) => {
                rows.push(copy_to_send(row, usn));
            },
            None => {},
        }
        i += 1;
    }
    rows
}

/// The rows `rows`, with the sequence number `usn` given to those whose id
/// is among `ids`.
pub open spec fn rows_with_usn<T: SyncedRow>(
    rows: Map<i64, T::V>,
    ids: Seq<i64>,
    usn: Usn,
) -> Map<i64, T::V> {
    Map::new(
        |id: i64| rows.contains_key(id),
        |id: i64|
            if ids.contains(id) {
                T::with_usn(rows[id], usn)
            } else {
                rows[id]
            },
    )
}

/// Gives the sequence number `usn` to the rows of `table` whose id is among
/// `ids`. An id without a row is passed over.
pub fn assign_usn<T: SyncedRow>(table: &mut Table<T>, ids: &Vec<i64>, usn: Usn)
    requires
        old(table).wf(),
    ensures
        final(table).wf(),
        final(table).ids() == old(table).ids(),
        final(table)@ == rows_with_usn::<T>(old(table)@, ids@, usn),
{
    let ghost before = table@;
    let mut i: usize = 0;
    assert(table@ =~= rows_with_usn::<T>(before, ids@.take(0), usn));
    while i < ids.len()
        invariant
            i <= ids.len(),
            table.wf(),
            table.ids() == old(table).ids(),
            before == old(table)@,
            table@ == rows_with_usn::<T>(before, ids@.take(i as int), usn),
        decreases ids.len() - i,
    {
        let id = ids[i];
        let ghost sofar = table@;
        proof {
            assert(ids@.take(i + 1) =~= ids@.take(i as int).push(id));
            assert forall|k: i64| ids@.take(i + 1).contains(k) <==> (ids@.take(i as int).contains(k)
                || k == id) by {
                if ids@.take(i as int).contains(k) {
                    let j = ids@.take(i as int).index_of(k);
                    assert(ids@.take(i + 1)[j] == k);
                }
                if ids@.take(i + 1).contains(k) {
                    let j = ids@.take(i + 1).index_of(k);
                    if j < i {
                        assert(ids@.take(i as int)[j] == k);
                    }
                }
                assert(ids@.take(i + 1)[i as int] == id);
            }
        }
        let copy = match table.get(id) {
            Some(row) => Some(row.copy_with_usn(usn)),
            None => None,
        };
        match copy {
            Some(row) => {
                proof {
                    T::lemma_with_usn(before[id], usn);
                }
                table.put(id, row);
            },
            None => {},
        }
        assert(table@ =~= rows_with_usn::<T>(before, ids@.take(i + 1), usn));
        i += 1;
    }
    assert(ids@.take(i as int) =~= ids@);
}

/// How many ids behind a taken id are tried for a free one.
pub const PROBE_WINDOW: i64 = 1000;

/// The first id from `start` on under which `rows` holds nothing, where at
/// most `tries` ids are passed over; `start + tries` where all of those are
/// taken.
pub open spec fn first_free_id(rows: Map<i64, RevlogRow>, start: int, tries: nat) -> int
    decreases tries,
{
    if tries == 0 || !rows.contains_key(start as i64) {
        start
    } else {
        first_free_id(rows, start + 1, (tries - 1) as nat)
    }
}

/// How many ids can be passed over from `id` on: the probe window, cut short
/// at the largest id there is.
pub open spec fn probe_tries(id: i64) -> nat {
    if i64::MAX - id < PROBE_WINDOW {
        (i64::MAX - id) as nat
    } else {
        PROBE_WINDOW as nat
    }
}

/// The id under which an entry proposed under `id` is to be stored: `id`
/// itself, or with `uniquify` the first free id found by probing forward.
pub open spec fn insert_id(rows: Map<i64, RevlogRow>, id: i64, uniquify: bool) -> i64 {
    if uniquify {
        first_free_id(rows, id as int, probe_tries(id)) as i64
    } else {
        id
    }
}

/// The id found by probing forward is not before the start nor behind the
/// window, every id that was passed over is taken, and the id found is free
/// unless the whole window is taken.
pub proof fn lemma_first_free_id(rows: Map<i64, RevlogRow>, start: int, tries: nat)
    ensures
        start <= first_free_id(rows, start, tries) <= start + tries,
        forall|id: i64|
            start <= id < first_free_id(rows, start, tries) ==> #[trigger] rows.contains_key(id),
        first_free_id(rows, start, tries) < start + tries ==> !rows.contains_key(
            first_free_id(rows, start, tries) as i64,
        ),
    decreases tries,
{
    if tries == 0 || !rows.contains_key(start as i64) {
    } else {
        lemma_first_free_id(rows, start + 1, (tries - 1) as nat);
    }
}

/// The storage of a collection.
pub struct SqliteStorage {
    /// The review log, by entry id.
    pub revlog: Table<RevlogEntry>,
    /// The cards, by card id.
    pub cards: Table<Card>,
    /// The notes, by note id.
    pub notes: Table<Note>,
    /// The registry of tags.
    pub tags: Vec<Tag>,
    /// The notetypes that notes can be of.
    pub notetypes: Vec<NotetypeId>,
    /// The sequence number of the collection itself.
    pub usn: Usn,
    /// The version of the extended schema, once its record exists.
    pub ankimath_version: Option<u64>,
}

impl SqliteStorage {
    /// The tables are well formed, and each row is stored under its own id.
    pub open spec fn wf(&self) -> bool {
        &&& self.revlog.wf()
        &&& self.cards.wf()
        &&& self.notes.wf()
        &&& forall|id: i64| #[trigger]
            self.revlog@.contains_key(id) ==> self.revlog@[id].id == RevlogId(id)
        &&& forall|id: i64| #[trigger]
            self.cards@.contains_key(id) ==> self.cards@[id].id == CardId(id)
        &&& forall|id: i64| #[trigger]
            self.notes@.contains_key(id) ==> self.notes@[id].id == NoteId(id)
    }

    /// Everything but the review log is the same in `self` and `other`.
    pub open spec fn same_but_revlog(&self, other: &SqliteStorage) -> bool {
        &&& self.cards == other.cards
        &&& self.notes == other.notes
        &&& self.tags == other.tags
        &&& self.notetypes == other.notetypes
        &&& self.usn == other.usn
        &&& self.ankimath_version == other.ankimath_version
    }

    /// Everything but the cards is the same in `self` and `other`.
    pub open spec fn same_but_cards(&self, other: &SqliteStorage) -> bool {
        &&& self.revlog == other.revlog
        &&& self.notes == other.notes
        &&& self.tags == other.tags
        &&& self.notetypes == other.notetypes
        &&& self.usn == other.usn
        &&& self.ankimath_version == other.ankimath_version
    }

    /// Everything but the notes is the same in `self` and `other`.
    pub open spec fn same_but_notes(&self, other: &SqliteStorage) -> bool {
        &&& self.revlog == other.revlog
        &&& self.cards == other.cards
        &&& self.tags == other.tags
        &&& self.notetypes == other.notetypes
        &&& self.usn == other.usn
        &&& self.ankimath_version == other.ankimath_version
    }

    /// Everything but the registry of tags is the same in `self` and
    /// `other`.
    pub open spec fn same_but_tags(&self, other: &SqliteStorage) -> bool {
        &&& self.revlog == other.revlog
        &&& self.cards == other.cards
        &&& self.notes == other.notes
        &&& self.notetypes == other.notetypes
        &&& self.usn == other.usn
        &&& self.ankimath_version == other.ankimath_version
    }

    /// Everything but the rows of the three tables is the same in `self`
    /// and `other`, and so is the order of the ids.
    pub open spec fn same_but_rows(&self, other: &SqliteStorage) -> bool {
        &&& self.revlog.ids() == other.revlog.ids()
        &&& self.cards.ids() == other.cards.ids()
        &&& self.notes.ids() == other.notes.ids()
        &&& self.tags == other.tags
        &&& self.notetypes == other.notetypes
        &&& self.usn == other.usn
        &&& self.ankimath_version == other.ankimath_version
    }

    /// Whether the storage is well formed. A storage that was changed by
    /// its own functions alone always is.
    pub fn is_consistent(&self) -> (ok: bool)
        ensures
            ok == self.wf(),
    {
        if !(self.revlog.is_consistent() && self.cards.is_consistent()
            && self.notes.is_consistent()) {
            return false;
        }
        let mut i: usize = 0;
        while i < self.revlog.len()
            invariant
                self.revlog.wf(),
                self.cards.wf(),
                self.notes.wf(),
                i <= self.revlog.ids().len(),
                forall|k: int|
                    0 <= k < i ==> self.revlog@[#[trigger] self.revlog.ids()[k]].id == RevlogId(
                        self.revlog.ids()[k],
                    ),
            decreases self.revlog.ids().len() - i,
        {
            if self.revlog.row_at(i).id.0 != self.revlog.id_at(i) {
                assert(self.revlog.ids().contains(self.revlog.ids()[i as int]));
                return false;
            }
            i += 1;
        }
        let mut i: usize = 0;
        while i < self.cards.len()
            invariant
                self.revlog.wf(),
                self.notes.wf(),
                forall|k: int|
                    0 <= k < self.revlog.ids().len() ==> self.revlog@[#[trigger] self.revlog.ids()[k]].id
                        == RevlogId(self.revlog.ids()[k]),
                self.cards.wf(),
                i <= self.cards.ids().len(),
                forall|k: int|
                    0 <= k < i ==> self.cards@[#[trigger] self.cards.ids()[k]].id == CardId(
                        self.cards.ids()[k],
                    ),
            decreases self.cards.ids().len() - i,
        {
            if self.cards.row_at(i).id.0 != self.cards.id_at(i) {
                assert(self.cards.ids().contains(self.cards.ids()[i as int]));
                return false;
            }
            i += 1;
        }
        let mut i: usize = 0;
        while i < self.notes.len()
            invariant
                self.revlog.wf(),
                self.cards.wf(),
                forall|k: int|
                    0 <= k < self.revlog.ids().len() ==> self.revlog@[#[trigger] self.revlog.ids()[k]].id
                        == RevlogId(self.revlog.ids()[k]),
                forall|k: int|
                    0 <= k < self.cards.ids().len() ==> self.cards@[#[trigger] self.cards.ids()[k]].id
                        == CardId(self.cards.ids()[k]),
                self.notes.wf(),
                i <= self.notes.ids().len(),
                forall|k: int|
                    0 <= k < i ==> self.notes@[#[trigger] self.notes.ids()[k]].id == NoteId(
                        self.notes.ids()[k],
                    ),
            decreases self.notes.ids().len() - i,
        {
            if self.notes.row_at(i).id.0 != self.notes.id_at(i) {
                assert(self.notes.ids().contains(self.notes.ids()[i as int]));
                return false;
            }
            i += 1;
        }
        proof {
            assert forall|id: i64| #[trigger] self.revlog@.contains_key(id) implies self.revlog@[id].id
                == RevlogId(id) by {
                assert(self.revlog.ids().contains(id));
                let k = self.revlog.ids().index_of(id);
                assert(self.revlog.ids()[k] == id);
            }
            assert forall|id: i64| #[trigger] self.cards@.contains_key(id) implies self.cards@[id].id
                == CardId(id) by {
                assert(self.cards.ids().contains(id));
                let k = self.cards.ids().index_of(id);
                assert(self.cards.ids()[k] == id);
            }
            assert forall|id: i64| #[trigger] self.notes@.contains_key(id) implies self.notes@[id].id
                == NoteId(id) by {
                assert(self.notes.ids().contains(id));
                let k = self.notes.ids().index_of(id);
                assert(self.notes.ids()[k] == id);
            }
        }
        true
    }

    /// An empty storage, whose collection has the sequence number 0.
    pub fn new() -> (storage: SqliteStorage)
        ensures
            storage.wf(),
            storage.revlog@ == Map::<i64, RevlogRow>::empty(),
            storage.cards@ == Map::<i64, CardRow>::empty(),
            storage.notes@ == Map::<i64, NoteRow>::empty(),
            storage.tags@.len() == 0,
            storage.notetypes@.len() == 0,
            storage.usn == Usn(0),
            storage.ankimath_version is None,
    {
        SqliteStorage {
            revlog: Table::new(),
            cards: Table::new(),
            notes: Table::new(),
            tags: Vec::new(),
            notetypes: Vec::new(),
            usn: Usn(0),
            ankimath_version: None,
        }
    }

    /// Adds `entry` if its id is free. If it is taken and `uniquify` is set,
    /// adds the entry under the first free id found by probing forward from
    /// its own. Returns the id under which the entry was added; where that id
    /// is taken, nothing is added and nothing is overwritten.
    pub fn add_revlog_entry(&mut self, entry: &RevlogEntry, uniquify: bool) -> (added: Option<
        RevlogId,
    >)
        requires
            old(self).wf(),
        ensures
            final(self).wf(),
            final(self).same_but_revlog(old(self)),
            ({
                let id = insert_id(old(self).revlog@, entry.id.0, uniquify);
                if old(self).revlog@.contains_key(id) {
                    &&& added is None
                    &&& *final(self) == *old(self)
                } else {
                    &&& added == Some(RevlogId(id))
                    &&& final(self).revlog@ == old(self).revlog@.insert(
                        id,
                        RevlogRow { id: RevlogId(id), ..entry@ },
                    )
                    &&& final(self).revlog.ids() == old(self).revlog.ids().push(id)
                }
            }),
    {
        let mut available_id: i64 = entry.id.0;
        if uniquify {
            let mut tries: i64 = 0;
            let mut probing: bool = true;
            while probing
                invariant
                    self.wf(),
                    *self == *old(self),
                    0 <= tries <= probe_tries(entry.id.0),
                    available_id == entry.id.0 + tries,
                    first_free_id(self.revlog@, entry.id.0 as int, probe_tries(entry.id.0))
                        == first_free_id(
                        self.revlog@,
                        available_id as int,
                        (probe_tries(entry.id.0) - tries) as nat,
                    ),
                    !probing ==> (tries == probe_tries(entry.id.0) || !self.revlog@.contains_key(
                        available_id,
                    )),
                decreases probe_tries(entry.id.0) - tries, if probing { 1int } else { 0int },
            {
                if tries < PROBE_WINDOW && available_id < i64::MAX && self.revlog.contains(
                    available_id,
                ) {
                    available_id += 1;
                    tries += 1;
                } else {
                    probing = false;
                }
            }
        }
        if self.revlog.contains(available_id) {
            None
        } else {
            let mut row = entry.duplicate();
            row.id = RevlogId(available_id);
            self.revlog.put(available_id, row);
            Some(RevlogId(available_id))
        }
    }

    /// The entry stored under `id`, if there is one.
    pub fn get_revlog_entry(&self, id: RevlogId) -> (found: Option<RevlogEntry>)
        requires
            self.wf(),
        ensures
            found is Some <==> self.revlog@.contains_key(id.0),
            found matches Some(entry) ==> entry@ == self.revlog@[id.0],
    {
        match self.revlog.get(id.0) {
            Some(row) => Some(row.duplicate()),
            None => None,
        }
    }

    /// Stores `entry` in place of the entry with its id. Where no entry has
    /// its id, nothing changes.
    pub fn update_revlog_entry(&mut self, entry: &RevlogEntry)
        requires
            old(self).wf(),
        ensures
            final(self).wf(),
            final(self).same_but_revlog(old(self)),
            final(self).revlog.ids() == old(self).revlog.ids(),
            final(self).revlog@ == if old(self).revlog@.contains_key(entry.id.0) {
                old(self).revlog@.insert(entry.id.0, entry@)
            } else {
                old(self).revlog@
            },
    {
        if self.revlog.contains(entry.id.0) {
            self.revlog.put(entry.id.0, entry.duplicate());
        }
    }

    /// Takes out the entry stored under `id`, if there is one.
    pub fn remove_revlog_entry(&mut self, id: RevlogId)
        requires
            old(self).wf(),
        ensures
            final(self).wf(),
            final(self).same_but_revlog(old(self)),
            final(self).revlog@ == old(self).revlog@.remove(id.0),
    {
        let _ = self.revlog.remove(id.0);
    }

    /// The card stored under `id`, if there is one.
    pub fn get_card(&self, id: CardId) -> (found: Option<Card>)
        requires
            self.wf(),
        ensures
            found is Some <==> self.cards@.contains_key(id.0),
            found matches Some(card) ==> card@ == self.cards@[id.0],
    {
        match self.cards.get(id.0) {
            Some(row) => Some(row.duplicate()),
            None => None,
        }
    }

    /// Stores `card` under its id, in place of the card that was stored
    /// under it, if there was one.
    pub fn add_or_update_card(&mut self, card: &Card)
        requires
            old(self).wf(),
        ensures
            final(self).wf(),
            final(self).same_but_cards(old(self)),
            final(self).cards@ == old(self).cards@.insert(card.id.0, card@),
    {
        self.cards.put(card.id.0, card.duplicate());
    }

    /// The note stored under `id`, if there is one.
    pub fn get_note(&self, id: NoteId) -> (found: Option<Note>)
        requires
            self.wf(),
        ensures
            found is Some <==> self.notes@.contains_key(id.0),
            found matches Some(note) ==> note@ == self.notes@[id.0],
    {
        match self.notes.get(id.0) {
            Some(row) => Some(row.duplicate()),
            None => None,
        }
    }

    /// Stores `note` under its id, in place of the note that was stored
    /// under it, if there was one.
    pub fn add_or_update_note(&mut self, note: &Note)
        requires
            old(self).wf(),
        ensures
            final(self).wf(),
            final(self).same_but_notes(old(self)),
            final(self).notes@ == old(self).notes@.insert(note.id.0, note@),
    {
        self.notes.put(note.id.0, note.duplicate());
    }
}

/// The tags of a review-log entry, as they are read from its row.
pub open spec fn revlog_tags_of(row: RevlogRow) -> RevlogTagsRow {
    RevlogTagsRow { id: row.id, mtime: row.mtime, usn: row.usn, tags: join_tags_spec(row.tags) }
}

/// The row of a review-log entry with the tags `tags` written to it.
pub open spec fn with_revlog_tags(row: RevlogRow, tags: RevlogTagsRow) -> RevlogRow {
    RevlogRow { mtime: tags.mtime, usn: tags.usn, tags: split_tags_spec(tags.tags), ..row }
}

/// The test of a review-log entry for tags that `want` accepts.
pub open spec fn tagged_revlog<P: TagPredicate>(want: P) -> spec_fn(RevlogRow) -> bool {
    |row: RevlogRow| want.accepts(join_tags_spec(row.tags))
}

/// The tags of a note, as they are read from its row.
pub open spec fn note_tags_of(row: NoteRow) -> NoteTagsRow {
    NoteTagsRow { id: row.id, mtime: row.mtime, usn: row.usn, tags: join_tags_spec(row.tags) }
}

/// The row of a note with the tags `tags` written to it.
pub open spec fn with_note_tags(row: NoteRow, tags: NoteTagsRow) -> NoteRow {
    NoteRow { mtime: tags.mtime, usn: tags.usn, tags: split_tags_spec(tags.tags), ..row }
}

/// The test of a note for tags that `want` accepts.
pub open spec fn tagged_note<P: TagPredicate>(want: P) -> spec_fn(NoteRow) -> bool {
    |row: NoteRow| want.accepts(join_tags_spec(row.tags))
}

/// The test of a tag of the registry for a name that `want` accepts.
pub open spec fn named_tag<P: TagPredicate>(want: P) -> spec_fn(TagRow) -> bool {
    |tag: TagRow| want.accepts(tag.name)
}

/// The registry `tags` with `tag` registered: in place of the first tag of
/// its name, the case of ASCII letters aside, or else behind all others.
pub open spec fn registered(tags: Seq<TagRow>, tag: TagRow) -> Seq<TagRow> {
    if has_tag_named(tags, tag.name) {
        tags.update(first_named(tags, tag.name), tag)
    } else {
        tags.push(tag)
    }
}

/// The registry `tags` without the first tag named `name`, the case of
/// ASCII letters aside.
pub open spec fn unregistered(tags: Seq<TagRow>, name: Seq<char>) -> Seq<TagRow> {
    if has_tag_named(tags, name) {
        tags.remove(first_named(tags, name))
    } else {
        tags
    }
}

/// The first tag of a name is found at one position only.
pub proof fn lemma_first_named_is(tags: Seq<TagRow>, name: Seq<char>, i: int)
    requires
        is_first_named(tags, name, i),
    ensures
        has_tag_named(tags, name),
        first_named(tags, name) == i,
{
    lemma_first_named(tags, name);
    let k = first_named(tags, name);
    if k < i {
        assert(!eq_ignore_case(tags[k].name, name));
    }
    if i < k {
        assert(!eq_ignore_case(tags[i].name, name));
    }
}

impl SqliteStorage {
    /// What the tags of the registry hold.
    pub open spec fn registry(&self) -> Seq<TagRow> {
        tag_rows(self.tags@)
    }

    /// The tag of the registry that is named `name`, the case of ASCII
    /// letters aside, if there is one.
    pub fn get_tag(&self, name: &str) -> (found: Option<Tag>)
        ensures
            found is Some <==> has_tag_named(self.registry(), name@),
            found matches Some(tag) ==> tag@ == self.registry()[first_named(
                self.registry(),
                name@,
            )],
    {
        match find_tag(&self.tags, name) {
            Some(i) => {
                proof {
                    lemma_first_named_is(self.registry(), name@, i as int);
                }
                Some(self.tags[i].duplicate())
            },
            None => None,
        }
    }

    /// Registers `tag`: in place of the tag of its name, or as a new tag.
    pub fn register_tag(&mut self, tag: &Tag)
        ensures
            final(self).same_but_tags(old(self)),
            final(self).registry() == registered(old(self).registry(), tag@),
    {
        match find_tag(&self.tags, tag.name.as_str()) {
            Some(i) => {
                proof {
                    lemma_first_named_is(self.registry(), tag.name@, i as int);
                }
                self.tags.set(i, tag.duplicate());
                assert(self.registry() =~= registered(old(self).registry(), tag@));
            },
            None => {
                self.tags.push(tag.duplicate());
                assert(self.registry() =~= registered(old(self).registry(), tag@));
            },
        }
    }

    /// Takes the tag named `name` out of the registry, if there is one.
    pub fn remove_single_tag(&mut self, name: &str)
        ensures
            final(self).same_but_tags(old(self)),
            final(self).registry() == unregistered(old(self).registry(), name@),
    {
        match find_tag(&self.tags, name) {
            Some(i) => {
                proof {
                    lemma_first_named_is(self.registry(), name@, i as int);
                }
                let _ = self.tags.remove(i);
                assert(self.registry() =~= unregistered(old(self).registry(), name@));
            },
            None => {},
        }
    }

    /// The tags of the registry whose name `want` accepts, in the order of
    /// the registry.
    pub fn get_tags_by_predicate<P: TagPredicate>(&self, want: &P) -> (found: Vec<Tag>)
        ensures
            tag_rows(found@) == self.registry().filter(named_tag(*want)),
    {
        let ghost keeps = named_tag(*want);
        let mut found: Vec<Tag> = Vec::new();
        let mut i: usize = 0;
        proof {
            reveal(Seq::filter);
            assert(self.registry().take(0).filter(keeps) =~= Seq::<TagRow>::empty());
            assert(tag_rows(found@) =~= Seq::<TagRow>::empty());
        }
        while i < self.tags.len()
            invariant
                i <= self.tags.len(),
                keeps == named_tag(*want),
                tag_rows(found@) == self.registry().take(i as int).filter(keeps),
            decreases self.tags.len() - i,
        {
            proof {
                assert(self.registry().take(i + 1) =~= self.registry().take(i as int).push(
                    self.tags@[i as int]@,
                ));
                self.registry().take(i as int).lemma_filter_push(self.tags@[i as int]@, keeps);
            }
            if want.is_match(self.tags[i].name.as_str()) {
                let ghost before = tag_rows(found@);
                found.push(self.tags[i].duplicate());
                assert(tag_rows(found@) =~= before.push(self.tags@[i as int]@));
            }
            i += 1;
        }
        assert(self.registry().take(i as int) =~= self.registry());
        found
    }

    /// The tags of the review-log entries whose tags `want` accepts, in the
    /// order of the table.
    pub fn get_revlog_tags_by_predicate<P: TagPredicate>(&self, want: &P) -> (found: Vec<RevlogTags>)
        requires
            self.wf(),
        ensures
            found.len() == self.revlog.ids_where(tagged_revlog(*want)).len(),
            forall|j: int|
                0 <= j < found.len() ==> (#[trigger] found[j])@ == revlog_tags_of(
                    self.revlog@[self.revlog.ids_where(tagged_revlog(*want))[j]],
                ),
    {
        let ghost keeps = tagged_revlog(*want);
        let mut found: Vec<RevlogTags> = Vec::new();
        let n = self.revlog.len();
        let mut i: usize = 0;
        proof {
            self.revlog.lemma_no_ids_where(keeps);
        }
        while i < n
            invariant
                self.wf(),
                n == self.revlog.ids().len(),
                i <= n,
                keeps == tagged_revlog(*want),
                found.len() == self.revlog.first_ids_where(keeps, i as int).len(),
                forall|j: int|
                    0 <= j < found.len() ==> (#[trigger] found[j])@ == revlog_tags_of(
                        self.revlog@[self.revlog.first_ids_where(keeps, i as int)[j]],
                    ),
            decreases n - i,
        {
            proof {
                self.revlog.lemma_first_ids_where(keeps, i as int);
            }
            let row = self.revlog.row_at(i);
            let tags = join_tags(&row.tags);
            if want.is_match(tags.as_str()) {
                found.push(RevlogTags { id: row.id, mtime: row.mtime, usn: row.usn, tags });
            }
            i += 1;
        }
        found
    }

    /// The tags of the review-log entry stored under `revlog_id`, if there
    /// is one.
    pub fn get_revlog_tags_by_id(&self, revlog_id: RevlogId) -> (found: Option<RevlogTags>)
        requires
            self.wf(),
        ensures
            found is Some <==> self.revlog@.contains_key(revlog_id.0),
            found matches Some(tags) ==> tags@ == revlog_tags_of(self.revlog@[revlog_id.0]),
    {
        match self.revlog.get(revlog_id.0) {
            Some(row) => Some(
                RevlogTags { id: row.id, mtime: row.mtime, usn: row.usn, tags: join_tags(&row.tags) },
            ),
            None => None,
        }
    }

    /// Writes `tags` to the review-log entry with their id. Where no entry
    /// has it, nothing changes.
    pub fn update_revlog_tags(&mut self, tags: &RevlogTags)
        requires
            old(self).wf(),
        ensures
            final(self).wf(),
            final(self).same_but_revlog(old(self)),
            final(self).revlog.ids() == old(self).revlog.ids(),
            final(self).revlog@ == if old(self).revlog@.contains_key(tags.id.0) {
                old(self).revlog@.insert(
                    tags.id.0,
                    with_revlog_tags(old(self).revlog@[tags.id.0], tags@),
                )
            } else {
                old(self).revlog@
            },
    {
        let changed = match self.revlog.get(tags.id.0) {
            Some(row) => {
                let mut row = row.duplicate();
                row.mtime = tags.mtime;
                row.usn = tags.usn;
                row.tags = split_tags(tags.tags.as_str());
                Some(row)
            },
            None => None,
        };
        match changed {
            Some(row) => {
                self.revlog.put(tags.id.0, row);
            },
            None => {},
        }
    }

    /// The tags of the notes whose tags `want` accepts, in the order of the
    /// table.
    pub fn get_note_tags_by_predicate<P: TagPredicate>(&self, want: &P) -> (found: Vec<NoteTags>)
        requires
            self.wf(),
        ensures
            found.len() == self.notes.ids_where(tagged_note(*want)).len(),
            forall|j: int|
                0 <= j < found.len() ==> (#[trigger] found[j])@ == note_tags_of(
                    self.notes@[self.notes.ids_where(tagged_note(*want))[j]],
                ),
    {
        let ghost keeps = tagged_note(*want);
        let mut found: Vec<NoteTags> = Vec::new();
        let n = self.notes.len();
        let mut i: usize = 0;
        proof {
            self.notes.lemma_no_ids_where(keeps);
        }
        while i < n
            invariant
                self.wf(),
                n == self.notes.ids().len(),
                i <= n,
                keeps == tagged_note(*want),
                found.len() == self.notes.first_ids_where(keeps, i as int).len(),
                forall|j: int|
                    0 <= j < found.len() ==> (#[trigger] found[j])@ == note_tags_of(
                        self.notes@[self.notes.first_ids_where(keeps, i as int)[j]],
                    ),
            decreases n - i,
        {
            proof {
                self.notes.lemma_first_ids_where(keeps, i as int);
            }
            let row = self.notes.row_at(i);
            let tags = join_tags(&row.tags);
            if want.is_match(tags.as_str()) {
                found.push(NoteTags { id: row.id, mtime: row.mtime, usn: row.usn, tags });
            }
            i += 1;
        }
        found
    }

    /// The tags of the note stored under `note_id`, if there is one.
    pub fn get_note_tags_by_id(&self, note_id: NoteId) -> (found: Option<NoteTags>)
        requires
            self.wf(),
        ensures
            found is Some <==> self.notes@.contains_key(note_id.0),
            found matches Some(tags) ==> tags@ == note_tags_of(self.notes@[note_id.0]),
    {
        match self.notes.get(note_id.0) {
            Some(row) => Some(
                NoteTags { id: row.id, mtime: row.mtime, usn: row.usn, tags: join_tags(&row.tags) },
            ),
            None => None,
        }
    }

    /// Writes `tags` to the note with their id. Where no note has it,
    /// nothing changes.
    pub fn update_note_tags(&mut self, tags: &NoteTags)
        requires
            old(self).wf(),
        ensures
            final(self).wf(),
            final(self).same_but_notes(old(self)),
            final(self).notes.ids() == old(self).notes.ids(),
            final(self).notes@ == if old(self).notes@.contains_key(tags.id.0) {
                old(self).notes@.insert(tags.id.0, with_note_tags(old(self).notes@[tags.id.0], tags@))
            } else {
                old(self).notes@
            },
    {
        let changed = match self.notes.get(tags.id.0) {
            Some(row) => {
                let mut row = row.duplicate();
                row.mtime = tags.mtime;
                row.usn = tags.usn;
                row.tags = split_tags(tags.tags.as_str());
                Some(row)
            },
            None => None,
        };
        match changed {
            Some(row) => {
                self.notes.put(tags.id.0, row);
            },
            None => {},
        }
    }
}

} // verus!
