//! Inbound chunks: the objects that the other replica sent, merged into the
//! collection.

use crate::card::Card;
use crate::card::CardRow;
use crate::chunks::CardEntry;
use crate::chunks::Chunk;
use crate::chunks::extended_of;
use crate::chunks::ExtendedChunk;
use crate::chunks::note_of;
use crate::chunks::NoteEntry;
use crate::chunks::NoteEntryRow;
use crate::chunks::RevlogEntry;
use crate::collection::Collection;
use crate::error::AnkiError;
use crate::notes::Note;
use crate::notes::NoteRow;
use crate::revlog::RevlogEntry as ExtendedRevlogEntry;
use crate::revlog::RevlogRow;
use crate::table::Table;
use crate::types::NoteId;
use crate::types::NotetypeId;
use crate::types::spec_is_pending_sync;
use crate::types::TimestampSecs;
use crate::types::Usn;
use vstd::prelude::*;

verus! {

/// The review log `rows` after `entry` came in: the entry is added where
/// its id is free, and dropped where it is taken.
pub open spec fn merge_revlog_entry(rows: Map<i64, RevlogRow>, entry: RevlogRow) -> Map<
    i64,
    RevlogRow,
> {
    if rows.contains_key(entry.id.0) {
        rows
    } else {
        rows.insert(entry.id.0, entry)
    }
}

/// The review log `rows` after `entries` came in, one after the other.
pub open spec fn merged_revlog(rows: Map<i64, RevlogRow>, entries: Seq<RevlogRow>) -> Map<
    i64,
    RevlogRow,
>
    decreases entries.len(),
{
    if entries.len() == 0 {
        rows
    } else {
        merge_revlog_entry(merged_revlog(rows, entries.drop_last()), entries.last())
    }
}

/// Whether an incoming object that was modified at `mtime` takes the place
/// of the local object `local`: it does where the local object is not
/// pending relative to `pending_usn`, or was modified strictly earlier.
pub open spec fn is_newer(
    local_usn: Usn,
    local_mtime: TimestampSecs,
    mtime: TimestampSecs,
    pending_usn: Usn,
) -> bool {
    !spec_is_pending_sync(local_usn.0 as int, pending_usn.0 as int) || local_mtime.0 < mtime.0
}

/// Whether the incoming card `entry` is accepted: it is where no card has
/// its id, or where it is newer than the card that has.
pub open spec fn card_accepted(rows: Map<i64, CardRow>, entry: CardRow, pending_usn: Usn) -> bool {
    rows.contains_key(entry.id.0) ==> is_newer(
        rows[entry.id.0].usn,
        rows[entry.id.0].mtime,
        entry.mtime,
        pending_usn,
    )
}

/// The cards `rows` after `entry` came in.
pub open spec fn merge_card(rows: Map<i64, CardRow>, entry: CardRow, pending_usn: Usn) -> Map<
    i64,
    CardRow,
> {
    if card_accepted(rows, entry, pending_usn) {
        rows.insert(entry.id.0, entry)
    } else {
        rows
    }
}

/// The cards `rows` after `entries` came in, one after the other.
pub open spec fn merged_cards(rows: Map<i64, CardRow>, entries: Seq<CardRow>, pending_usn: Usn) -> Map<
    i64,
    CardRow,
>
    decreases entries.len(),
{
    if entries.len() == 0 {
        rows
    } else {
        merge_card(merged_cards(rows, entries.drop_last(), pending_usn), entries.last(), pending_usn)
    }
}

/// Whether the incoming note `entry` is accepted: it is where no note has
/// its id, or where it is newer than the note that has.
pub open spec fn note_accepted(rows: Map<i64, NoteRow>, entry: NoteEntryRow, pending_usn: Usn) -> bool {
    rows.contains_key(entry.id.0) ==> is_newer(
        rows[entry.id.0].usn,
        rows[entry.id.0].mtime,
        entry.mtime,
        pending_usn,
    )
}

/// The notes `rows` after `entry` came in.
pub open spec fn merge_note(rows: Map<i64, NoteRow>, entry: NoteEntryRow, pending_usn: Usn) -> Map<
    i64,
    NoteRow,
> {
    if note_accepted(rows, entry, pending_usn) {
        rows.insert(entry.id.0, note_of(entry))
    } else {
        rows
    }
}

/// The notes `rows` after `entries` came in, one after the other.
pub open spec fn merged_notes(
    rows: Map<i64, NoteRow>,
    entries: Seq<NoteEntryRow>,
    pending_usn: Usn,
) -> Map<i64, NoteRow>
    decreases entries.len(),
{
    if entries.len() == 0 {
        rows
    } else {
        merge_note(merged_notes(rows, entries.drop_last(), pending_usn), entries.last(), pending_usn)
    }
}

/// Whether `entries` can be merged into `rows`: whether each note that is
/// accepted when its turn comes is of a notetype among `notetypes`.
pub open spec fn notes_mergeable(
    rows: Map<i64, NoteRow>,
    entries: Seq<NoteEntryRow>,
    pending_usn: Usn,
    notetypes: Seq<NotetypeId>,
) -> bool
    decreases entries.len(),
{
    entries.len() == 0 || {
        &&& notes_mergeable(rows, entries.drop_last(), pending_usn, notetypes)
        &&& note_accepted(
            merged_notes(rows, entries.drop_last(), pending_usn),
            entries.last(),
            pending_usn,
        ) ==> notetypes.contains(entries.last().ntid)
    }
}

/// The rows of `staged` laid over `rows`.
pub open spec fn overlaid(rows: Map<i64, NoteRow>, staged: Map<i64, NoteRow>) -> Map<i64, NoteRow> {
    Map::new(
        |id: i64| rows.contains_key(id) || staged.contains_key(id),
        |id: i64|
            if staged.contains_key(id) {
                staged[id]
            } else {
                rows[id]
            },
    )
}

/// What the review-log entries of `entries` hold.
pub open spec fn revlog_rows(entries: Seq<ExtendedRevlogEntry>) -> Seq<RevlogRow> {
    entries.map_values(|e: ExtendedRevlogEntry| e@)
}

/// What the cards of `entries` hold.
pub open spec fn card_rows(entries: Seq<CardEntry>) -> Seq<CardRow> {
    entries.map_values(|e: CardEntry| e@)
}

/// What the notes of `entries` hold.
pub open spec fn note_entry_rows(entries: Seq<NoteEntry>) -> Seq<NoteEntryRow> {
    entries.map_values(|e: NoteEntry| e@)
}

/// Whether `notetypes` holds `id`.
fn knows_notetype(notetypes: &Vec<NotetypeId>, id: NotetypeId) -> (known: bool)
    ensures
        known == notetypes@.contains(id),
{
    let mut i: usize = 0;
    while i < notetypes.len()
        invariant
            i <= notetypes.len(),
            forall|j: int| 0 <= j < i ==> notetypes@[j] != id,
        decreases notetypes.len() - i,
    {
        if notetypes[i].0 == id.0 {
            return true;
        }
        i += 1;
    }
    false
}

impl Collection {
    /// Merges the incoming review-log entries, given in their exchanged
    /// form: an entry is added where its id is free.
    pub fn merge_revlog(&mut self, entries: Vec<RevlogEntry>) -> (result: Result<(), AnkiError>)
        requires
            old(self).wf(),
        ensures
            final(self).wf(),
            result is Ok,
            final(self).undo == old(self).undo,
            final(self).server == old(self).server,
            final(self).storage.same_but_revlog(&old(self).storage),
            final(self).storage.revlog@ == merged_revlog(
                old(self).storage.revlog@,
                entries@.map_values(|e: RevlogEntry| extended_of(e)),
            ),
    {
        let ghost rows = entries@.map_values(|e: RevlogEntry| extended_of(e));
        let mut i: usize = 0;
        while i < entries.len()
            invariant
                i <= entries.len(),
                self.wf(),
                self.undo == old(self).undo,
                self.server == old(self).server,
                self.storage.same_but_revlog(&old(self).storage),
                rows == entries@.map_values(|e: RevlogEntry| extended_of(e)),
                self.storage.revlog@ == merged_revlog(
                    old(self).storage.revlog@,
                    rows.take(i as int),
                ),
            decreases entries.len() - i,
        {
            proof {
                assert(rows.take(i + 1).drop_last() =~= rows.take(i as int));
                assert(rows.take(i + 1).last() == extended_of(entries@[i as int]));
            }
            let entry = ExtendedRevlogEntry::from(entries[i]);
            let _ = self.storage.add_revlog_entry(&entry, false);
            assert(self.storage.revlog@ =~= merge_revlog_entry(
                merged_revlog(old(self).storage.revlog@, rows.take(i as int)),
                extended_of(entries@[i as int]),
            ));
            i += 1;
        }
        assert(rows.take(i as int) =~= rows);
        Ok(())
    }

    /// Merges the incoming review-log entries: an entry is added where its
    /// id is free.
    pub fn merge_extended_revlog(&mut self, entries: Vec<ExtendedRevlogEntry>) -> (result: Result<
        (),
        AnkiError,
    >)
        requires
            old(self).wf(),
        ensures
            final(self).wf(),
            result is Ok,
            final(self).undo == old(self).undo,
            final(self).server == old(self).server,
            final(self).storage.same_but_revlog(&old(self).storage),
            final(self).storage.revlog@ == merged_revlog(
                old(self).storage.revlog@,
                revlog_rows(entries@),
            ),
    {
        let ghost rows = revlog_rows(entries@);
        let mut i: usize = 0;
        while i < entries.len()
            invariant
                i <= entries.len(),
                self.wf(),
                self.undo == old(self).undo,
                self.server == old(self).server,
                self.storage.same_but_revlog(&old(self).storage),
                rows == revlog_rows(entries@),
                self.storage.revlog@ == merged_revlog(
                    old(self).storage.revlog@,
                    rows.take(i as int),
                ),
            decreases entries.len() - i,
        {
            proof {
                assert(rows.take(i + 1).drop_last() =~= rows.take(i as int));
                assert(rows.take(i + 1).last() == entries@[i as int]@);
            }
            let _ = self.storage.add_revlog_entry(&entries[i], false);
            assert(self.storage.revlog@ =~= merge_revlog_entry(
                merged_revlog(old(self).storage.revlog@, rows.take(i as int)),
                entries@[i as int]@,
            ));
            i += 1;
        }
        assert(rows.take(i as int) =~= rows);
        Ok(())
    }

    /// Takes in the incoming card `entry` if it is accepted, and drops it
    /// if not.
    pub fn add_or_update_card_if_newer(&mut self, entry: CardEntry, pending_usn: Usn) -> (result:
        Result<(), AnkiError>)
        requires
            old(self).wf(),
        ensures
            final(self).wf(),
            result is Ok,
            final(self).undo == old(self).undo,
            final(self).server == old(self).server,
            final(self).storage.same_but_cards(&old(self).storage),
            final(self).storage.cards@ == merge_card(old(self).storage.cards@, entry@, pending_usn),
    {
        let proceed = match self.storage.cards.get(entry.id.0) {
            Some(existing_card) => !existing_card.usn.is_pending_sync(pending_usn)
                || existing_card.mtime.0 < entry.mtime.0,
            None => true,
        };
        if proceed {
            let card = Card::from(entry);
            self.storage.add_or_update_card(&card);
        }
        Ok(())
    }

    /// Merges the incoming cards, one after the other.
    pub fn merge_cards(&mut self, entries: Vec<CardEntry>, pending_usn: Usn) -> (result: Result<
        (),
        AnkiError,
    >)
        requires
            old(self).wf(),
        ensures
            final(self).wf(),
            result is Ok,
            final(self).undo == old(self).undo,
            final(self).server == old(self).server,
            final(self).storage.same_but_cards(&old(self).storage),
            final(self).storage.cards@ == merged_cards(
                old(self).storage.cards@,
                card_rows(entries@),
                pending_usn,
            ),
    {
        let ghost rows = card_rows(entries@);
        let mut i: usize = 0;
        while i < entries.len()
            invariant
                i <= entries.len(),
                self.wf(),
                self.undo == old(self).undo,
                self.server == old(self).server,
                self.storage.same_but_cards(&old(self).storage),
                rows == card_rows(entries@),
                self.storage.cards@ == merged_cards(
                    old(self).storage.cards@,
                    rows.take(i as int),
                    pending_usn,
                ),
            decreases entries.len() - i,
        {
            proof {
                assert(rows.take(i + 1).drop_last() =~= rows.take(i as int));
                assert(rows.take(i + 1).last() == entries@[i as int]@);
            }
            let _ = self.add_or_update_card_if_newer(entries[i].duplicate(), pending_usn);
            i += 1;
        }
        assert(rows.take(i as int) =~= rows);
        Ok(())
    }

    /// Takes in the incoming note `entry` if it is accepted, and drops it if
    /// not. A note is taken in only if its notetype is known: where it is
    /// not, nothing changes.
    pub fn add_or_update_note_if_newer(&mut self, entry: NoteEntry, pending_usn: Usn) -> (result:
        Result<(), AnkiError>)
        requires
            old(self).wf(),
        ensures
            final(self).wf(),
            final(self).undo == old(self).undo,
            final(self).server == old(self).server,
            final(self).storage.same_but_notes(&old(self).storage),
            result is Ok <==> (note_accepted(old(self).storage.notes@, entry@, pending_usn)
                ==> old(self).storage.notetypes@.contains(entry.ntid)),
            match result {
                Ok(_) => final(self).storage.notes@ == merge_note(
                    old(self).storage.notes@,
                    entry@,
                    pending_usn,
                ),
                Err(err) => err is InvalidInput && final(self).storage.notes == old(
                    self,
                ).storage.notes,
            },
    {
        let proceed = match self.storage.notes.get(entry.id.0) {
            Some(existing_note) => !existing_note.usn.is_pending_sync(pending_usn)
                || existing_note.mtime.0 < entry.mtime.0,
            None => true,
        };
        if proceed {
            if !knows_notetype(&self.storage.notetypes, entry.ntid) {
                return Err(missing_notetype());
            }
            let note = Note::from(entry);
            self.storage.add_or_update_note(&note);
        }
        Ok(())
    }

    /// Decides for each of the incoming notes whether it is accepted, and
    /// gathers the notes to be stored, without storing any.
    fn stage_notes(&self, entries: &Vec<NoteEntry>, pending_usn: Usn) -> (result: Result<
        Table<Note>,
        AnkiError,
    >)
        requires
            self.wf(),
        ensures
            result is Ok <==> notes_mergeable(
                self.storage.notes@,
                note_entry_rows(entries@),
                pending_usn,
                self.storage.notetypes@,
            ),
            match result {
                Ok(staged) => {
                    &&& staged.wf()
                    &&& forall|id: i64| #[trigger]
                        staged@.contains_key(id) ==> staged@[id].id == NoteId(id)
                    &&& overlaid(self.storage.notes@, staged@) == merged_notes(
                        self.storage.notes@,
                        note_entry_rows(entries@),
                        pending_usn,
                    )
                },
                Err(err) => err is InvalidInput,
            },
    {
        let ghost rows = note_entry_rows(entries@);
        let ghost stored = self.storage.notes@;
        let mut staged: Table<Note> = Table::new();
        let mut i: usize = 0;
        assert(overlaid(stored, staged@) =~= stored);
        while i < entries.len()
            invariant
                i <= entries.len(),
                self.wf(),
                staged.wf(),
                rows == note_entry_rows(entries@),
                stored == self.storage.notes@,
                forall|id: i64| #[trigger] staged@.contains_key(id) ==> staged@[id].id == NoteId(id),
                notes_mergeable(stored, rows.take(i as int), pending_usn, self.storage.notetypes@),
                overlaid(stored, staged@) == merged_notes(stored, rows.take(i as int), pending_usn),
            decreases entries.len() - i,
        {
            proof {
                assert(rows.take(i + 1).drop_last() =~= rows.take(i as int));
                assert(rows.take(i + 1).last() == entries@[i as int]@);
            }
            let entry = &entries[i];
            let ghost sofar = overlaid(stored, staged@);
            let proceed = match staged.get(entry.id.0) {
                Some(existing_note) => !existing_note.usn.is_pending_sync(pending_usn)
                    || existing_note.mtime.0 < entry.mtime.0,
                None => match self.storage.notes.get(entry.id.0) {
                    Some(existing_note) => !existing_note.usn.is_pending_sync(pending_usn)
                        || existing_note.mtime.0 < entry.mtime.0,
                    None => true,
                },
            };
            assert(proceed == note_accepted(sofar, entry@, pending_usn));
            if proceed {
                if !knows_notetype(&self.storage.notetypes, entry.ntid) {
                    proof {
                        lemma_not_mergeable(
                            stored,
                            rows,
                            pending_usn,
                            self.storage.notetypes@,
                            i as int + 1,
                        );
                    }
                    return Err(missing_notetype());
                }
                let note = Note::from(entry.duplicate());
                staged.put(entry.id.0, note);
                assert(overlaid(stored, staged@) =~= sofar.insert(entry.id.0, note_of(entry@)));
            }
            i += 1;
        }
        assert(rows.take(i as int) =~= rows);
        Ok(staged)
    }

    /// Stores the gathered notes.
    fn commit_notes(&mut self, staged: &Table<Note>)
        requires
            old(self).wf(),
            staged.wf(),
            forall|id: i64| #[trigger] staged@.contains_key(id) ==> staged@[id].id == NoteId(id),
        ensures
            final(self).wf(),
            final(self).undo == old(self).undo,
            final(self).server == old(self).server,
            final(self).storage.same_but_notes(&old(self).storage),
            final(self).storage.notes@ == overlaid(old(self).storage.notes@, staged@),
    {
        let ghost stored = self.storage.notes@;
        let n = staged.len();
        let mut j: usize = 0;
        assert(self.storage.notes@ =~= overlaid(
            stored,
            staged@.restrict(staged.ids().take(0).to_set()),
        ));
        while j < n
            invariant
                j <= n,
                n == staged.ids().len(),
                staged.wf(),
                forall|id: i64| #[trigger] staged@.contains_key(id) ==> staged@[id].id == NoteId(id),
                self.wf(),
                self.undo == old(self).undo,
                self.server == old(self).server,
                self.storage.same_but_notes(&old(self).storage),
                stored == old(self).storage.notes@,
                self.storage.notes@ == overlaid(
                    stored,
                    staged@.restrict(staged.ids().take(j as int).to_set()),
                ),
            decreases n - j,
        {
            let id = staged.id_at(j);
            let note = staged.row_at(j).duplicate();
            proof {
                assert(staged.ids().contains(id));
                assert(staged.ids().take(j + 1) =~= staged.ids().take(j as int).push(id));
                staged.ids().take(j as int).lemma_push_to_set_commute(id);
            }
            self.storage.add_or_update_note(&note);
            assert(self.storage.notes@ =~= overlaid(
                stored,
                staged@.restrict(staged.ids().take(j + 1).to_set()),
            ));
            j += 1;
        }
        proof {
            assert(staged.ids().take(j as int) =~= staged.ids());
            assert(staged@.restrict(staged.ids().to_set()) =~= staged@);
        }
    }

    /// Merges the incoming notes, one after the other. A note is taken in
    /// only if its notetype is known: where one that is accepted is of an
    /// unknown notetype, no note is merged.
    pub fn merge_notes(&mut self, entries: Vec<NoteEntry>, pending_usn: Usn) -> (result: Result<
        (),
        AnkiError,
    >)
        requires
            old(self).wf(),
        ensures
            final(self).wf(),
            final(self).undo == old(self).undo,
            final(self).server == old(self).server,
            final(self).storage.same_but_notes(&old(self).storage),
            result is Ok <==> notes_mergeable(
                old(self).storage.notes@,
                note_entry_rows(entries@),
                pending_usn,
                old(self).storage.notetypes@,
            ),
            match result {
                Ok(_) => final(self).storage.notes@ == merged_notes(
                    old(self).storage.notes@,
                    note_entry_rows(entries@),
                    pending_usn,
                ),
                Err(err) => err is InvalidInput && final(self).storage.notes == old(
                    self,
                ).storage.notes,
            },
    {
        match self.stage_notes(&entries, pending_usn) {
            Ok(staged) => {
                self.commit_notes(&staged);
                Ok(())
            },
            Err(err) => Err(err),
        }
    }

    /// Whether `after` is this collection with the incoming entries, cards
    /// and notes merged, and nothing else changed.
    pub open spec fn merged_into(
        &self,
        after: &Collection,
        revlog: Seq<RevlogRow>,
        cards: Seq<CardRow>,
        notes: Seq<NoteEntryRow>,
        pending_usn: Usn,
    ) -> bool {
        &&& after.undo == self.undo
        &&& after.server == self.server
        &&& after.storage.tags == self.storage.tags
        &&& after.storage.notetypes == self.storage.notetypes
        &&& after.storage.usn == self.storage.usn
        &&& after.storage.ankimath_version == self.storage.ankimath_version
        &&& after.storage.revlog@ == merged_revlog(self.storage.revlog@, revlog)
        &&& after.storage.cards@ == merged_cards(self.storage.cards@, cards, pending_usn)
        &&& after.storage.notes@ == merged_notes(self.storage.notes@, notes, pending_usn)
    }

    /// Merges an incoming chunk: its review-log entries, then its cards,
    /// then its notes. `pending_usn` decides which local objects count as
    /// modified. Where the notes cannot be merged, nothing is.
    pub fn apply_chunk(&mut self, chunk: Chunk, pending_usn: Usn) -> (result: Result<(), AnkiError>)
        requires
            old(self).wf(),
        ensures
            final(self).wf(),
            result is Ok <==> notes_mergeable(
                old(self).storage.notes@,
                note_entry_rows(chunk.notes@),
                pending_usn,
                old(self).storage.notetypes@,
            ),
            match result {
                Ok(_) => old(self).merged_into(
                    final(self),
                    chunk.revlog@.map_values(|e: RevlogEntry| extended_of(e)),
                    card_rows(chunk.cards@),
                    note_entry_rows(chunk.notes@),
                    pending_usn,
                ),
                Err(err) => err is InvalidInput && *final(self) == *old(self),
            },
    {
        match self.stage_notes(&chunk.notes, pending_usn) {
            Ok(staged) => {
                let _ = self.merge_revlog(chunk.revlog);
                let _ = self.merge_cards(chunk.cards, pending_usn);
                self.commit_notes(&staged);
                Ok(())
            },
            Err(err) => Err(err),
        }
    }

    /// Merges an incoming chunk that holds review-log entries in full: its
    /// review-log entries, then its cards, then its notes. `pending_usn`
    /// decides which local objects count as modified. Where the notes cannot
    /// be merged, nothing is.
    pub fn apply_extended_chunk(&mut self, extended_chunk: ExtendedChunk, pending_usn: Usn) -> (result:
        Result<(), AnkiError>)
        requires
            old(self).wf(),
        ensures
            final(self).wf(),
            result is Ok <==> notes_mergeable(
                old(self).storage.notes@,
                note_entry_rows(extended_chunk.notes@),
                pending_usn,
                old(self).storage.notetypes@,
            ),
            match result {
                Ok(_) => old(self).merged_into(
                    final(self),
                    revlog_rows(extended_chunk.extended_revlog@),
                    card_rows(extended_chunk.cards@),
                    note_entry_rows(extended_chunk.notes@),
                    pending_usn,
                ),
                Err(err) => err is InvalidInput && *final(self) == *old(self),
            },
    {
        match self.stage_notes(&extended_chunk.notes, pending_usn) {
            Ok(staged) => {
                let _ = self.merge_extended_revlog(extended_chunk.extended_revlog);
                let _ = self.merge_cards(extended_chunk.cards, pending_usn);
                self.commit_notes(&staged);
                Ok(())
            },
            Err(err) => Err(err),
        }
    }
}

/// An incoming review-log entry whose id is free when the chunk arrives is
/// in the log once the chunk is merged, and stands there as it came if no
/// entry before it in the chunk has its id. No entry that was stored before
/// is lost or changed.
pub proof fn lemma_new_revlog_entry_is_added(
    rows: Map<i64, RevlogRow>,
    entries: Seq<RevlogRow>,
    i: int,
)
    requires
        0 <= i < entries.len(),
        !rows.contains_key(entries[i].id.0),
    ensures
        merged_revlog(rows, entries).contains_key(entries[i].id.0),
        (forall|j: int| 0 <= j < i ==> entries[j].id != entries[i].id) ==> merged_revlog(
            rows,
            entries,
        )[entries[i].id.0] == entries[i],
        forall|id: i64|
            rows.contains_key(id) ==> merged_revlog(rows, entries).contains_key(id)
                && merged_revlog(rows, entries)[id] == rows[id],
    decreases entries.len(),
{
    let init = entries.drop_last();
    let before = merged_revlog(rows, init);
    lemma_merged_revlog_ids(rows, init);
    lemma_merged_revlog_ids(rows, entries);
    if i < entries.len() - 1 {
        lemma_new_revlog_entry_is_added(rows, init, i);
    } else {
        if forall|j: int| 0 <= j < i ==> entries[j].id != entries[i].id {
            assert forall|j: int| 0 <= j < init.len() implies init[j].id.0
                != entries[i].id.0 by {
                assert(init[j] == entries[j]);
            }
        }
    }
}

/// The ids of the review log after a merge are the ids it had and the ids
/// that came in, and what was stored stays as it was.
pub proof fn lemma_merged_revlog_ids(rows: Map<i64, RevlogRow>, entries: Seq<RevlogRow>)
    ensures
        forall|id: i64| #[trigger]
            merged_revlog(rows, entries).contains_key(id) <==> (rows.contains_key(id) || exists|
                j: int,
            |
                0 <= j < entries.len() && (#[trigger] entries[j]).id.0 == id),
        forall|id: i64| #[trigger]
            rows.contains_key(id) ==> merged_revlog(rows, entries).contains_key(id)
                && merged_revlog(rows, entries)[id] == rows[id],
    decreases entries.len(),
{
    if entries.len() > 0 {
        let init = entries.drop_last();
        let before = merged_revlog(rows, init);
        let last = entries.last();
        lemma_merged_revlog_ids(rows, init);
        assert(merged_revlog(rows, entries) == merge_revlog_entry(before, last));
        assert forall|id: i64| #[trigger] rows.contains_key(id) implies merged_revlog(
            rows,
            entries,
        ).contains_key(id) && merged_revlog(rows, entries)[id] == rows[id] by {
            assert(before.contains_key(id) && before[id] == rows[id]);
        }
        assert forall|id: i64| #[trigger]
            merged_revlog(rows, entries).contains_key(id) <==> (rows.contains_key(id) || exists|
                j: int,
            |
                0 <= j < entries.len() && (#[trigger] entries[j]).id.0 == id) by {
            let in_init = exists|j: int| 0 <= j < init.len() && (#[trigger] init[j]).id.0 == id;
            let in_all = exists|j: int|
                0 <= j < entries.len() && (#[trigger] entries[j]).id.0 == id;
            assert(before.contains_key(id) <==> (rows.contains_key(id) || in_init));
            assert(merged_revlog(rows, entries).contains_key(id) <==> (before.contains_key(id)
                || id == last.id.0));
            if in_init {
                let j = choose|j: int| 0 <= j < init.len() && (#[trigger] init[j]).id.0 == id;
                assert(init[j] == entries[j]);
                assert(entries[j].id.0 == id);
                assert(in_all);
            }
            if id == last.id.0 {
                assert(entries[entries.len() - 1].id.0 == id);
                assert(in_all);
            }
            if in_all {
                let j = choose|j: int|
                    0 <= j < entries.len() && (#[trigger] entries[j]).id.0 == id;
                if j < init.len() {
                    assert(init[j] == entries[j]);
                    assert(init[j].id.0 == id);
                    assert(in_init);
                } else {
                    assert(entries[j] == last);
                }
            }
        }
    }
}

/// An incoming card whose id is free when the chunk arrives is among the
/// cards once the chunk is merged, and stands there as it came if no other
/// card of the chunk has its id.
pub proof fn lemma_new_card_is_added(
    rows: Map<i64, CardRow>,
    entries: Seq<CardRow>,
    pending_usn: Usn,
    i: int,
)
    requires
        0 <= i < entries.len(),
        !rows.contains_key(entries[i].id.0),
    ensures
        merged_cards(rows, entries, pending_usn).contains_key(entries[i].id.0),
        (forall|j: int| 0 <= j < entries.len() && j != i ==> entries[j].id != entries[i].id)
            ==> merged_cards(rows, entries, pending_usn)[entries[i].id.0] == entries[i],
{
    lemma_merged_cards_from(rows, entries, pending_usn, i);
}

/// Where the cards of a chunk from position `i` on have ids of their own,
/// the card at `i` is stored as it came if it was accepted in its turn, and
/// its id is taken once its turn has come.
proof fn lemma_merged_cards_from(
    rows: Map<i64, CardRow>,
    entries: Seq<CardRow>,
    pending_usn: Usn,
    i: int,
)
    requires
        0 <= i < entries.len(),
    ensures
        merged_cards(rows, entries, pending_usn).contains_key(entries[i].id.0),
        card_accepted(merged_cards(rows, entries.take(i), pending_usn), entries[i], pending_usn)
            && (forall|j: int| i < j < entries.len() ==> entries[j].id != entries[i].id)
            ==> merged_cards(rows, entries, pending_usn)[entries[i].id.0] == entries[i],
        (forall|j: int| 0 <= j < entries.len() && j != i ==> entries[j].id != entries[i].id)
            && !rows.contains_key(entries[i].id.0) ==> card_accepted(
            merged_cards(rows, entries.take(i), pending_usn),
            entries[i],
            pending_usn,
        ),
    decreases entries.len(),
{
    let init = entries.drop_last();
    if i < entries.len() - 1 {
        lemma_merged_cards_from(rows, init, pending_usn, i);
        assert(init.take(i) =~= entries.take(i));
        assert(init[i] == entries[i]);
        if forall|j: int| i < j < entries.len() ==> entries[j].id != entries[i].id {
            assert forall|j: int| i < j < init.len() implies init[j].id != init[i].id by {
                assert(init[j] == entries[j]);
            }
            assert(entries.last() == entries[entries.len() - 1]);
        }
        if forall|j: int| 0 <= j < entries.len() && j != i ==> entries[j].id != entries[i].id {
            assert forall|j: int| 0 <= j < init.len() && j != i implies init[j].id
                != init[i].id by {
                assert(init[j] == entries[j]);
            }
        }
    } else {
        assert(entries.take(i) =~= init);
        if (forall|j: int| 0 <= j < entries.len() && j != i ==> entries[j].id != entries[i].id)
            && !rows.contains_key(entries[i].id.0) {
            lemma_merged_cards_ids(rows, init, pending_usn);
            if merged_cards(rows, init, pending_usn).contains_key(entries[i].id.0) {
                let j = choose|j: int|
                    0 <= j < init.len() && (#[trigger] init[j]).id.0 == entries[i].id.0;
                assert(init[j] == entries[j]);
            }
        }
    }
}

/// The ids of the cards after a merge are the ids there were and ids that
/// came in.
pub proof fn lemma_merged_cards_ids(rows: Map<i64, CardRow>, entries: Seq<CardRow>, pending_usn: Usn)
    ensures
        forall|id: i64|
            merged_cards(rows, entries, pending_usn).contains_key(id) ==> (rows.contains_key(id)
                || exists|j: int| 0 <= j < entries.len() && (#[trigger] entries[j]).id.0 == id),
        forall|id: i64|
            rows.contains_key(id) ==> merged_cards(rows, entries, pending_usn).contains_key(id),
    decreases entries.len(),
{
    if entries.len() > 0 {
        let init = entries.drop_last();
        lemma_merged_cards_ids(rows, init, pending_usn);
        assert forall|id: i64|
            merged_cards(rows, entries, pending_usn).contains_key(id) implies (rows.contains_key(
            id,
        ) || exists|j: int| 0 <= j < entries.len() && (#[trigger] entries[j]).id.0 == id) by {
            if exists|j: int| 0 <= j < init.len() && (#[trigger] init[j]).id.0 == id {
                let j = choose|j: int| 0 <= j < init.len() && (#[trigger] init[j]).id.0 == id;
                assert(entries[j].id.0 == id);
            }
            assert(entries[entries.len() - 1] == entries.last());
        }
    }
}

/// An incoming note whose id is free when the chunk arrives, in a chunk
/// that can be merged, is among the notes once the chunk is merged, and
/// stands there as it came if no other note of the chunk has its id.
pub proof fn lemma_new_note_is_added(
    rows: Map<i64, NoteRow>,
    entries: Seq<NoteEntryRow>,
    pending_usn: Usn,
    i: int,
)
    requires
        0 <= i < entries.len(),
        !rows.contains_key(entries[i].id.0),
    ensures
        merged_notes(rows, entries, pending_usn).contains_key(entries[i].id.0),
        (forall|j: int| 0 <= j < entries.len() && j != i ==> entries[j].id != entries[i].id)
            ==> merged_notes(rows, entries, pending_usn)[entries[i].id.0] == note_of(entries[i]),
{
    lemma_merged_notes_from(rows, entries, pending_usn, i);
}

proof fn lemma_merged_notes_from(
    rows: Map<i64, NoteRow>,
    entries: Seq<NoteEntryRow>,
    pending_usn: Usn,
    i: int,
)
    requires
        0 <= i < entries.len(),
    ensures
        merged_notes(rows, entries, pending_usn).contains_key(entries[i].id.0),
        note_accepted(merged_notes(rows, entries.take(i), pending_usn), entries[i], pending_usn)
            && (forall|j: int| i < j < entries.len() ==> entries[j].id != entries[i].id)
            ==> merged_notes(rows, entries, pending_usn)[entries[i].id.0] == note_of(entries[i]),
        (forall|j: int| 0 <= j < entries.len() && j != i ==> entries[j].id != entries[i].id)
            && !rows.contains_key(entries[i].id.0) ==> note_accepted(
            merged_notes(rows, entries.take(i), pending_usn),
            entries[i],
            pending_usn,
        ),
    decreases entries.len(),
{
    let init = entries.drop_last();
    if i < entries.len() - 1 {
        lemma_merged_notes_from(rows, init, pending_usn, i);
        assert(init.take(i) =~= entries.take(i));
        assert(init[i] == entries[i]);
        if forall|j: int| i < j < entries.len() ==> entries[j].id != entries[i].id {
            assert forall|j: int| i < j < init.len() implies init[j].id != init[i].id by {
                assert(init[j] == entries[j]);
            }
            assert(entries.last() == entries[entries.len() - 1]);
        }
        if forall|j: int| 0 <= j < entries.len() && j != i ==> entries[j].id != entries[i].id {
            assert forall|j: int| 0 <= j < init.len() && j != i implies init[j].id
                != init[i].id by {
                assert(init[j] == entries[j]);
            }
        }
    } else {
        assert(entries.take(i) =~= init);
        if (forall|j: int| 0 <= j < entries.len() && j != i ==> entries[j].id != entries[i].id)
            && !rows.contains_key(entries[i].id.0) {
            lemma_merged_notes_ids(rows, init, pending_usn);
            if merged_notes(rows, init, pending_usn).contains_key(entries[i].id.0) {
                let j = choose|j: int|
                    0 <= j < init.len() && (#[trigger] init[j]).id.0 == entries[i].id.0;
                assert(init[j] == entries[j]);
            }
        }
    }
}

/// The ids of the notes after a merge are the ids there were and ids that
/// came in.
pub proof fn lemma_merged_notes_ids(
    rows: Map<i64, NoteRow>,
    entries: Seq<NoteEntryRow>,
    pending_usn: Usn,
)
    ensures
        forall|id: i64|
            merged_notes(rows, entries, pending_usn).contains_key(id) ==> (rows.contains_key(id)
                || exists|j: int| 0 <= j < entries.len() && (#[trigger] entries[j]).id.0 == id),
        forall|id: i64|
            rows.contains_key(id) ==> merged_notes(rows, entries, pending_usn).contains_key(id),
    decreases entries.len(),
{
    if entries.len() > 0 {
        let init = entries.drop_last();
        lemma_merged_notes_ids(rows, init, pending_usn);
        assert forall|id: i64|
            merged_notes(rows, entries, pending_usn).contains_key(id) implies (rows.contains_key(
            id,
        ) || exists|j: int| 0 <= j < entries.len() && (#[trigger] entries[j]).id.0 == id) by {
            if exists|j: int| 0 <= j < init.len() && (#[trigger] init[j]).id.0 == id {
                let j = choose|j: int| 0 <= j < init.len() && (#[trigger] init[j]).id.0 == id;
                assert(entries[j].id.0 == id);
            }
            assert(entries[entries.len() - 1] == entries.last());
        }
    }
}

/// A stored card gives way to an incoming card with its id only if the
/// stored card is not pending or was modified strictly earlier; else it
/// stays as it is. In particular, measured against the pending mark `-1`, a
/// stored card that does not carry the mark always gives way.
pub proof fn lemma_card_gives_way_only_to_newer(
    rows: Map<i64, CardRow>,
    entry: CardRow,
    pending_usn: Usn,
)
    requires
        rows.contains_key(entry.id.0),
    ensures
        merge_card(rows, entry, pending_usn)[entry.id.0] == if is_newer(
            rows[entry.id.0].usn,
            rows[entry.id.0].mtime,
            entry.mtime,
            pending_usn,
        ) {
            entry
        } else {
            rows[entry.id.0]
        },
        forall|id: i64|
            id != entry.id.0 && rows.contains_key(id) ==> merge_card(rows, entry, pending_usn)[id]
                == rows[id],
        rows[entry.id.0].usn.0 != -1 && pending_usn.0 == -1 ==> merge_card(
            rows,
            entry,
            pending_usn,
        )[entry.id.0] == entry,
{
}

/// A stored note gives way to an incoming note with its id only if the
/// stored note is not pending or was modified strictly earlier; else it
/// stays as it is. In particular, measured against the pending mark `-1`, a
/// stored note that does not carry the mark always gives way.
pub proof fn lemma_note_gives_way_only_to_newer(
    rows: Map<i64, NoteRow>,
    entry: NoteEntryRow,
    pending_usn: Usn,
)
    requires
        rows.contains_key(entry.id.0),
    ensures
        merge_note(rows, entry, pending_usn)[entry.id.0] == if is_newer(
            rows[entry.id.0].usn,
            rows[entry.id.0].mtime,
            entry.mtime,
            pending_usn,
        ) {
            note_of(entry)
        } else {
            rows[entry.id.0]
        },
        forall|id: i64|
            id != entry.id.0 && rows.contains_key(id) ==> merge_note(rows, entry, pending_usn)[id]
                == rows[id],
        rows[entry.id.0].usn.0 != -1 && pending_usn.0 == -1 ==> merge_note(
            rows,
            entry,
            pending_usn,
        )[entry.id.0] == note_of(entry),
{
}

/// Notes of which the first `n` cannot be merged cannot be merged.
proof fn lemma_not_mergeable(
    rows: Map<i64, NoteRow>,
    entries: Seq<NoteEntryRow>,
    pending_usn: Usn,
    notetypes: Seq<NotetypeId>,
    n: int,
)
    requires
        0 <= n <= entries.len(),
        !notes_mergeable(rows, entries.take(n), pending_usn, notetypes),
    ensures
        !notes_mergeable(rows, entries, pending_usn, notetypes),
    decreases entries.len() - n,
{
    if n < entries.len() {
        assert(entries.take(n + 1).drop_last() =~= entries.take(n));
        lemma_not_mergeable(rows, entries, pending_usn, notetypes, n + 1);
    } else {
        assert(entries.take(n) =~= entries);
    }
}

/// The error for a note whose notetype is not known: the note is refused
/// as invalid input, and the error says that its notetype is missing.
fn missing_notetype() -> (err: AnkiError)
    ensures
        err matches AnkiError::InvalidInput { info } && info@ == "note missing notetype"@,
{
    AnkiError::InvalidInput { info: String::from_str("note missing notetype") }
}

} // verus!
