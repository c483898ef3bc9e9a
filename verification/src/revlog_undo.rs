//! Changes to the review log that can be undone: each change is recorded in
//! the undo journal with what is needed to reverse it.

use crate::collection::Collection;
use crate::collection::CollectionState;
use crate::error::AnkiError;
use crate::error::DbErrorKind;
use crate::ops::Op;
use crate::ops::OpChanges;
use crate::ops::OpOutput;
use crate::ops::StateChanges;
use crate::register::canonified;
use crate::register::lemma_canonified_keeps_tables;
use crate::revlog::RevlogChange;
use crate::revlog::RevlogEntry;
use crate::revlog::RevlogRow;
use crate::revlog::RevlogTags;
use crate::revlog::RevlogTagsRow;
use crate::revlog::UndoableRevlogChange;
use crate::storage::insert_id;
use crate::storage::revlog_tags_of;
use crate::storage::with_revlog_tags;
use crate::types::RevlogId;
use crate::types::Usn;
use crate::undo::kinds_changed;
use crate::undo::Change;
use crate::undo::UndoableChange;
use vstd::prelude::*;
use vstd::string::StringExecFns;

verus! {

impl CollectionState {
    /// The state after the entry with the id of `entry` was replaced by
    /// `entry`, and `original` recorded as what it was. Where no entry has the
    /// id, nothing is replaced.
    pub open spec fn with_revlog_updated(self, entry: RevlogRow, original: RevlogRow) -> CollectionState {
        CollectionState {
            revlog: if self.revlog.contains_key(entry.id.0) {
                self.revlog.insert(entry.id.0, entry)
            } else {
                self.revlog
            },
            ..self.record(Change::Revlog(RevlogChange::Updated(original)))
        }
    }

    /// The state after `tags` were written to the entry with their id, and
    /// `original` recorded as what they were. Where no entry has the id,
    /// nothing is written.
    pub open spec fn with_revlog_tags_updated(
        self,
        tags: RevlogTagsRow,
        original: RevlogTagsRow,
    ) -> CollectionState {
        CollectionState {
            revlog: if self.revlog.contains_key(tags.id.0) {
                self.revlog.insert(tags.id.0, with_revlog_tags(self.revlog[tags.id.0], tags))
            } else {
                self.revlog
            },
            ..self.record(Change::Revlog(RevlogChange::TagsUpdated(original)))
        }
    }

    /// The state after `entry` was removed and recorded as removed.
    pub open spec fn with_revlog_removed(self, entry: RevlogRow) -> CollectionState {
        CollectionState {
            revlog: self.revlog.remove(entry.id.0),
            ..self.record(Change::Revlog(RevlogChange::Removed(entry)))
        }
    }

    /// The state after `entry` was added under its id and recorded as added.
    pub open spec fn with_revlog_added(self, entry: RevlogRow) -> CollectionState {
        CollectionState {
            revlog: self.revlog.insert(entry.id.0, entry),
            ..self.record(Change::Revlog(RevlogChange::Added(entry)))
        }
    }

    /// Whether the proposed `entry` differs from the entry that is stored
    /// under its id.
    pub open spec fn is_edit(self, entry: RevlogRow) -> bool {
        self.revlog.contains_key(entry.id.0) && self.revlog[entry.id.0] != entry
    }

    /// The proposed `entry` as an edit stores it: with its tags in canonical
    /// form, under the sequence number of a change made now. `entry` itself
    /// where it is no edit.
    pub open spec fn edited_entry(self, entry: RevlogRow) -> RevlogRow {
        if self.is_edit(entry) {
            RevlogRow {
                usn: self.change_usn(),
                tags: canonified(self, entry.tags, self.change_usn()).names,
                ..entry
            }
        } else {
            entry
        }
    }

    /// The state after the proposed `entry` was applied: where it differs
    /// from the stored entry, its tags are made known to the registry, and
    /// it is stored in place of the stored entry, which is recorded. Where it
    /// does not differ, or no entry has its id, nothing changes.
    pub open spec fn with_revlog_edited(self, entry: RevlogRow) -> CollectionState {
        if self.is_edit(entry) {
            canonified(self, entry.tags, self.change_usn()).state.with_revlog_updated(
                self.edited_entry(entry),
                self.revlog[entry.id.0],
            )
        } else {
            self
        }
    }

    /// The state after the proposed `entries` were applied, one after the
    /// other.
    pub open spec fn with_all_edited(self, entries: Seq<RevlogRow>) -> CollectionState
        decreases entries.len(),
    {
        if entries.len() == 0 {
            self
        } else {
            self.with_all_edited(entries.drop_last()).with_revlog_edited(entries.last())
        }
    }

    /// The state after the entries under `ids` were removed, one after the
    /// other, each recorded as removed.
    pub open spec fn with_all_removed(self, ids: Seq<RevlogId>) -> CollectionState
        decreases ids.len(),
    {
        if ids.len() == 0 {
            self
        } else {
            let before = self.with_all_removed(ids.drop_last());
            before.with_revlog_removed(before.revlog[ids.last().0])
        }
    }

    /// Whether the recorded change `change` can be reversed: an update can
    /// only where the entry is still stored.
    pub open spec fn can_undo(self, change: RevlogChange) -> bool {
        match change {
            RevlogChange::Updated(entry) => self.revlog.contains_key(entry.id.0),
            RevlogChange::TagsUpdated(tags) => self.revlog.contains_key(tags.id.0),
            _ => true,
        }
    }

    /// The state after the recorded change `change` was reversed: an added
    /// entry is removed, an updated entry gets its earlier values back, a
    /// removed entry is added again if its id is free. Each time the
    /// reverse change is recorded.
    pub open spec fn with_revlog_change_undone(self, change: RevlogChange) -> CollectionState {
        match change {
            RevlogChange::Added(entry) => self.with_revlog_removed(entry),
            RevlogChange::Updated(entry) => self.with_revlog_updated(
                entry,
                self.revlog[entry.id.0],
            ),
            RevlogChange::Removed(entry) => CollectionState {
                revlog: if self.revlog.contains_key(entry.id.0) {
                    self.revlog
                } else {
                    self.revlog.insert(entry.id.0, entry)
                },
                ..self.record(Change::Revlog(RevlogChange::Added(entry)))
            },
            RevlogChange::TagsUpdated(tags) => self.with_revlog_tags_updated(
                tags,
                revlog_tags_of(self.revlog[tags.id.0]),
            ),
        }
    }
}

/// Every id of `ids` has an entry in `rows`, and none occurs twice.
pub open spec fn removable(rows: Map<i64, RevlogRow>, ids: Seq<RevlogId>) -> bool {
    &&& forall|i: int| 0 <= i < ids.len() ==> rows.contains_key((#[trigger] ids[i]).0)
    &&& forall|i: int, j: int| 0 <= i < j < ids.len() ==> ids[i] != ids[j]
}

/// Every entry of `entries` has its id in `rows`.
pub open spec fn all_editable(rows: Map<i64, RevlogRow>, entries: Seq<RevlogRow>) -> bool {
    forall|i: int| 0 <= i < entries.len() ==> rows.contains_key((#[trigger] entries[i]).id.0)
}

/// What the entries of `entries` hold.
pub open spec fn entry_rows(entries: Seq<RevlogEntry>) -> Seq<RevlogRow> {
    entries.map_values(|e: RevlogEntry| e@)
}

/// An update that proposes what is stored changes nothing: neither the
/// sequence number of the entry nor the journal.
pub proof fn lemma_same_entry_is_no_edit(state: CollectionState, entry: RevlogRow)
    requires
        state.revlog.contains_key(entry.id.0),
        state.revlog[entry.id.0] == entry,
    ensures
        state.with_revlog_edited(entry) == state,
        state.edited_entry(entry) == entry,
{
}

/// An update that proposes something else stores the entry under the
/// sequence number of a change made now, and so under another number than
/// it had, unless it had that number already.
pub proof fn lemma_edit_changes_usn(state: CollectionState, entry: RevlogRow)
    requires
        state.is_edit(entry),
    ensures
        state.with_revlog_edited(entry).revlog.contains_key(entry.id.0),
        state.with_revlog_edited(entry).revlog[entry.id.0].usn == state.change_usn(),
        state.revlog[entry.id.0].usn != state.change_usn() ==> state.with_revlog_edited(
            entry,
        ).revlog[entry.id.0].usn != state.revlog[entry.id.0].usn,
{
    lemma_canonified_keeps_tables(state, entry.tags, state.change_usn());
}

/// Reversing an update gives the entry every value that it had before the
/// update, and reversing that gives it every value of the update. While
/// changes are recorded, each reversal records the change that reverses it.
pub proof fn lemma_undo_restores_entry(state: CollectionState, entry: RevlogRow)
    requires
        state.revlog.contains_key(entry.id.0),
        state.revlog[entry.id.0].id == entry.id,
    ensures
        ({
            let original = state.revlog[entry.id.0];
            let updated = state.with_revlog_updated(entry, original);
            let undone = updated.with_revlog_change_undone(RevlogChange::Updated(original));
            let redone = undone.with_revlog_change_undone(RevlogChange::Updated(entry));
            &&& updated.can_undo(RevlogChange::Updated(original))
            &&& undone.can_undo(RevlogChange::Updated(entry))
            &&& undone.revlog == state.revlog
            &&& undone.revlog[entry.id.0] == original
            &&& redone.revlog == updated.revlog
            &&& redone.revlog[entry.id.0] == entry
            &&& state.recording ==> updated.journal.last() == Change::Revlog(
                RevlogChange::Updated(original),
            ) && undone.journal.last() == Change::Revlog(RevlogChange::Updated(entry))
                && redone.journal.last() == Change::Revlog(RevlogChange::Updated(original))
        }),
{
    let original = state.revlog[entry.id.0];
    let updated = state.with_revlog_updated(entry, original);
    let undone = updated.with_revlog_change_undone(RevlogChange::Updated(original));
    let redone = undone.with_revlog_change_undone(RevlogChange::Updated(entry));
    assert(undone.revlog =~= state.revlog);
    assert(redone.revlog =~= updated.revlog);
}

impl Collection {
    /// Brings the tags of `entry` to their canonical form, making them known
    /// to the registry under `usn`.
    pub fn canonify_revlog_entry_tags(&mut self, entry: &mut RevlogEntry, usn: Usn) -> (result:
        Result<(), AnkiError>)
        requires
            old(self).wf(),
        ensures
            final(self).wf(),
            result is Ok,
            final(self)@ == canonified(old(self)@, old(entry)@.tags, usn).state,
            final(entry)@ == (RevlogRow {
                tags: canonified(old(self)@, old(entry)@.tags, usn).names,
                ..old(entry)@
            }),
    {
        if entry.tags.len() > 0 {
            let mut tags: Vec<String> = Vec::new();
            std::mem::swap(&mut tags, &mut entry.tags);
            match self.canonify_tags(tags, usn) {
                Ok(canon) => {
                    entry.tags = canon.0;
                },
                Err(_) => {},
            }
        } else {
            assert(entry@.tags =~= Seq::<Seq<char>>::empty());
        }
        Ok(())
    }

    /// Stores `entry` in place of the entry with its id, and records
    /// `original` as what that entry was. No field of `entry` is changed on
    /// the way.
    pub fn update_revlog_entry_undoable(&mut self, entry: &RevlogEntry, original: RevlogEntry) -> (result:
        Result<(), AnkiError>)
        requires
            old(self).wf(),
        ensures
            final(self).wf(),
            result is Ok,
            final(self)@ == old(self)@.with_revlog_updated(entry@, original@),
    {
        self.save_undo(UndoableChange::Revlog(UndoableRevlogChange::Updated(Box::new(original))));
        self.storage.update_revlog_entry(entry);
        Ok(())
    }

    /// Writes `tags` to the entry with their id, and records `original` as
    /// what the tags were.
    pub fn update_revlog_tags_undoable(&mut self, tags: &RevlogTags, original: RevlogTags) -> (result:
        Result<(), AnkiError>)
        requires
            old(self).wf(),
        ensures
            final(self).wf(),
            result is Ok,
            final(self)@ == old(self)@.with_revlog_tags_updated(tags@, original@),
    {
        self.save_undo(
            UndoableChange::Revlog(UndoableRevlogChange::TagsUpdated(Box::new(original))),
        );
        self.storage.update_revlog_tags(tags);
        Ok(())
    }

    /// Applies the proposed `entry`: where it differs in any field from the
    /// entry stored under its id, it is stored in its place, with its tags
    /// in canonical form and under the sequence number of a change made
    /// now, and the entry that was stored is recorded. Where it does not
    /// differ, nothing changes. Fails where no entry has its id.
    pub fn update_revlog_entry_inner(&mut self, entry: &mut RevlogEntry) -> (result: Result<
        (),
        AnkiError,
    >)
        requires
            old(self).wf(),
        ensures
            final(self).wf(),
            result is Ok <==> old(self)@.revlog.contains_key(old(entry).id.0),
            final(self)@ == old(self)@.with_revlog_edited(old(entry)@),
            final(entry)@ == old(self)@.edited_entry(old(entry)@),
            result matches Err(err) ==> err is NotFound,
            !old(self)@.is_edit(old(entry)@) ==> *final(self) == *old(self),
    {
        let existing_entry = match self.storage.get_revlog_entry(entry.id) {
            Some(existing) => existing,
            None => {
                return Err(AnkiError::NotFound { id: entry.id.0 });
            },
        };
        if existing_entry.same_as(entry) {
            return Ok(());
        }
        let usn = self.usn();
        let _ = self.canonify_revlog_entry_tags(entry, usn);
        entry.usn = usn;
        proof {
            lemma_canonified_keeps_tables(old(self)@, old(entry)@.tags, usn);
        }
        self.update_revlog_entry_undoable(entry, existing_entry)
    }

    /// Applies the proposed entries, one after the other, as one operation.
    /// With `undoable`, each entry that is replaced is recorded in the undo
    /// journal; without it, nothing is recorded. Fails, and changes nothing,
    /// where one of the entries has an id that no entry is stored under.
    pub fn update_revlog_entries_maybe_undoable(
        &mut self,
        revlog_entries: Vec<RevlogEntry>,
        undoable: bool,
    ) -> (result: Result<OpOutput<()>, AnkiError>)
        requires
            old(self).wf(),
        ensures
            final(self).wf(),
            result is Ok <==> all_editable(old(self)@.revlog, entry_rows(revlog_entries@)),
            match result {
                Ok(out) => ({
                    let during = CollectionState { recording: undoable, ..old(self)@ };
                    let after = during.with_all_edited(entry_rows(revlog_entries@));
                    &&& final(self)@ == (CollectionState {
                        recording: old(self)@.recording,
                        ..after
                    })
                    &&& out.changes.op == Op::UpdateRevlogEntry
                    &&& out.changes.changes == if undoable {
                        kinds_changed(after.journal.skip(old(self)@.journal.len() as int))
                    } else {
                        StateChanges { revlog_entry: true, ..StateChanges::spec_none() }
                    }
                }),
                Err(err) => err is NotFound && *final(self) == *old(self),
            },
    {
        let ghost rows = entry_rows(revlog_entries@);
        let mut k: usize = 0;
        while k < revlog_entries.len()
            invariant
                k <= revlog_entries.len(),
                self.wf(),
                *self == *old(self),
                rows == entry_rows(revlog_entries@),
                forall|i: int| 0 <= i < k ==> self@.revlog.contains_key((#[trigger] rows[i]).id.0),
            decreases revlog_entries.len() - k,
        {
            if !self.storage.revlog.contains(revlog_entries[k].id.0) {
                assert(!self@.revlog.contains_key(rows[k as int].id.0));
                return Err(AnkiError::NotFound { id: revlog_entries[k].id.0 });
            }
            k += 1;
        }
        let was_recording = self.undo.recording;
        let mark = self.undo.len();
        self.undo.recording = undoable;
        let ghost during = self@;
        assert(during == (CollectionState { recording: undoable, ..old(self)@ }));
        let mut i: usize = 0;
        while i < revlog_entries.len()
            invariant
                i <= revlog_entries.len(),
                self.wf(),
                rows == entry_rows(revlog_entries@),
                all_editable(during.revlog, rows),
                self@ == during.with_all_edited(rows.take(i as int)),
                self@.revlog.dom() == during.revlog.dom(),
                during.journal.len() <= self@.journal.len(),
                mark == during.journal.len(),
            decreases revlog_entries.len() - i,
        {
            proof {
                assert(rows.take(i + 1).drop_last() =~= rows.take(i as int));
                assert(rows.take(i + 1).last() == revlog_entries@[i as int]@);
                assert(self@.revlog.dom().contains(rows[i as int].id.0));
                lemma_canonified_keeps_tables(
                    self@,
                    rows[i as int].tags,
                    self@.change_usn(),
                );
            }
            let ghost before = self@;
            let mut revlog_entry = revlog_entries[i].duplicate();
            let _ = self.update_revlog_entry_inner(&mut revlog_entry);
            assert(self@.revlog.dom() =~= before.revlog.dom());
            i += 1;
        }
        assert(rows.take(i as int) =~= rows);
        let changes = if undoable {
            self.undo.kinds_changed_since(mark)
        } else {
            let mut changes = StateChanges::none();
            changes.revlog_entry = true;
            changes
        };
        self.undo.recording = was_recording;
        Ok(OpOutput { output: (), changes: OpChanges { op: Op::UpdateRevlogEntry, changes } })
    }

    /// Removes `entry` from the review log and records it as removed.
    pub fn remove_revlog_entry_undoable(&mut self, entry: RevlogEntry) -> (result: Result<
        (),
        AnkiError,
    >)
        requires
            old(self).wf(),
        ensures
            final(self).wf(),
            result is Ok,
            final(self)@ == old(self)@.with_revlog_removed(entry@),
    {
        self.storage.remove_revlog_entry(entry.id);
        self.save_undo(UndoableChange::Revlog(UndoableRevlogChange::Removed(Box::new(entry))));
        Ok(())
    }

    /// Removes the entry stored under `revlog_id` and records it as removed.
    /// Fails where no entry is stored under it.
    pub fn remove_revlog_entry_inner(&mut self, revlog_id: RevlogId, _usn: Usn) -> (result: Result<
        (),
        AnkiError,
    >)
        requires
            old(self).wf(),
        ensures
            final(self).wf(),
            result is Ok <==> old(self)@.revlog.contains_key(revlog_id.0),
            match result {
                Ok(_) => final(self)@ == old(self)@.with_revlog_removed(
                    old(self)@.revlog[revlog_id.0],
                ),
                Err(err) => err is NotFound && *final(self) == *old(self),
            },
    {
        match self.storage.get_revlog_entry(revlog_id) {
            Some(revlog_entry) => {
                assert(revlog_entry@.id == revlog_id);
                self.remove_revlog_entry_undoable(revlog_entry)
            },
            None => Err(AnkiError::NotFound { id: revlog_id.0 }),
        }
    }

    /// Removes the entries stored under `revlog_ids` as one operation that
    /// can be undone, and returns how many were removed. Fails, and changes
    /// nothing, where an id has no entry or occurs twice.
    pub fn remove_revlog_entries_undoable(&mut self, revlog_ids: &[RevlogId]) -> (result: Result<
        OpOutput<usize>,
        AnkiError,
    >)
        requires
            old(self).wf(),
        ensures
            final(self).wf(),
            result is Ok <==> removable(old(self)@.revlog, revlog_ids@),
            match result {
                Ok(out) => ({
                    let during = CollectionState { recording: true, ..old(self)@ };
                    let after = during.with_all_removed(revlog_ids@);
                    &&& final(self)@ == (CollectionState {
                        recording: old(self)@.recording,
                        ..after
                    })
                    &&& out.output == revlog_ids@.len()
                    &&& out.changes.op == Op::RemoveRevlogEntry
                    &&& out.changes.changes == kinds_changed(
                        after.journal.skip(old(self)@.journal.len() as int),
                    )
                }),
                Err(err) => err is NotFound && *final(self) == *old(self),
            },
    {
        let mut k: usize = 0;
        while k < revlog_ids.len()
            invariant
                k <= revlog_ids.len(),
                self.wf(),
                *self == *old(self),
                forall|i: int|
                    0 <= i < k ==> self@.revlog.contains_key((#[trigger] revlog_ids@[i]).0),
                forall|i: int, j: int| 0 <= i < j < k ==> revlog_ids@[i] != revlog_ids@[j],
            decreases revlog_ids.len() - k,
        {
            let id = revlog_ids[k];
            if !self.storage.revlog.contains(id.0) {
                return Err(AnkiError::NotFound { id: id.0 });
            }
            let mut j: usize = 0;
            while j < k
                invariant
                    j <= k < revlog_ids.len(),
                    self.wf(),
                    *self == *old(self),
                    id == revlog_ids@[k as int],
                    forall|i: int| 0 <= i < j ==> revlog_ids@[i] != id,
                decreases k - j,
            {
                if revlog_ids[j].0 == id.0 {
                    return Err(AnkiError::NotFound { id: id.0 });
                }
                j += 1;
            }
            k += 1;
        }
        let was_recording = self.undo.recording;
        let mark = self.undo.len();
        self.undo.recording = true;
        let ghost during = self@;
        let mut i: usize = 0;
        while i < revlog_ids.len()
            invariant
                i <= revlog_ids.len(),
                self.wf(),
                removable(during.revlog, revlog_ids@),
                self@ == during.with_all_removed(revlog_ids@.take(i as int)),
                forall|j: int|
                    i <= j < revlog_ids.len() ==> self@.revlog.contains_key(
                        (#[trigger] revlog_ids@[j]).0,
                    ),
                during.journal.len() <= self@.journal.len(),
                mark == during.journal.len(),
            decreases revlog_ids.len() - i,
        {
            proof {
                assert(revlog_ids@.take(i + 1).drop_last() =~= revlog_ids@.take(i as int));
                assert(revlog_ids@.take(i + 1).last() == revlog_ids@[i as int]);
            }
            let _ = self.remove_revlog_entry_inner(revlog_ids[i], Usn(0));
            i += 1;
        }
        assert(revlog_ids@.take(i as int) =~= revlog_ids@);
        let changes = self.undo.kinds_changed_since(mark);
        self.undo.recording = was_recording;
        Ok(
            OpOutput {
                output: revlog_ids.len(),
                changes: OpChanges { op: Op::RemoveRevlogEntry, changes },
            },
        )
    }

    /// Reverses the recorded `change`, and records the change that reverses
    /// the reversal. Fails, and changes nothing, where an updated entry is
    /// no longer stored.
    pub fn undo_revlog_change(&mut self, change: UndoableRevlogChange) -> (result: Result<
        (),
        AnkiError,
    >)
        requires
            old(self).wf(),
        ensures
            final(self).wf(),
            result is Ok <==> old(self)@.can_undo(change@),
            match result {
                Ok(_) => final(self)@ == old(self)@.with_revlog_change_undone(change@),
                Err(err) => err is InvalidInput && *final(self) == *old(self),
            },
    {
        match change {
            UndoableRevlogChange::Added(revlog) => {
                self.storage.remove_revlog_entry(revlog.id);
                self.save_undo(UndoableChange::Revlog(UndoableRevlogChange::Removed(revlog)));
                Ok(())
            },
            UndoableRevlogChange::Updated(revlog) => {
                match self.storage.get_revlog_entry(revlog.id) {
                    Some(current) => self.update_revlog_entry_undoable(&revlog, current),
                    None => Err(
                        AnkiError::InvalidInput {
                            info: String::from_str("revlog entry disappeared"),
                        },
                    ),
                }
            },
            UndoableRevlogChange::Removed(revlog) => {
                let ghost row = revlog@;
                let entry: RevlogEntry = *revlog;
                let _ = self.storage.add_revlog_entry(&entry, false);
                self.save_undo(
                    UndoableChange::Revlog(UndoableRevlogChange::Added(Box::new(entry))),
                );
                assert(self@.revlog =~= old(self)@.with_revlog_change_undone(
                    RevlogChange::Removed(row),
                ).revlog);
                Ok(())
            },
            UndoableRevlogChange::TagsUpdated(tags) => {
                match self.storage.get_revlog_tags_by_id(tags.id) {
                    Some(current) => self.update_revlog_tags_undoable(&tags, current),
                    None => Err(
                        AnkiError::InvalidInput {
                            info: String::from_str("revlog entry disappeared"),
                        },
                    ),
                }
            },
        }
    }

    /// Adds `entry` to the review log, under the first free id found by
    /// probing forward from its own if that is taken, and records it as
    /// added. Returns the id under which it was added. Fails, and changes
    /// nothing, where no free id is found.
    pub fn add_revlog_entry_undoable(&mut self, entry: RevlogEntry) -> (result: Result<
        RevlogId,
        AnkiError,
    >)
        requires
            old(self).wf(),
        ensures
            final(self).wf(),
            ({
                let id = insert_id(old(self)@.revlog, entry.id.0, true);
                &&& result is Ok <==> !old(self)@.revlog.contains_key(id)
                &&& match result {
                    Ok(added) => added == RevlogId(id) && final(self)@ == old(
                        self,
                    )@.with_revlog_added(RevlogRow { id: RevlogId(id), ..entry@ }),
                    Err(err) => err is DbError && *final(self) == *old(self),
                }
            }),
    {
        let mut entry = entry;
        match self.storage.add_revlog_entry(&entry, true) {
            Some(id) => {
                entry.id = id;
                self.save_undo(
                    UndoableChange::Revlog(UndoableRevlogChange::Added(Box::new(entry))),
                );
                Ok(id)
            },
            None => Err(
                AnkiError::DbError {
                    info: String::from_str("no available revlog ID"),
                    kind: DbErrorKind::Other,
                },
            ),
        }
    }

    /// Adds `entry` to the review log if its id is free, and then records it
    /// as added. Where the id is taken, nothing changes.
    pub fn add_revlog_entry_if_unique_undoable(&mut self, entry: RevlogEntry) -> (result: Result<
        (),
        AnkiError,
    >)
        requires
            old(self).wf(),
        ensures
            final(self).wf(),
            result is Ok,
            final(self)@ == if old(self)@.revlog.contains_key(entry.id.0) {
                old(self)@
            } else {
                old(self)@.with_revlog_added(entry@)
            },
    {
        if self.storage.add_revlog_entry(&entry, false).is_some() {
            self.save_undo(UndoableChange::Revlog(UndoableRevlogChange::Added(Box::new(entry))));
        }
        Ok(())
    }
}

} // verus!
