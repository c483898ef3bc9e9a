//! The undo journal: the stack of changes that can be reversed.

use crate::notes::NoteTags;
use crate::notes::NoteTagsRow;
use crate::ops::StateChanges;
use crate::revlog::RevlogChange;
use crate::revlog::UndoableRevlogChange;
use crate::tags::Tag;
use crate::tags::TagRow;
use vstd::prelude::*;

verus! {

/// A change to the tags of a note, recorded with the tags as they were.
#[derive(Debug)]
pub enum UndoableNoteChange {
    TagsUpdated(Box<NoteTags>),
}

/// A change to the registry of tags, recorded with the tag that was added
/// or removed.
#[derive(Debug)]
pub enum UndoableTagChange {
    Added(Box<Tag>),
    Removed(Box<Tag>),
}

/// A change that can be reversed.
#[derive(Debug)]
pub enum UndoableChange {
    Revlog(UndoableRevlogChange),
    Note(UndoableNoteChange),
    Tag(UndoableTagChange),
}

/// What a recorded change holds.
#[verifier::ext_equal]
pub enum Change {
    Revlog(RevlogChange),
    NoteTagsUpdated(NoteTagsRow),
    TagAdded(TagRow),
    TagRemoved(TagRow),
}

impl View for UndoableChange {
    type V = Change;

    open spec fn view(&self) -> Change {
        match self {
            UndoableChange::Revlog(change) => Change::Revlog(change@),
            UndoableChange::Note(UndoableNoteChange::TagsUpdated(tags)) => Change::NoteTagsUpdated(
                tags@,
            ),
            UndoableChange::Tag(UndoableTagChange::Added(tag)) => Change::TagAdded(tag@),
            UndoableChange::Tag(UndoableTagChange::Removed(tag)) => Change::TagRemoved(tag@),
        }
    }
}

/// The kinds of objects that the changes `changes` touch.
pub open spec fn kinds_changed(changes: Seq<Change>) -> StateChanges {
    StateChanges {
        revlog_entry: exists|i: int| 0 <= i < changes.len() && #[trigger] changes[i] is Revlog,
        note: exists|i: int| 0 <= i < changes.len() && #[trigger] changes[i] is NoteTagsUpdated,
        tag: exists|i: int|
            0 <= i < changes.len() && (#[trigger] changes[i] is TagAdded || changes[i] is TagRemoved),
        ..StateChanges::spec_none()
    }
}

/// The stack of recorded changes. A change is recorded only while an
/// operation that can be undone is under way.
#[derive(Debug)]
pub struct UndoJournal {
    pub changes: Vec<UndoableChange>,
    /// Whether changes are being recorded.
    pub recording: bool,
}

impl View for UndoJournal {
    type V = Seq<Change>;

    /// The recorded changes, oldest first.
    open spec fn view(&self) -> Seq<Change> {
        self.changes@.map_values(|change: UndoableChange| change@)
    }
}

impl UndoJournal {
    /// An empty journal that is not recording.
    pub fn new() -> (journal: UndoJournal)
        ensures
            journal@ == Seq::<Change>::empty(),
            !journal.recording,
    {
        let journal = UndoJournal { changes: Vec::new(), recording: false };
        assert(journal@ =~= Seq::<Change>::empty());
        journal
    }

    /// How many changes are recorded.
    pub fn len(&self) -> (n: usize)
        ensures
            n == self@.len(),
    {
        self.changes.len()
    }

    /// Records `change` on top of the others, if the journal is recording.
    pub fn push(&mut self, change: UndoableChange)
        ensures
            final(self).recording == old(self).recording,
            final(self)@ == if old(self).recording {
                old(self)@.push(change@)
            } else {
                old(self)@
            },
    {
        if self.recording {
            self.changes.push(change);
            assert(self@ =~= old(self)@.push(change@));
        }
    }

    /// Takes the change recorded last off the journal, if there is one.
    pub fn pop(&mut self) -> (change: Option<UndoableChange>)
        ensures
            final(self).recording == old(self).recording,
            old(self)@.len() == 0 ==> change is None && final(self)@ == old(self)@,
            old(self)@.len() > 0 ==> change is Some && change->0@ == old(self)@.last()
                && final(self)@ == old(self)@.drop_last(),
    {
        let change = self.changes.pop();
        proof {
            if old(self)@.len() > 0 {
                assert(self@ =~= old(self)@.drop_last());
            } else {
                assert(self@ =~= old(self)@);
            }
        }
        change
    }

    /// The kinds of objects touched by the changes recorded from position
    /// `from` on.
    pub fn kinds_changed_since(&self, from: usize) -> (changes: StateChanges)
        requires
            from <= self@.len(),
        ensures
            changes == kinds_changed(self@.skip(from as int)),
    {
        let mut changes = StateChanges::none();
        let mut i: usize = from;
        let ghost all = self@.skip(from as int);
        while i < self.changes.len()
            invariant
                from <= i <= self.changes.len(),
                all == self@.skip(from as int),
                changes == kinds_changed(all.take(i - from)),
            decreases self.changes.len() - i,
        {
            proof {
                let sofar = all.take(i - from);
                let next = all.take(i - from + 1);
                assert(next =~= sofar.push(all[i - from]));
                assert(all[i - from] == self.changes[i as int]@);
                assert forall|k: int| 0 <= k < sofar.len() implies sofar[k] == next[k] by {}
                assert(next[next.len() - 1] == all[i - from]);
            }
            match &self.changes[i] {
                UndoableChange::Revlog(_) => {
                    changes.revlog_entry = true;
                },
                UndoableChange::Note(_) => {
                    changes.note = true;
                },
                UndoableChange::Tag(_) => {
                    changes.tag = true;
                },
            }
            i += 1;
        }
        assert(all.take(i - from) =~= all);
        changes
    }
}

} // verus!
