//! The collection: the storage, the undo journal, and the role in which the
//! collection takes part in a synchronisation.

use crate::card::CardRow;
use crate::notes::NoteRow;
use crate::revlog::RevlogRow;
use crate::storage::SqliteStorage;
use crate::tags::TagRow;
use crate::types::NotetypeId;
use crate::undo::Change;
use crate::types::Usn;
use crate::types::PENDING_USN;
use crate::undo::UndoJournal;
use crate::undo::UndoableChange;
use vstd::prelude::*;

verus! {

/// What a collection holds: the rows of its tables by id, the registry of
/// tags, the notetypes, its sequence number and role, the version of the
/// extended schema, and the undo journal.
#[verifier::ext_equal]
pub struct CollectionState {
    pub revlog: Map<i64, RevlogRow>,
    pub cards: Map<i64, CardRow>,
    pub notes: Map<i64, NoteRow>,
    pub registry: Seq<TagRow>,
    pub notetypes: Seq<NotetypeId>,
    pub usn: Usn,
    pub server: bool,
    pub ankimath_version: Option<u64>,
    pub journal: Seq<Change>,
    pub recording: bool,
}

impl CollectionState {
    /// The sequence number that a change made now is stored under.
    pub open spec fn change_usn(self) -> Usn {
        if self.server {
            self.usn
        } else {
            Usn(PENDING_USN)
        }
    }

    /// The state with `change` recorded, if changes are being recorded.
    pub open spec fn record(self, change: Change) -> CollectionState {
        if self.recording {
            CollectionState { journal: self.journal.push(change), ..self }
        } else {
            self
        }
    }
}

/// A collection.
pub struct Collection {
    pub storage: SqliteStorage,
    /// The changes that can be undone.
    pub undo: UndoJournal,
    /// Whether the collection acts as the server of a synchronisation.
    pub server: bool,
}

impl View for Collection {
    type V = CollectionState;

    open spec fn view(&self) -> CollectionState {
        CollectionState {
            revlog: self.storage.revlog@,
            cards: self.storage.cards@,
            notes: self.storage.notes@,
            registry: self.storage.registry(),
            notetypes: self.storage.notetypes@,
            usn: self.storage.usn,
            server: self.server,
            ankimath_version: self.storage.ankimath_version,
            journal: self.undo@,
            recording: self.undo.recording,
        }
    }
}

impl Collection {
    /// The collection is well formed: its storage is.
    pub open spec fn wf(&self) -> bool {
        self.storage.wf()
    }

    /// Whether the collection is well formed. A collection that was changed
    /// by its own functions and those of its storage alone always is.
    pub fn is_consistent(&self) -> (ok: bool)
        ensures
            ok == self.wf(),
    {
        self.storage.is_consistent()
    }

    /// An empty collection with an empty undo journal.
    pub fn new(server: bool) -> (col: Collection)
        ensures
            col.wf(),
            col.server == server,
            col@ == (CollectionState {
                revlog: Map::empty(),
                cards: Map::empty(),
                notes: Map::empty(),
                registry: Seq::empty(),
                notetypes: Seq::empty(),
                usn: Usn(0),
                server,
                ankimath_version: None,
                journal: Seq::empty(),
                recording: false,
            }),
    {
        Collection { storage: SqliteStorage::new(), undo: UndoJournal::new(), server }
    }

    /// The collection that is opened on `storage`: its undo journal is empty
    /// and not recording.
    pub fn open(storage: SqliteStorage, server: bool) -> (col: Collection)
        ensures
            col.storage == storage,
            col.server == server,
            col.undo@ == Seq::<Change>::empty(),
            !col.undo.recording,
    {
        Collection { storage, undo: UndoJournal::new(), server }
    }

    /// Closes the collection: its storage is handed back, and the undo
    /// journal is given up.
    pub fn close(self) -> (storage: SqliteStorage)
        ensures
            storage == self.storage,
    {
        self.storage
    }

    /// The sequence number that a change made now is stored under.
    pub fn usn(&self) -> (usn: Usn)
        ensures
            usn == self@.change_usn(),
    {
        if self.server {
            self.storage.usn
        } else {
            Usn(PENDING_USN)
        }
    }

    /// Records `change` in the undo journal, if an operation that can be
    /// undone is under way.
    pub fn save_undo(&mut self, change: UndoableChange)
        ensures
            final(self).storage == old(self).storage,
            final(self).server == old(self).server,
            final(self).undo.recording == old(self).undo.recording,
            final(self).undo@ == if old(self).undo.recording {
                old(self).undo@.push(change@)
            } else {
                old(self).undo@
            },
            final(self)@ == old(self)@.record(change@),
    {
        self.undo.push(change);
    }
}

} // verus!
