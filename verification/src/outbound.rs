//! Outbound chunks: the pending objects of a collection, gathered chunk by
//! chunk for the other replica.

use crate::card::Card;
use crate::card::CardRow;
use crate::chunks::CardEntry;
use crate::chunks::Chunk;
use crate::chunks::ExtendedChunk;
use crate::chunks::legacy_of;
use crate::chunks::note_entry_of;
use crate::chunks::NoteEntry;
use crate::chunks::RevlogEntry;
use crate::collection::Collection;
use crate::draw::ChunkableIds;
use crate::draw::DrawnIds;
use crate::error::AnkiError;
use crate::notes::Note;
use crate::notes::NoteRow;
use crate::revlog::RevlogEntry as ExtendedRevlogEntry;
use crate::revlog::RevlogRow;
use crate::storage::all_stored;
use crate::storage::assign_usn;
use crate::storage::copy_to_send;
use crate::storage::find_missing;
use crate::storage::pending_ids;
use crate::storage::pending_row;
use crate::storage::rows_to_send;
use crate::storage::rows_with_usn;
use crate::storage::sent_row;
use crate::types::CardId;
use crate::types::NoteId;
use crate::types::RevlogId;
use crate::types::Usn;
use vstd::prelude::*;

verus! {

/// The exchanged forms of the review-log entries under `ids`, as they are
/// sent under `usn`.
pub open spec fn legacy_sent(rows: Map<i64, RevlogRow>, ids: Seq<i64>, usn: Option<Usn>) -> Seq<
    RevlogEntry,
> {
    ids.map_values(|id: i64| legacy_of(sent_row::<ExtendedRevlogEntry>(rows[id], usn)))
}

/// Whether `entries` are the review-log entries under `ids`, as they are
/// sent under `usn`.
pub open spec fn revlog_sent(
    entries: Seq<ExtendedRevlogEntry>,
    rows: Map<i64, RevlogRow>,
    ids: Seq<i64>,
    usn: Option<Usn>,
) -> bool {
    &&& entries.len() == ids.len()
    &&& forall|j: int|
        0 <= j < ids.len() ==> (#[trigger] entries[j])@ == sent_row::<ExtendedRevlogEntry>(
            rows[ids[j]],
            usn,
        )
}

/// Whether `entries` are the cards under `ids`, as they are sent under
/// `usn`.
pub open spec fn cards_sent(
    entries: Seq<CardEntry>,
    rows: Map<i64, CardRow>,
    ids: Seq<i64>,
    usn: Option<Usn>,
) -> bool {
    &&& entries.len() == ids.len()
    &&& forall|j: int|
        0 <= j < ids.len() ==> (#[trigger] entries[j])@ == sent_row::<Card>(rows[ids[j]], usn)
}

/// Whether `entries` are the notes under `ids`, as they are sent under
/// `usn`.
pub open spec fn notes_sent(
    entries: Seq<NoteEntry>,
    rows: Map<i64, NoteRow>,
    ids: Seq<i64>,
    usn: Option<Usn>,
) -> bool {
    &&& entries.len() == ids.len()
    &&& forall|j: int|
        0 <= j < ids.len() ==> (#[trigger] entries[j])@ == note_entry_of(
            sent_row::<Note>(rows[ids[j]], usn),
        )
}

impl Collection {
    /// Whether every object that the next draw from `ids` takes is stored.
    pub open spec fn can_send(&self, ids: &ChunkableIds) -> bool {
        &&& all_stored(self.storage.revlog@, ids.next_revlog())
        &&& all_stored(self.storage.cards@, ids.next_cards())
        &&& all_stored(self.storage.notes@, ids.next_notes())
    }

    /// Whether `after` is this collection once the objects of the next draw
    /// from `ids` are no longer pending: a client that is told the
    /// server's sequence number stores the drawn objects under it, and
    /// nothing else changes; a server, or a client that is told no number,
    /// changes nothing.
    pub open spec fn marked_sent(
        &self,
        after: &Collection,
        ids: &ChunkableIds,
        usn: Option<Usn>,
    ) -> bool {
        &&& after.undo == self.undo
        &&& after.server == self.server
        &&& after.storage.same_but_rows(&self.storage)
        &&& match usn {
            Some(usn) if !self.server => {
                &&& after.storage.revlog@ == rows_with_usn::<ExtendedRevlogEntry>(
                    self.storage.revlog@,
                    ids.next_revlog(),
                    usn,
                )
                &&& after.storage.cards@ == rows_with_usn::<Card>(
                    self.storage.cards@,
                    ids.next_cards(),
                    usn,
                )
                &&& after.storage.notes@ == rows_with_usn::<Note>(
                    self.storage.notes@,
                    ids.next_notes(),
                    usn,
                )
            },
            _ => {
                &&& after.storage.revlog@ == self.storage.revlog@
                &&& after.storage.cards@ == self.storage.cards@
                &&& after.storage.notes@ == self.storage.notes@
            },
        }
    }

    /// The ids of the objects that are pending relative to `pending_usn`,
    /// each list in the order of its table.
    pub fn get_chunkable_ids(&self, pending_usn: Usn) -> (ids: ChunkableIds)
        requires
            self.wf(),
        ensures
            ids.revlog@ == self.storage.revlog.ids_where(
                pending_row::<ExtendedRevlogEntry>(pending_usn),
            ),
            ids.cards@ == self.storage.cards.ids_where(pending_row::<Card>(pending_usn)),
            ids.notes@ == self.storage.notes.ids_where(pending_row::<Note>(pending_usn)),
    {
        ChunkableIds {
            revlog: pending_ids(&self.storage.revlog, pending_usn),
            cards: pending_ids(&self.storage.cards, pending_usn),
            notes: pending_ids(&self.storage.notes, pending_usn),
        }
    }

    /// An id among `drawn` under which nothing is stored, if there is one.
    fn find_unstored(&self, drawn: &DrawnIds) -> (missing: Option<i64>)
        requires
            self.wf(),
        ensures
            missing is None <==> (all_stored(self.storage.revlog@, drawn.revlog@) && all_stored(
                self.storage.cards@,
                drawn.cards@,
            ) && all_stored(self.storage.notes@, drawn.notes@)),
    {
        match find_missing(&self.storage.revlog, &drawn.revlog) {
            Some(id) => Some(id),
            None => match find_missing(&self.storage.cards, &drawn.cards) {
                Some(id) => Some(id),
                None => find_missing(&self.storage.notes, &drawn.notes),
            },
        }
    }

    /// The cards under `ids`, as they are sent under `usn`.
    fn cards_to_send(&self, ids: &Vec<i64>, usn: Option<Usn>) -> (entries: Vec<CardEntry>)
        requires
            self.wf(),
            all_stored(self.storage.cards@, ids@),
        ensures
            cards_sent(entries@, self.storage.cards@, ids@, usn),
    {
        let mut entries: Vec<CardEntry> = Vec::new();
        let mut i: usize = 0;
        while i < ids.len()
            invariant
                i <= ids.len(),
                self.wf(),
                all_stored(self.storage.cards@, ids@),
                cards_sent(entries@, self.storage.cards@, ids@.take(i as int), usn),
            decreases ids.len() - i,
        {
            assert(self.storage.cards@.contains_key(ids@[i as int]));
            match self.storage.cards.get(ids[i]) {
                Some(row) => {
                    entries.push(CardEntry::from(copy_to_send(row, usn)));
                },
                None => {},
            }
            i += 1;
        }
        assert(ids@.take(i as int) =~= ids@);
        entries
    }

    /// The notes under `ids`, as they are sent under `usn`.
    fn notes_to_send(&self, ids: &Vec<i64>, usn: Option<Usn>) -> (entries: Vec<NoteEntry>)
        requires
            self.wf(),
            all_stored(self.storage.notes@, ids@),
        ensures
            notes_sent(entries@, self.storage.notes@, ids@, usn),
    {
        let mut entries: Vec<NoteEntry> = Vec::new();
        let mut i: usize = 0;
        while i < ids.len()
            invariant
                i <= ids.len(),
                self.wf(),
                all_stored(self.storage.notes@, ids@),
                notes_sent(entries@, self.storage.notes@, ids@.take(i as int), usn),
            decreases ids.len() - i,
        {
            assert(self.storage.notes@.contains_key(ids@[i as int]));
            match self.storage.notes.get(ids[i]) {
                Some(row) => {
                    entries.push(NoteEntry::from(copy_to_send(row, usn)));
                },
                None => {},
            }
            i += 1;
        }
        assert(ids@.take(i as int) =~= ids@);
        entries
    }

    /// The exchanged forms of the review-log entries under `ids`, as they
    /// are sent under `usn`.
    fn legacy_revlog_to_send(&self, ids: &Vec<i64>, usn: Option<Usn>) -> (entries: Vec<
        RevlogEntry,
    >)
        requires
            self.wf(),
            all_stored(self.storage.revlog@, ids@),
        ensures
            entries@ == legacy_sent(self.storage.revlog@, ids@, usn),
    {
        let mut entries: Vec<RevlogEntry> = Vec::new();
        let mut i: usize = 0;
        while i < ids.len()
            invariant
                i <= ids.len(),
                self.wf(),
                all_stored(self.storage.revlog@, ids@),
                entries@ == legacy_sent(self.storage.revlog@, ids@.take(i as int), usn),
            decreases ids.len() - i,
        {
            assert(self.storage.revlog@.contains_key(ids@[i as int]));
            match self.storage.revlog.get(ids[i]) {
                Some(row) => {
                    entries.push(RevlogEntry::from(copy_to_send(row, usn)));
                },
                None => {},
            }
            assert(entries@ =~= legacy_sent(self.storage.revlog@, ids@.take(i + 1), usn));
            i += 1;
        }
        assert(ids@.take(i as int) =~= ids@);
        entries
    }

    /// Stores the drawn objects as no longer pending.
    fn mark_sent_ids(&mut self, drawn: &DrawnIds, usn: Option<Usn>)
        requires
            old(self).wf(),
        ensures
            final(self).wf(),
            final(self).undo == old(self).undo,
            final(self).server == old(self).server,
            final(self).storage.same_but_rows(&old(self).storage),
            match usn {
                Some(usn) if !old(self).server => {
                    &&& final(self).storage.revlog@ == rows_with_usn::<ExtendedRevlogEntry>(
                        old(self).storage.revlog@,
                        drawn.revlog@,
                        usn,
                    )
                    &&& final(self).storage.cards@ == rows_with_usn::<Card>(
                        old(self).storage.cards@,
                        drawn.cards@,
                        usn,
                    )
                    &&& final(self).storage.notes@ == rows_with_usn::<Note>(
                        old(self).storage.notes@,
                        drawn.notes@,
                        usn,
                    )
                },
                _ => {
                    &&& final(self).storage.revlog@ == old(self).storage.revlog@
                    &&& final(self).storage.cards@ == old(self).storage.cards@
                    &&& final(self).storage.notes@ == old(self).storage.notes@
                },
            },
    {
        if !self.server {
            match usn {
                Some(usn) => {
                    assign_usn(&mut self.storage.revlog, &drawn.revlog, usn);
                    assign_usn(&mut self.storage.cards, &drawn.cards, usn);
                    assign_usn(&mut self.storage.notes, &drawn.notes, usn);
                    proof {
                        assert forall|id: i64| #[trigger]
                            self.storage.revlog@.contains_key(id) implies self.storage.revlog@[id].id
                            == RevlogId(id) by {
                            assert(old(self).storage.revlog@.contains_key(id));
                        }
                        assert forall|id: i64| #[trigger]
                            self.storage.cards@.contains_key(id) implies self.storage.cards@[id].id
                            == CardId(id) by {
                            assert(old(self).storage.cards@.contains_key(id));
                        }
                        assert forall|id: i64| #[trigger]
                            self.storage.notes@.contains_key(id) implies self.storage.notes@[id].id
                            == NoteId(id) by {
                            assert(old(self).storage.notes@.contains_key(id));
                        }
                    }
                },
                None => {},
            }
        }
    }

    /// Draws the next chunk of ids from `ids` and returns the objects under
    /// them, review-log entries in their exchanged form. Given a sequence
    /// number, the objects are sent under it, and a client then also stores
    /// them under it, so that they are no longer pending. Where a drawn id
    /// has no object, nothing is sent and the storage stays as it is.
    pub fn get_chunk(&mut self, ids: &mut ChunkableIds, server_usn_if_client: Option<Usn>) -> (result:
        Result<Chunk, AnkiError>)
        requires
            old(self).wf(),
        ensures
            final(self).wf(),
            old(ids).drawn_to(final(ids)),
            result is Ok <==> old(self).can_send(old(ids)),
            match result {
                Ok(chunk) => {
                    &&& chunk.done == old(ids).next_done()
                    &&& chunk.revlog@ == legacy_sent(
                        old(self).storage.revlog@,
                        old(ids).next_revlog(),
                        server_usn_if_client,
                    )
                    &&& cards_sent(
                        chunk.cards@,
                        old(self).storage.cards@,
                        old(ids).next_cards(),
                        server_usn_if_client,
                    )
                    &&& notes_sent(
                        chunk.notes@,
                        old(self).storage.notes@,
                        old(ids).next_notes(),
                        server_usn_if_client,
                    )
                    &&& old(self).marked_sent(final(self), old(ids), server_usn_if_client)
                },
                Err(err) => err is NotFound && *final(self) == *old(self),
            },
    {
        let drawn = ids.draw();
        match self.find_unstored(&drawn) {
            Some(id) => Err(AnkiError::NotFound { id }),
            None => {
                let revlog = self.legacy_revlog_to_send(&drawn.revlog, server_usn_if_client);
                let cards = self.cards_to_send(&drawn.cards, server_usn_if_client);
                let notes = self.notes_to_send(&drawn.notes, server_usn_if_client);
                self.mark_sent_ids(&drawn, server_usn_if_client);
                Ok(Chunk { done: drawn.done, revlog, cards, notes })
            },
        }
    }

    /// Draws the next chunk of ids from `ids` and returns the objects under
    /// them, review-log entries in full. Given a sequence number, the objects
    /// are sent under it, and a client then also stores them under it, so
    /// that they are no longer pending. Where a drawn id has no object,
    /// nothing is sent and the storage stays as it is.
    pub fn get_extended_chunk(
        &mut self,
        ids: &mut ChunkableIds,
        server_usn_if_client: Option<Usn>,
    ) -> (result: Result<ExtendedChunk, AnkiError>)
        requires
            old(self).wf(),
        ensures
            final(self).wf(),
            old(ids).drawn_to(final(ids)),
            result is Ok <==> old(self).can_send(old(ids)),
            match result {
                Ok(chunk) => {
                    &&& chunk.done == old(ids).next_done()
                    &&& revlog_sent(
                        chunk.extended_revlog@,
                        old(self).storage.revlog@,
                        old(ids).next_revlog(),
                        server_usn_if_client,
                    )
                    &&& cards_sent(
                        chunk.cards@,
                        old(self).storage.cards@,
                        old(ids).next_cards(),
                        server_usn_if_client,
                    )
                    &&& notes_sent(
                        chunk.notes@,
                        old(self).storage.notes@,
                        old(ids).next_notes(),
                        server_usn_if_client,
                    )
                    &&& old(self).marked_sent(final(self), old(ids), server_usn_if_client)
                },
                Err(err) => err is NotFound && *final(self) == *old(self),
            },
    {
        let drawn = ids.draw();
        match self.find_unstored(&drawn) {
            Some(id) => Err(AnkiError::NotFound { id }),
            None => {
                let extended_revlog = rows_to_send(
                    &self.storage.revlog,
                    &drawn.revlog,
                    server_usn_if_client,
                );
                let cards = self.cards_to_send(&drawn.cards, server_usn_if_client);
                let notes = self.notes_to_send(&drawn.notes, server_usn_if_client);
                self.mark_sent_ids(&drawn, server_usn_if_client);
                Ok(ExtendedChunk { done: drawn.done, extended_revlog, cards, notes })
            },
        }
    }
}

} // verus!
