//! The steps of a synchronisation in chunks: what to ask of the other side
//! next, and what to do with what it answered. Whoever talks to the other
//! side performs one step for each round trip, each only when the one before
//! it is complete.

use crate::inbound::card_rows;
use crate::outbound::cards_sent;
use crate::chunks::extended_of;
use crate::outbound::legacy_sent;
use crate::inbound::note_entry_rows;
use crate::inbound::notes_mergeable;
use crate::outbound::notes_sent;
use crate::inbound::revlog_rows;
use crate::outbound::revlog_sent;
use crate::card::Card;
use crate::chunks::ApplyChunkRequest;
use crate::chunks::ApplyExtendedChunkRequest;
use crate::chunks::Chunk;
use crate::draw::ChunkableIds;
use crate::chunks::ExtendedChunk;
use crate::chunks::RevlogEntry;
use crate::collection::Collection;
use crate::error::AnkiError;
use crate::notes::Note;
use crate::revlog::RevlogEntry as ExtendedRevlogEntry;
use crate::storage::pending_row;
use crate::text::chars_eq;
use crate::text::chars_of;
use crate::types::Usn;
use crate::version::VersionInfo;
use crate::version::ANKIMATH_VARIANT;
use vstd::prelude::*;
use vstd::string::StringExecFns;

verus! {

/// What a client knows of a synchronisation that is under way.
#[derive(Debug)]
pub struct ClientSyncState {
    /// The sequence number against which local objects count as pending.
    pub pending_usn: Usn,
    /// The sequence number under which the server stores what it is sent.
    pub server_usn: Usn,
    /// What the server said of its version, if it said anything.
    pub server_version: Option<VersionInfo>,
}

/// What a server knows of a synchronisation that is under way.
#[derive(Debug)]
pub struct ServerSyncState {
    pub server_usn: Usn,
    /// The sequence number against which the server's objects count as
    /// pending for this client.
    pub client_usn: Usn,
    /// The ids that are still to be sent to the client, once they have been
    /// gathered.
    pub server_chunk_ids: Option<ChunkableIds>,
}

/// How many objects were exchanged so far.
#[derive(Clone, Copy, Debug, PartialEq, Eq, Structural)]
pub struct NormalSyncProgress {
    pub local_update: usize,
    pub local_remove: usize,
    pub remote_update: usize,
    pub remote_remove: usize,
}

/// What to ask of the server.
#[derive(Debug)]
pub enum SyncRequest {
    /// The next chunk, with review-log entries in their exchanged form.
    Chunk,
    /// The next chunk, with review-log entries in full.
    ExtendedChunk,
    /// To merge a chunk.
    ApplyChunk(ApplyChunkRequest),
    /// To merge a chunk with review-log entries in full.
    ApplyExtendedChunk(ApplyExtendedChunkRequest),
}

/// What the server answered when asked for a chunk.
#[derive(Debug)]
pub enum ChunkResponse {
    Chunk(Chunk),
    ExtendedChunk(ExtendedChunk),
}

/// The form in which the chunks of a synchronisation carry review-log
/// entries.
#[derive(Clone, Copy, Debug, PartialEq, Eq, Structural)]
pub enum WireVariant {
    /// The form that every peer understands: without feedback and tags.
    Legacy,
    /// In full.
    Extended,
}

/// What is settled once for a whole synchronisation: the form of the
/// chunks, and the sequence numbers to go by. Every step of the
/// synchronisation, in either direction, is given the same session.
#[derive(Clone, Copy, Debug, PartialEq, Eq, Structural)]
pub struct SyncSession {
    pub variant: WireVariant,
    /// The sequence number against which local objects count as pending.
    pub pending_usn: Usn,
    /// The sequence number under which the server stores what it is sent.
    pub server_usn: Usn,
}

/// The sum of `count` and `more`, or the largest number there is where the
/// sum is larger.
pub open spec fn capped_sum(count: usize, more: nat) -> usize {
    if count + more <= usize::MAX {
        (count + more) as usize
    } else {
        usize::MAX
    }
}

/// `count` and three numbers more, capped.
fn add_capped(count: usize, a: usize, b: usize, c: usize) -> (sum: usize)
    ensures
        sum == capped_sum(count, (a + b + c) as nat),
{
    let ab = if a <= usize::MAX - b { a + b } else { usize::MAX };
    let abc = if ab <= usize::MAX - c { ab + c } else { usize::MAX };
    if count <= usize::MAX - abc { count + abc } else { usize::MAX }
}

/// Whether a server that said `version` of itself exchanges review-log
/// entries in full: whether it named the variant that does.
pub open spec fn is_extended_peer(version: Option<VersionInfo>) -> bool {
    version matches Some(info) && info.variant@ == ANKIMATH_VARIANT@
}

impl ClientSyncState {
    /// Whether the server exchanges review-log entries in full. That is
    /// decided once for the whole synchronisation.
    pub fn found_extended_server(&self) -> (extended: bool)
        ensures
            extended == is_extended_peer(self.server_version),
    {
        match &self.server_version {
            Some(info) => {
                let theirs = chars_of(info.variant.as_str());
                let ours = chars_of(ANKIMATH_VARIANT);
                chars_eq(&theirs, &ours)
            },
            None => false,
        }
    }

    /// What is settled for the synchronisation that this state belongs to.
    /// The chunks carry review-log entries in full if the server exchanges
    /// them so, else in the form that every peer understands.
    pub fn session(&self) -> (session: SyncSession)
        ensures
            session == (SyncSession {
                variant: if is_extended_peer(self.server_version) {
                    WireVariant::Extended
                } else {
                    WireVariant::Legacy
                },
                pending_usn: self.pending_usn,
                server_usn: self.server_usn,
            }),
    {
        SyncSession {
            variant: if self.found_extended_server() {
                WireVariant::Extended
            } else {
                WireVariant::Legacy
            },
            pending_usn: self.pending_usn,
            server_usn: self.server_usn,
        }
    }
}

impl SyncSession {
    /// The request for the next chunk of the server.
    pub fn chunk_request(&self) -> (request: SyncRequest)
        ensures
            self.variant == WireVariant::Extended ==> request is ExtendedChunk,
            self.variant == WireVariant::Legacy ==> request is Chunk,
    {
        match self.variant {
            WireVariant::Extended => SyncRequest::ExtendedChunk,
            WireVariant::Legacy => SyncRequest::Chunk,
        }
    }
}

impl Collection {
    /// Takes in a chunk that the server sent: counts its objects as
    /// received, then merges it. Returns the request for the next chunk, or
    /// nothing once the server has sent its last. A chunk of the form that
    /// was not asked for is refused. The objects count as received even
    /// where the chunk is then refused or cannot be merged; the collection
    /// stays as it is in both cases.
    pub fn process_chunk_from_server(
        &mut self,
        session: &SyncSession,
        progress: &mut NormalSyncProgress,
        response: ChunkResponse,
    ) -> (result: Result<Option<SyncRequest>, AnkiError>)
        requires
            old(self).wf(),
        ensures
            final(self).wf(),
            final(progress).local_update == old(progress).local_update,
            final(progress).local_remove == old(progress).local_remove,
            final(progress).remote_remove == old(progress).remote_remove,
            match response {
                ChunkResponse::Chunk(chunk) => {
                    &&& final(progress).remote_update == capped_sum(
                        old(progress).remote_update,
                        chunk.cards@.len() + chunk.notes@.len() + chunk.revlog@.len(),
                    )
                    &&& result is Ok <==> session.variant == WireVariant::Legacy
                        && notes_mergeable(
                        old(self).storage.notes@,
                        note_entry_rows(chunk.notes@),
                        session.pending_usn,
                        old(self).storage.notetypes@,
                    )
                    &&& result matches Ok(next) ==> {
                        &&& old(self).merged_into(
                            final(self),
                            chunk.revlog@.map_values(|e: RevlogEntry| extended_of(e)),
                            card_rows(chunk.cards@),
                            note_entry_rows(chunk.notes@),
                            session.pending_usn,
                        )
                        &&& chunk.done <==> next is None
                        &&& next matches Some(request) ==> request is Chunk
                    }
                },
                ChunkResponse::ExtendedChunk(chunk) => {
                    &&& final(progress).remote_update == capped_sum(
                        old(progress).remote_update,
                        chunk.cards@.len() + chunk.notes@.len() + chunk.extended_revlog@.len(),
                    )
                    &&& result is Ok <==> session.variant == WireVariant::Extended
                        && notes_mergeable(
                        old(self).storage.notes@,
                        note_entry_rows(chunk.notes@),
                        session.pending_usn,
                        old(self).storage.notetypes@,
                    )
                    &&& result matches Ok(next) ==> {
                        &&& old(self).merged_into(
                            final(self),
                            revlog_rows(chunk.extended_revlog@),
                            card_rows(chunk.cards@),
                            note_entry_rows(chunk.notes@),
                            session.pending_usn,
                        )
                        &&& chunk.done <==> next is None
                        &&& next matches Some(request) ==> request is ExtendedChunk
                    }
                },
            },
            result matches Err(err) ==> err is InvalidInput && *final(self) == *old(self),
    {
        let extended = session.variant == WireVariant::Extended;
        match response {
            ChunkResponse::Chunk(chunk) => {
                progress.remote_update = add_capped(
                    progress.remote_update,
                    chunk.cards.len(),
                    chunk.notes.len(),
                    chunk.revlog.len(),
                );
                if extended {
                    return Err(unexpected_chunk());
                }
                let done = chunk.done;
                match self.apply_chunk(chunk, session.pending_usn) {
                    Ok(_) => {
                        if done {
                            Ok(None)
                        } else {
                            Ok(Some(SyncRequest::Chunk))
                        }
                    },
                    Err(err) => Err(err),
                }
            },
            ChunkResponse::ExtendedChunk(extended_chunk) => {
                progress.remote_update = add_capped(
                    progress.remote_update,
                    extended_chunk.cards.len(),
                    extended_chunk.notes.len(),
                    extended_chunk.extended_revlog.len(),
                );
                if !extended {
                    return Err(unexpected_chunk());
                }
                let done = extended_chunk.done;
                match self.apply_extended_chunk(extended_chunk, session.pending_usn) {
                    Ok(_) => {
                        if done {
                            Ok(None)
                        } else {
                            Ok(Some(SyncRequest::ExtendedChunk))
                        }
                    },
                    Err(err) => Err(err),
                }
            },
        }
    }

    /// Draws the next chunk for the server from `ids`, to be stored there
    /// under the server's sequence number, and counts its objects as sent.
    /// Returns the request that carries the chunk, and whether the chunk is
    /// the last. The chunk has the form that the server understands. Where a
    /// drawn id has no object, nothing is sent or counted.
    pub fn next_chunk_for_server(
        &mut self,
        session: &SyncSession,
        progress: &mut NormalSyncProgress,
        ids: &mut ChunkableIds,
    ) -> (result: Result<(SyncRequest, bool), AnkiError>)
        requires
            old(self).wf(),
        ensures
            final(self).wf(),
            old(ids).drawn_to(final(ids)),
            final(progress).remote_update == old(progress).remote_update,
            final(progress).local_remove == old(progress).local_remove,
            final(progress).remote_remove == old(progress).remote_remove,
            result is Ok <==> old(self).can_send(old(ids)),
            match result {
                Ok((request, done)) => {
                    &&& done == old(ids).next_done()
                    &&& old(self).marked_sent(final(self), old(ids), Some(session.server_usn))
                    &&& final(progress).local_update == capped_sum(
                        old(progress).local_update,
                        old(ids).next_cards().len() + old(ids).next_notes().len() + old(
                            ids,
                        ).next_revlog().len(),
                    )
                    &&& if session.variant == WireVariant::Extended {
                        &&& request matches SyncRequest::ApplyExtendedChunk(req)
                        &&& req.extended_chunk.done == done
                        &&& revlog_sent(
                            req.extended_chunk.extended_revlog@,
                            old(self).storage.revlog@,
                            old(ids).next_revlog(),
                            Some(session.server_usn),
                        )
                        &&& cards_sent(
                            req.extended_chunk.cards@,
                            old(self).storage.cards@,
                            old(ids).next_cards(),
                            Some(session.server_usn),
                        )
                        &&& notes_sent(
                            req.extended_chunk.notes@,
                            old(self).storage.notes@,
                            old(ids).next_notes(),
                            Some(session.server_usn),
                        )
                    } else {
                        &&& request matches SyncRequest::ApplyChunk(req)
                        &&& req.chunk.done == done
                        &&& req.chunk.revlog@ == legacy_sent(
                            old(self).storage.revlog@,
                            old(ids).next_revlog(),
                            Some(session.server_usn),
                        )
                        &&& cards_sent(
                            req.chunk.cards@,
                            old(self).storage.cards@,
                            old(ids).next_cards(),
                            Some(session.server_usn),
                        )
                        &&& notes_sent(
                            req.chunk.notes@,
                            old(self).storage.notes@,
                            old(ids).next_notes(),
                            Some(session.server_usn),
                        )
                    }
                },
                Err(err) => err is NotFound && *final(self) == *old(self) && *final(progress)
                    == *old(progress),
            },
    {
        if session.variant == WireVariant::Extended {
            match self.get_extended_chunk(ids, Some(session.server_usn)) {
                Ok(extended_chunk) => {
                    let done = extended_chunk.done;
                    progress.local_update = add_capped(
                        progress.local_update,
                        extended_chunk.cards.len(),
                        extended_chunk.notes.len(),
                        extended_chunk.extended_revlog.len(),
                    );
                    Ok(
                        (
                            SyncRequest::ApplyExtendedChunk(
                                ApplyExtendedChunkRequest { extended_chunk },
                            ),
                            done,
                        ),
                    )
                },
                Err(err) => Err(err),
            }
        } else {
            match self.get_chunk(ids, Some(session.server_usn)) {
                Ok(chunk) => {
                    let done = chunk.done;
                    progress.local_update = add_capped(
                        progress.local_update,
                        chunk.cards.len(),
                        chunk.notes.len(),
                        chunk.revlog.len(),
                    );
                    Ok((SyncRequest::ApplyChunk(ApplyChunkRequest { chunk }), done))
                },
                Err(err) => Err(err),
            }
        }
    }
}

/// The error for a chunk of the form that was not asked for: the chunk is
/// refused as invalid input, and the error says that it has the other form.
fn unexpected_chunk() -> (err: AnkiError)
    ensures
        err matches AnkiError::InvalidInput { info } && info@ == "chunk of the other form"@,
{
    AnkiError::InvalidInput { info: String::from_str("chunk of the other form") }
}

/// The ids that are still to be sent to the client: those that `state`
/// holds, or, where it holds none yet, the ids of what is pending for the
/// client.
fn take_server_chunk_ids(col: &Collection, state: &mut ServerSyncState) -> (ids: ChunkableIds)
    requires
        col.wf(),
    ensures
        final(state).server_usn == old(state).server_usn,
        final(state).client_usn == old(state).client_usn,
        final(state).server_chunk_ids is None,
        match old(state).server_chunk_ids {
            Some(held) => ids == held,
            None => is_pending_for(col, old(state).client_usn, &ids),
        },
{
    let mut held: Option<ChunkableIds> = None;
    std::mem::swap(&mut held, &mut state.server_chunk_ids);
    match held {
        Some(ids) => ids,
        None => col.get_chunkable_ids(state.client_usn),
    }
}

/// Whether `ids` are the ids of what is pending in `col` relative to
/// `pending_usn`.
pub open spec fn is_pending_for(col: &Collection, pending_usn: Usn, ids: &ChunkableIds) -> bool {
    &&& ids.revlog@ == col.storage.revlog.ids_where(
        pending_row::<ExtendedRevlogEntry>(pending_usn),
    )
    &&& ids.cards@ == col.storage.cards.ids_where(
        pending_row::<Card>(pending_usn),
    )
    &&& ids.notes@ == col.storage.notes.ids_where(
        pending_row::<Note>(pending_usn),
    )
}

/// Whether `ids` are the ids that a server with the state `state` has still
/// to send from `col`.
pub open spec fn is_to_send(col: &Collection, state: &ServerSyncState, ids: &ChunkableIds) -> bool {
    match state.server_chunk_ids {
        Some(held) => *ids == held,
        None => is_pending_for(col, state.client_usn, ids),
    }
}

/// The next chunk of a server for its client, with review-log entries in
/// their exchanged form. The ids to send are gathered when the first chunk is
/// asked for. The objects are sent under the numbers that they are stored
/// under, and the server's storage stays as it is.
pub fn server_chunk(
    col: &mut Collection,
    state: &mut ServerSyncState,
    client_version_info: Option<VersionInfo>,
) -> (result: Result<Chunk, AnkiError>)
    requires
        old(col).wf(),
    ensures
        final(col).wf(),
        final(state).server_usn == old(state).server_usn,
        final(state).client_usn == old(state).client_usn,
        exists|ids: ChunkableIds|
            {
                &&& #[trigger] is_to_send(old(col), old(state), &ids)
                &&& final(state).server_chunk_ids matches Some(left)
                &&& ids.drawn_to(&left)
                &&& result is Ok <==> old(col).can_send(&ids)
                &&& match result {
                    Ok(chunk) => {
                        &&& chunk.done == ids.next_done()
                        &&& chunk.revlog@ == legacy_sent(
                            old(col).storage.revlog@,
                            ids.next_revlog(),
                            None,
                        )
                        &&& cards_sent(chunk.cards@, old(col).storage.cards@, ids.next_cards(), None)
                        &&& notes_sent(chunk.notes@, old(col).storage.notes@, ids.next_notes(), None)
                        &&& old(col).marked_sent(final(col), &ids, None)
                    },
                    Err(err) => err is NotFound && *final(col) == *old(col),
                }
            },
{
    let mut ids = take_server_chunk_ids(col, state);
    let ghost before = ids;
    let result = col.get_chunk(&mut ids, None);
    state.server_chunk_ids = Some(ids);
    assert(is_to_send(old(col), old(state), &before));
    result
}

/// The next chunk of a server for its client, with review-log entries in
/// full. The ids to send are gathered when the first chunk is asked for. The
/// objects are sent under the numbers that they are stored under, and the
/// server's storage stays as it is.
pub fn server_extended_chunk(
    col: &mut Collection,
    state: &mut ServerSyncState,
    client_version_info: Option<VersionInfo>,
) -> (result: Result<ExtendedChunk, AnkiError>)
    requires
        old(col).wf(),
    ensures
        final(col).wf(),
        final(state).server_usn == old(state).server_usn,
        final(state).client_usn == old(state).client_usn,
        exists|ids: ChunkableIds|
            {
                &&& #[trigger] is_to_send(old(col), old(state), &ids)
                &&& final(state).server_chunk_ids matches Some(left)
                &&& ids.drawn_to(&left)
                &&& result is Ok <==> old(col).can_send(&ids)
                &&& match result {
                    Ok(chunk) => {
                        &&& chunk.done == ids.next_done()
                        &&& revlog_sent(
                            chunk.extended_revlog@,
                            old(col).storage.revlog@,
                            ids.next_revlog(),
                            None,
                        )
                        &&& cards_sent(chunk.cards@, old(col).storage.cards@, ids.next_cards(), None)
                        &&& notes_sent(chunk.notes@, old(col).storage.notes@, ids.next_notes(), None)
                        &&& old(col).marked_sent(final(col), &ids, None)
                    },
                    Err(err) => err is NotFound && *final(col) == *old(col),
                }
            },
{
    let mut ids = take_server_chunk_ids(col, state);
    let ghost before = ids;
    let result = col.get_extended_chunk(&mut ids, None);
    state.server_chunk_ids = Some(ids);
    assert(is_to_send(old(col), old(state), &before));
    result
}

/// Merges the chunk that a client sent into the server's collection. What
/// counts as modified on the server is decided by the client's sequence
/// number.
pub fn server_apply_chunk(
    req: ApplyChunkRequest,
    col: &mut Collection,
    state: &mut ServerSyncState,
    client_version_info: Option<VersionInfo>,
) -> (result: Result<(), AnkiError>)
    requires
        old(col).wf(),
    ensures
        final(col).wf(),
        *final(state) == *old(state),
        result is Ok <==> notes_mergeable(
            old(col).storage.notes@,
            note_entry_rows(req.chunk.notes@),
            old(state).client_usn,
            old(col).storage.notetypes@,
        ),
        match result {
            Ok(_) => old(col).merged_into(
                final(col),
                req.chunk.revlog@.map_values(|e: RevlogEntry| extended_of(e)),
                card_rows(req.chunk.cards@),
                note_entry_rows(req.chunk.notes@),
                old(state).client_usn,
            ),
            Err(err) => err is InvalidInput && *final(col) == *old(col),
        },
{
    col.apply_chunk(req.chunk, state.client_usn)
}

/// Merges the chunk with review-log entries in full that a client sent
/// into the server's collection. What counts as modified on the server is
/// decided by the client's sequence number.
pub fn server_apply_extended_chunk(
    req: ApplyExtendedChunkRequest,
    col: &mut Collection,
    state: &mut ServerSyncState,
    client_version_info: Option<VersionInfo>,
) -> (result: Result<(), AnkiError>)
    requires
        old(col).wf(),
    ensures
        final(col).wf(),
        *final(state) == *old(state),
        result is Ok <==> notes_mergeable(
            old(col).storage.notes@,
            note_entry_rows(req.extended_chunk.notes@),
            old(state).client_usn,
            old(col).storage.notetypes@,
        ),
        match result {
            Ok(_) => old(col).merged_into(
                final(col),
                revlog_rows(req.extended_chunk.extended_revlog@),
                card_rows(req.extended_chunk.cards@),
                note_entry_rows(req.extended_chunk.notes@),
                old(state).client_usn,
            ),
            Err(err) => err is InvalidInput && *final(col) == *old(col),
        },
{
    col.apply_extended_chunk(req.extended_chunk, state.client_usn)
}

} // verus!
