use collection_sync::card::Card;
use collection_sync::card::CardQueue;
use collection_sync::card::CardType;
use collection_sync::chunks::ApplyChunkRequest;
use collection_sync::chunks::ApplyExtendedChunkRequest;
use collection_sync::chunks::CardEntry;
use collection_sync::chunks::Chunk;
use collection_sync::chunks::ExtendedChunk;
use collection_sync::collection::Collection;
use collection_sync::error::AnkiError;
use collection_sync::revlog::RevlogEntry;
use collection_sync::revlog::RevlogReviewKind;
use collection_sync::sync::server_apply_chunk;
use collection_sync::sync::server_apply_extended_chunk;
use collection_sync::sync::server_chunk;
use collection_sync::sync::server_extended_chunk;
use collection_sync::sync::ChunkResponse;
use collection_sync::sync::ClientSyncState;
use collection_sync::sync::NormalSyncProgress;
use collection_sync::sync::ServerSyncState;
use collection_sync::sync::SyncRequest;
use collection_sync::sync::SyncSession;
use collection_sync::sync::WireVariant;
use collection_sync::types::CardId;
use collection_sync::types::DeckId;
use collection_sync::types::NoteId;
use collection_sync::types::RevlogId;
use collection_sync::types::TimestampSecs;
use collection_sync::types::Usn;
use collection_sync::version::VersionInfo;

fn card(id: i64, usn: i32) -> Card {
    Card {
        id: CardId(id),
        note_id: NoteId(9),
        deck_id: DeckId(1),
        template_idx: 0,
        mtime: TimestampSecs(100),
        usn: Usn(usn),
        ctype: CardType::New,
        queue: CardQueue::New,
        due: 0,
        interval: 0,
        ease_factor: 0,
        reps: 0,
        lapses: 0,
        remaining_steps: 0,
        original_due: 0,
        original_deck_id: DeckId(0),
        flags: 0,
        data: String::new(),
    }
}

fn entry(id: i64, usn: i32) -> RevlogEntry {
    RevlogEntry {
        id: RevlogId(id),
        cid: CardId(1),
        usn: Usn(usn),
        button_chosen: 3,
        interval: 4,
        last_interval: 1,
        ease_factor: 2500,
        taken_millis: 1200,
        review_kind: RevlogReviewKind::Review,
        mtime: TimestampSecs(50),
        feedback: "well".to_string(),
        tags: vec![],
    }
}

fn state(variant: Option<&str>) -> ClientSyncState {
    ClientSyncState {
        pending_usn: Usn(-1),
        server_usn: Usn(8),
        server_version: variant.map(|variant| VersionInfo {
            variant: variant.to_string(),
            ..VersionInfo::default()
        }),
    }
}

fn progress() -> NormalSyncProgress {
    NormalSyncProgress { local_update: 1, local_remove: 2, remote_update: 3, remote_remove: 4 }
}

fn server_state() -> ServerSyncState {
    ServerSyncState { server_usn: Usn(8), client_usn: Usn(5), server_chunk_ids: None }
}

#[test]
fn the_form_of_the_chunks_is_that_of_the_server() {
    assert!(state(Some("mxyzptlk")).found_extended_server());
    assert!(!state(Some("other")).found_extended_server());
    assert!(!state(Some("")).found_extended_server());
    assert!(!state(None).found_extended_server());
    assert_eq!(
        state(Some("mxyzptlk")).session(),
        SyncSession { variant: WireVariant::Extended, pending_usn: Usn(-1), server_usn: Usn(8) }
    );
    assert_eq!(
        state(Some("other")).session(),
        SyncSession { variant: WireVariant::Legacy, pending_usn: Usn(-1), server_usn: Usn(8) }
    );
    assert!(matches!(
        state(Some("mxyzptlk")).session().chunk_request(),
        SyncRequest::ExtendedChunk
    ));
    assert!(matches!(state(None).session().chunk_request(), SyncRequest::Chunk));
}

#[test]
fn chunks_of_the_server_are_merged_until_the_last() {
    let mut col = Collection::new(false);
    let mut progress = progress();
    let state = state(None).session();
    let first = Chunk {
        done: false,
        revlog: vec![],
        cards: vec![CardEntry::from(card(1, 3)), CardEntry::from(card(2, 3))],
        notes: vec![],
    };
    let next = col.process_chunk_from_server(&state, &mut progress, ChunkResponse::Chunk(first));
    assert!(matches!(next, Ok(Some(SyncRequest::Chunk))));
    assert_eq!(
        progress,
        NormalSyncProgress { local_update: 1, local_remove: 2, remote_update: 5, remote_remove: 4 }
    );
    let last = Chunk { done: true, revlog: vec![], cards: vec![], notes: vec![] };
    let next = col.process_chunk_from_server(&state, &mut progress, ChunkResponse::Chunk(last));
    assert!(matches!(next, Ok(None)));
    assert_eq!(progress.remote_update, 5);
    assert_eq!(col.storage.get_card(CardId(2)), Some(card(2, 3)));
}

#[test]
fn chunks_in_full_are_merged_from_a_server_that_sends_them() {
    let mut col = Collection::new(false);
    let mut progress = progress();
    let state = state(Some("mxyzptlk")).session();
    let chunk =
        ExtendedChunk { done: false, extended_revlog: vec![entry(1, 3)], cards: vec![], notes: vec![] };
    let next =
        col.process_chunk_from_server(&state, &mut progress, ChunkResponse::ExtendedChunk(chunk));
    assert!(matches!(next, Ok(Some(SyncRequest::ExtendedChunk))));
    assert_eq!(progress.remote_update, 4);
    assert_eq!(col.storage.get_revlog_entry(RevlogId(1)), Some(entry(1, 3)));
}

#[test]
fn a_chunk_of_the_other_form_is_refused() {
    let mut col = Collection::new(false);
    let mut progress = progress();
    let chunk =
        ExtendedChunk { done: true, extended_revlog: vec![entry(1, 3)], cards: vec![], notes: vec![] };
    let result = col.process_chunk_from_server(
        &state(None).session(),
        &mut progress,
        ChunkResponse::ExtendedChunk(chunk),
    );
    assert!(matches!(result, Err(AnkiError::InvalidInput { .. })));
    assert_eq!(col.storage.get_revlog_entry(RevlogId(1)), None);
    let chunk = Chunk { done: true, revlog: vec![], cards: vec![], notes: vec![] };
    let result = col.process_chunk_from_server(
        &state(Some("mxyzptlk")).session(),
        &mut progress,
        ChunkResponse::Chunk(chunk),
    );
    assert!(matches!(result, Err(AnkiError::InvalidInput { .. })));
}

#[test]
fn progress_is_counted_up_to_the_largest_number() {
    let mut col = Collection::new(false);
    let mut progress = progress();
    progress.remote_update = usize::MAX - 1;
    let chunk = Chunk {
        done: true,
        revlog: vec![],
        cards: vec![CardEntry::from(card(1, 3)), CardEntry::from(card(2, 3))],
        notes: vec![],
    };
    col.process_chunk_from_server(&state(None).session(), &mut progress, ChunkResponse::Chunk(chunk))
        .unwrap();
    assert_eq!(progress.remote_update, usize::MAX);
}

#[test]
fn what_is_pending_is_sent_to_the_server_chunk_by_chunk() {
    let mut col = Collection::new(false);
    for id in 0..300 {
        col.storage.add_or_update_card(&card(id, -1));
    }
    col.storage.add_revlog_entry(&entry(1, -1), false);
    let state = state(None).session();
    let mut progress = progress();
    let mut ids = col.get_chunkable_ids(state.pending_usn);

    let (request, done) = col.next_chunk_for_server(&state, &mut progress, &mut ids).unwrap();
    assert!(!done);
    match request {
        SyncRequest::ApplyChunk(ApplyChunkRequest { chunk }) => {
            assert!(!chunk.done);
            assert_eq!(chunk.revlog.len(), 1);
            assert_eq!(chunk.revlog[0].usn, Usn(8));
            assert_eq!(chunk.cards.len(), 249);
            assert_eq!(chunk.cards[0], CardEntry::from(card(299, 8)));
        }
        _ => panic!("a chunk in the exchanged form is expected"),
    }
    assert_eq!(progress.local_update, 251);
    assert_eq!(col.storage.get_card(CardId(299)), Some(card(299, 8)));
    assert_eq!(col.storage.get_card(CardId(0)), Some(card(0, -1)));

    let (request, done) = col.next_chunk_for_server(&state, &mut progress, &mut ids).unwrap();
    assert!(done);
    match request {
        SyncRequest::ApplyChunk(ApplyChunkRequest { chunk }) => {
            assert!(chunk.done);
            assert_eq!(chunk.cards.len(), 51);
        }
        _ => panic!("a chunk in the exchanged form is expected"),
    }
    assert_eq!(progress.local_update, 302);
    assert_eq!(progress.remote_update, 3);
    assert_eq!(col.storage.get_card(CardId(0)), Some(card(0, 8)));
}

#[test]
fn a_server_that_takes_entries_in_full_is_sent_them_in_full() {
    let mut col = Collection::new(false);
    col.storage.add_revlog_entry(&entry(1, -1), false);
    let state = state(Some("mxyzptlk")).session();
    let mut progress = progress();
    let mut ids = col.get_chunkable_ids(state.pending_usn);
    let (request, done) = col.next_chunk_for_server(&state, &mut progress, &mut ids).unwrap();
    assert!(done);
    match request {
        SyncRequest::ApplyExtendedChunk(ApplyExtendedChunkRequest { extended_chunk }) => {
            assert_eq!(extended_chunk.extended_revlog, vec![entry(1, 8)]);
        }
        _ => panic!("a chunk in full is expected"),
    }
}

#[test]
fn a_server_gathers_its_ids_with_the_first_chunk() {
    let mut col = Collection::new(true);
    col.storage.add_or_update_card(&card(1, 4));
    col.storage.add_or_update_card(&card(2, 5));
    col.storage.add_or_update_card(&card(3, 6));
    let mut state = server_state();
    let chunk = server_chunk(&mut col, &mut state, None).unwrap();
    assert!(chunk.done);
    assert_eq!(chunk.cards, vec![CardEntry::from(card(3, 6)), CardEntry::from(card(2, 5))]);
    assert_eq!(col.storage.get_card(CardId(3)), Some(card(3, 6)));
    let held = state.server_chunk_ids.as_ref().unwrap();
    assert!(held.cards.is_empty());

    // what became pending since is not gathered again
    col.storage.add_or_update_card(&card(4, 9));
    let chunk = server_extended_chunk(&mut col, &mut state, None).unwrap();
    assert!(chunk.done);
    assert!(chunk.cards.is_empty());
}

#[test]
fn a_server_merges_against_the_number_of_the_client() {
    let mut col = Collection::new(true);
    col.storage.add_or_update_card(&card(1, 7));
    col.storage.add_or_update_card(&card(2, 3));
    let mut state = server_state();
    let mut newer = card(1, 9);
    newer.due = 5;
    let mut other = card(2, 9);
    other.due = 5;
    let chunk = Chunk {
        done: true,
        revlog: vec![],
        cards: vec![CardEntry::from(newer), CardEntry::from(other.clone())],
        notes: vec![],
    };
    server_apply_chunk(ApplyChunkRequest { chunk }, &mut col, &mut state, None).unwrap();
    assert_eq!(col.storage.get_card(CardId(1)), Some(card(1, 7)));
    assert_eq!(col.storage.get_card(CardId(2)), Some(other));

    let extended_chunk =
        ExtendedChunk { done: true, extended_revlog: vec![entry(1, 9)], cards: vec![], notes: vec![] };
    server_apply_extended_chunk(
        ApplyExtendedChunkRequest { extended_chunk },
        &mut col,
        &mut state,
        None,
    )
    .unwrap();
    assert_eq!(col.storage.get_revlog_entry(RevlogId(1)), Some(entry(1, 9)));
}
