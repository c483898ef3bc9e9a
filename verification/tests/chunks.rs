use collection_sync::card::Card;
use collection_sync::card::CardQueue;
use collection_sync::card::CardType;
use collection_sync::chunks::CardEntry;
use collection_sync::chunks::Chunk;
use collection_sync::draw::ChunkableIds;
use collection_sync::chunks::ExtendedChunk;
use collection_sync::chunks::NoteEntry;
use collection_sync::chunks::RevlogEntry;
use collection_sync::draw::CHUNK_SIZE;
use collection_sync::collection::Collection;
use collection_sync::error::AnkiError;
use collection_sync::notes::Note;
use collection_sync::revlog::RevlogEntry as ExtendedRevlogEntry;
use collection_sync::revlog::RevlogReviewKind;
use collection_sync::types::CardId;
use collection_sync::types::DeckId;
use collection_sync::types::NoteId;
use collection_sync::types::NotetypeId;
use collection_sync::types::RevlogId;
use collection_sync::types::TimestampSecs;
use collection_sync::types::Usn;

fn revlog_entry(id: i64, usn: i32) -> ExtendedRevlogEntry {
    ExtendedRevlogEntry {
        id: RevlogId(id),
        cid: CardId(1),
        usn: Usn(usn),
        button_chosen: 3,
        interval: 4,
        last_interval: -600,
        ease_factor: 2500,
        taken_millis: 1200,
        review_kind: RevlogReviewKind::Review,
        mtime: TimestampSecs(77),
        feedback: "fine".to_string(),
        tags: vec!["hard".to_string()],
    }
}

fn card(id: i64, usn: i32, mtime: i64) -> Card {
    Card {
        id: CardId(id),
        note_id: NoteId(9),
        deck_id: DeckId(1),
        template_idx: 2,
        mtime: TimestampSecs(mtime),
        usn: Usn(usn),
        ctype: CardType::Review,
        queue: CardQueue::Review,
        due: 10,
        interval: 3,
        ease_factor: 2500,
        reps: 4,
        lapses: 1,
        remaining_steps: 0,
        original_due: 0,
        original_deck_id: DeckId(0),
        flags: 1,
        data: "{}".to_string(),
    }
}

fn card_entry(id: i64, usn: i32, mtime: i64) -> CardEntry {
    CardEntry::from(card(id, usn, mtime))
}

fn note(id: i64, usn: i32, mtime: i64) -> Note {
    Note::new_from_storage(
        NoteId(id),
        "guid".to_string(),
        NotetypeId(1),
        TimestampSecs(mtime),
        Usn(usn),
        vec!["foo".to_string(), "bar".to_string()],
        vec!["front".to_string(), "".to_string(), "back".to_string()],
    )
}

fn note_entry(id: i64, usn: i32, mtime: i64) -> NoteEntry {
    NoteEntry::from(note(id, usn, mtime))
}

fn collection(server: bool) -> Collection {
    let mut col = Collection::new(server);
    col.storage.notetypes.push(NotetypeId(1));
    col
}

#[test]
fn pending_is_judged_against_the_reference() {
    assert!(Usn(-1).is_pending_sync(Usn(-1)));
    assert!(!Usn(5).is_pending_sync(Usn(-1)));
    assert!(Usn(5).is_pending_sync(Usn(3)));
    assert!(!Usn(2).is_pending_sync(Usn(3)));
    assert!(Usn(3).is_pending_sync(Usn(3)));
    assert!(!Usn(-1).is_pending_sync(Usn(0)));
}

#[test]
fn a_draw_goes_round_the_lists_from_their_ends() {
    let mut ids = ChunkableIds { revlog: vec![1, 2, 3], cards: vec![20], notes: vec![10, 11] };
    let drawn = ids.draw();
    assert_eq!(drawn.revlog, vec![3, 2, 1]);
    assert_eq!(drawn.notes, vec![11, 10]);
    assert_eq!(drawn.cards, vec![20]);
    assert!(drawn.done);
    assert!(ids.revlog.is_empty() && ids.cards.is_empty() && ids.notes.is_empty());
}

#[test]
fn a_draw_takes_no_more_than_a_chunk_holds() {
    assert_eq!(CHUNK_SIZE, 250);
    let mut ids = ChunkableIds {
        revlog: (0..100).collect(),
        cards: (100..200).collect(),
        notes: (200..300).collect(),
    };
    let drawn = ids.draw();
    assert_eq!(drawn.revlog.len(), 84);
    assert_eq!(drawn.notes.len(), 83);
    assert_eq!(drawn.cards.len(), 83);
    assert!(!drawn.done);
    assert_eq!(drawn.revlog[0], 99);
    assert_eq!(drawn.revlog[83], 16);
    assert_eq!(ids.revlog, (0..16).collect::<Vec<i64>>());
    assert_eq!(ids.notes, (200..217).collect::<Vec<i64>>());
    assert_eq!(ids.cards, (100..117).collect::<Vec<i64>>());
    let rest = ids.draw();
    assert_eq!(rest.revlog.len() + rest.notes.len() + rest.cards.len(), 50);
    assert!(rest.done);
}

#[test]
fn a_full_chunk_is_not_the_last() {
    let mut ids = ChunkableIds { revlog: (0..250).collect(), cards: vec![], notes: vec![] };
    let drawn = ids.draw();
    assert_eq!(drawn.revlog.len(), 250);
    assert!(!drawn.done);
    let last = ids.draw();
    assert!(last.revlog.is_empty() && last.cards.is_empty() && last.notes.is_empty());
    assert!(last.done);
}

#[test]
fn draws_take_each_id_once() {
    let revlog: Vec<i64> = (0..400).collect();
    let cards: Vec<i64> = (1000..1123).collect();
    let notes: Vec<i64> = (2000..2301).collect();
    let mut ids =
        ChunkableIds { revlog: revlog.clone(), cards: cards.clone(), notes: notes.clone() };
    let mut seen = (Vec::new(), Vec::new(), Vec::new());
    let mut draws = 0;
    loop {
        let drawn = ids.draw();
        draws += 1;
        assert!(drawn.revlog.len() + drawn.cards.len() + drawn.notes.len() <= 250);
        seen.0.extend(drawn.revlog);
        seen.1.extend(drawn.cards);
        seen.2.extend(drawn.notes);
        if drawn.done {
            break;
        }
    }
    assert_eq!(draws, 4);
    seen.0.reverse();
    seen.1.reverse();
    seen.2.reverse();
    assert_eq!(seen, (revlog, cards, notes));
}

#[test]
fn a_client_sends_what_is_pending_under_the_number_of_the_server() {
    let mut col = collection(false);
    col.storage.add_revlog_entry(&revlog_entry(1, -1), false);
    col.storage.add_revlog_entry(&revlog_entry(2, 4), false);
    col.storage.add_or_update_card(&card(10, -1, 100));
    col.storage.add_or_update_note(&note(20, -1, 100));
    col.storage.add_or_update_note(&note(21, 0, 100));

    let mut ids = col.get_chunkable_ids(Usn(-1));
    assert_eq!(ids.revlog, vec![1]);
    assert_eq!(ids.cards, vec![10]);
    assert_eq!(ids.notes, vec![20]);

    let chunk = col.get_chunk(&mut ids, Some(Usn(5))).unwrap();
    assert!(chunk.done);
    assert_eq!(chunk.revlog, vec![RevlogEntry::from(revlog_entry(1, 5))]);
    assert_eq!(chunk.cards, vec![card_entry(10, 5, 100)]);
    assert_eq!(chunk.notes, vec![note_entry(20, 5, 100)]);

    // the objects are no longer pending
    assert_eq!(col.storage.get_revlog_entry(RevlogId(1)), Some(revlog_entry(1, 5)));
    assert_eq!(col.storage.get_revlog_entry(RevlogId(2)), Some(revlog_entry(2, 4)));
    assert_eq!(col.storage.get_card(CardId(10)), Some(card(10, 5, 100)));
    assert_eq!(col.storage.get_note(NoteId(20)), Some(note(20, 5, 100)));
    assert_eq!(col.storage.get_note(NoteId(21)), Some(note(21, 0, 100)));
    let ids = col.get_chunkable_ids(Usn(-1));
    assert!(ids.revlog.is_empty() && ids.cards.is_empty() && ids.notes.is_empty());
}

#[test]
fn a_server_sends_what_is_pending_as_it_is_stored() {
    let mut col = collection(true);
    col.storage.add_revlog_entry(&revlog_entry(1, 2), false);
    col.storage.add_revlog_entry(&revlog_entry(2, 7), false);
    col.storage.add_or_update_card(&card(10, 9, 100));
    col.storage.add_or_update_note(&note(20, 3, 100));

    let mut ids = col.get_chunkable_ids(Usn(5));
    assert_eq!(ids.revlog, vec![2]);
    assert_eq!(ids.cards, vec![10]);
    assert!(ids.notes.is_empty());

    let chunk = col.get_extended_chunk(&mut ids, None).unwrap();
    assert!(chunk.done);
    assert_eq!(chunk.extended_revlog, vec![revlog_entry(2, 7)]);
    assert_eq!(chunk.cards, vec![card_entry(10, 9, 100)]);
    assert!(chunk.notes.is_empty());
    assert_eq!(col.storage.get_revlog_entry(RevlogId(2)), Some(revlog_entry(2, 7)));
    assert_eq!(col.storage.get_card(CardId(10)), Some(card(10, 9, 100)));
}

#[test]
fn a_server_keeps_its_numbers_even_when_told_one() {
    let mut col = collection(true);
    col.storage.add_or_update_card(&card(10, 9, 100));
    let mut ids = ChunkableIds { revlog: vec![], cards: vec![10], notes: vec![] };
    let chunk = col.get_chunk(&mut ids, Some(Usn(12))).unwrap();
    assert_eq!(chunk.cards, vec![card_entry(10, 12, 100)]);
    assert_eq!(col.storage.get_card(CardId(10)), Some(card(10, 9, 100)));
}

#[test]
fn an_id_without_an_object_fails_the_chunk_and_changes_nothing() {
    let mut col = collection(false);
    col.storage.add_or_update_card(&card(10, -1, 100));
    let mut ids = ChunkableIds { revlog: vec![], cards: vec![10, 11], notes: vec![] };
    let result = col.get_chunk(&mut ids, Some(Usn(5)));
    assert_eq!(result.err(), Some(AnkiError::NotFound { id: 11 }));
    assert_eq!(col.storage.get_card(CardId(10)), Some(card(10, -1, 100)));
    assert!(ids.cards.is_empty());
}

#[test]
fn merging_adds_what_is_new() {
    let mut col = collection(false);
    let chunk = Chunk {
        done: true,
        revlog: vec![RevlogEntry::from(revlog_entry(1, 3))],
        cards: vec![card_entry(10, 3, 100)],
        notes: vec![note_entry(20, 3, 100)],
    };
    col.apply_chunk(chunk, Usn(-1)).unwrap();
    let mut plain = revlog_entry(1, 3);
    plain.mtime = TimestampSecs(0);
    plain.feedback = String::new();
    plain.tags = vec![];
    assert_eq!(col.storage.get_revlog_entry(RevlogId(1)), Some(plain));
    assert_eq!(col.storage.get_card(CardId(10)), Some(card(10, 3, 100)));
    assert_eq!(col.storage.get_note(NoteId(20)), Some(note(20, 3, 100)));
    assert_eq!(col.undo.len(), 0);
}

#[test]
fn merging_in_full_keeps_feedback_and_tags() {
    let mut col = collection(false);
    let chunk = ExtendedChunk {
        done: true,
        extended_revlog: vec![revlog_entry(1, 3)],
        cards: vec![],
        notes: vec![],
    };
    col.apply_extended_chunk(chunk, Usn(-1)).unwrap();
    assert_eq!(col.storage.get_revlog_entry(RevlogId(1)), Some(revlog_entry(1, 3)));
}

#[test]
fn merging_never_replaces_a_review_log_entry() {
    let mut col = collection(false);
    col.storage.add_revlog_entry(&revlog_entry(1, 3), false);
    let mut other = revlog_entry(1, 8);
    other.feedback = "other".to_string();
    col.merge_extended_revlog(vec![other]).unwrap();
    assert_eq!(col.storage.get_revlog_entry(RevlogId(1)), Some(revlog_entry(1, 3)));
}

#[test]
fn a_pending_card_gives_way_only_to_a_strictly_newer_one() {
    let mut col = collection(false);
    col.storage.add_or_update_card(&card(10, -1, 100));
    // older, and as old: the local card wins
    col.merge_cards(vec![card_entry(10, 7, 99), card_entry(10, 7, 100)], Usn(-1)).unwrap();
    assert_eq!(col.storage.get_card(CardId(10)), Some(card(10, -1, 100)));
    // strictly newer: the incoming card wins
    col.merge_cards(vec![card_entry(10, 7, 101)], Usn(-1)).unwrap();
    assert_eq!(col.storage.get_card(CardId(10)), Some(card(10, 7, 101)));
}

#[test]
fn a_card_that_is_not_pending_always_gives_way() {
    let mut col = collection(false);
    col.storage.add_or_update_card(&card(10, 4, 100));
    col.add_or_update_card_if_newer(card_entry(10, 7, 50), Usn(-1)).unwrap();
    assert_eq!(col.storage.get_card(CardId(10)), Some(card(10, 7, 50)));
}

#[test]
fn on_a_server_pending_is_judged_against_the_number_of_the_client() {
    let mut col = collection(true);
    col.storage.add_or_update_note(&note(20, 7, 100));
    col.storage.add_or_update_note(&note(21, 3, 100));
    col.merge_notes(vec![note_entry(20, 9, 100), note_entry(21, 9, 100)], Usn(5)).unwrap();
    // 7 is pending against 5 and as new: it stays; 3 is not pending: it gives way
    assert_eq!(col.storage.get_note(NoteId(20)), Some(note(20, 7, 100)));
    assert_eq!(col.storage.get_note(NoteId(21)), Some(note(21, 9, 100)));
}

#[test]
fn a_note_of_an_unknown_notetype_fails_the_chunk_and_nothing_is_merged() {
    let mut col = collection(false);
    let mut stranger = note_entry(21, 3, 100);
    stranger.ntid = NotetypeId(2);
    let chunk = Chunk {
        done: true,
        revlog: vec![RevlogEntry::from(revlog_entry(1, 3))],
        cards: vec![card_entry(10, 3, 100)],
        notes: vec![note_entry(20, 3, 100), stranger],
    };
    let result = col.apply_chunk(chunk, Usn(-1));
    assert!(matches!(result, Err(AnkiError::InvalidInput { .. })));
    assert_eq!(col.storage.get_revlog_entry(RevlogId(1)), None);
    assert_eq!(col.storage.get_card(CardId(10)), None);
    assert_eq!(col.storage.get_note(NoteId(20)), None);
}

#[test]
fn a_note_of_an_unknown_notetype_is_passed_over_where_it_is_not_accepted() {
    let mut col = collection(false);
    col.storage.add_or_update_note(&note(20, -1, 100));
    let mut stranger = note_entry(20, 3, 100);
    stranger.ntid = NotetypeId(2);
    col.merge_notes(vec![stranger.duplicate()], Usn(-1)).unwrap();
    assert_eq!(col.storage.get_note(NoteId(20)), Some(note(20, -1, 100)));
    let result = col.add_or_update_note_if_newer(stranger.duplicate(), Usn(-1));
    assert!(result.is_ok());
    assert_eq!(col.storage.get_note(NoteId(20)), Some(note(20, -1, 100)));
    // against 0 the local note is not pending: the stranger is accepted, and refused
    let result = col.add_or_update_note_if_newer(stranger, Usn(0));
    assert!(matches!(result, Err(AnkiError::InvalidInput { .. })));
    assert_eq!(col.storage.get_note(NoteId(20)), Some(note(20, -1, 100)));
}

#[test]
fn the_second_of_two_notes_with_one_id_is_judged_against_the_first() {
    let mut col = collection(false);
    // measured against 5, what comes in under 7 is pending once it is stored
    col.merge_notes(vec![note_entry(20, 7, 100), note_entry(20, 8, 100)], Usn(5)).unwrap();
    assert_eq!(col.storage.get_note(NoteId(20)), Some(note(20, 7, 100)));
    col.merge_notes(vec![note_entry(21, 3, 100), note_entry(21, 8, 100)], Usn(5)).unwrap();
    assert_eq!(col.storage.get_note(NoteId(21)), Some(note(21, 8, 100)));
}

#[test]
fn the_exchanged_form_of_an_entry_drops_feedback_tags_and_time() {
    let full = revlog_entry(1, 3);
    let legacy = RevlogEntry::from(full.clone());
    assert_eq!(
        legacy,
        RevlogEntry {
            id: RevlogId(1),
            cid: CardId(1),
            usn: Usn(3),
            button_chosen: 3,
            interval: 4,
            last_interval: -600,
            ease_factor: 2500,
            taken_millis: 1200,
            review_kind: RevlogReviewKind::Review,
        }
    );
    let back = ExtendedRevlogEntry::from(legacy);
    let mut expected = full;
    expected.mtime = TimestampSecs(0);
    expected.feedback = String::new();
    expected.tags = vec![];
    assert_eq!(back, expected);
    assert_eq!(RevlogEntry::from(back), legacy);
}

#[test]
fn a_card_is_exchanged_field_by_field() {
    let entry = card_entry(10, 3, 100);
    assert_eq!(entry.id, CardId(10));
    assert_eq!(entry.nid, NoteId(9));
    assert_eq!(entry.did, DeckId(1));
    assert_eq!(entry.ord, 2);
    assert_eq!(entry.mtime, TimestampSecs(100));
    assert_eq!(entry.usn, Usn(3));
    assert_eq!(entry.ctype, CardType::Review);
    assert_eq!(entry.queue, CardQueue::Review);
    assert_eq!(entry.due, 10);
    assert_eq!(entry.ivl, 3);
    assert_eq!(entry.factor, 2500);
    assert_eq!(entry.reps, 4);
    assert_eq!(entry.lapses, 1);
    assert_eq!(entry.left, 0);
    assert_eq!(entry.odue, 0);
    assert_eq!(entry.odid, DeckId(0));
    assert_eq!(entry.flags, 1);
    assert_eq!(entry.data, "{}");
    assert_eq!(Card::from(entry), card(10, 3, 100));
}

#[test]
fn a_note_is_exchanged_with_its_fields_and_tags_joined() {
    let entry = note_entry(20, 3, 100);
    assert_eq!(entry.id, NoteId(20));
    assert_eq!(entry.guid, "guid");
    assert_eq!(entry.ntid, NotetypeId(1));
    assert_eq!(entry.mtime, TimestampSecs(100));
    assert_eq!(entry.usn, Usn(3));
    assert_eq!(entry.tags, " foo bar ");
    assert_eq!(entry.fields, "front\u{1f}\u{1f}back");
    assert_eq!(entry.sfld, "");
    assert_eq!(entry.csum, "");
    assert_eq!(entry.flags, 0);
    assert_eq!(entry.data, "");
    assert_eq!(Note::from(entry), note(20, 3, 100));
}

#[test]
fn a_note_without_fields_or_tags_is_exchanged_with_empty_texts() {
    let bare = Note::new_from_storage(
        NoteId(1),
        String::new(),
        NotetypeId(1),
        TimestampSecs(0),
        Usn(0),
        vec![],
        vec![],
    );
    let entry = NoteEntry::from(bare);
    assert_eq!(entry.tags, "");
    assert_eq!(entry.fields, "");
    // an empty text holds one empty field
    assert_eq!(Note::from(entry).fields, vec![String::new()]);
}
