use collection_sync::card::Card;
use collection_sync::card::CardQueue;
use collection_sync::card::CardType;
use collection_sync::collection::Collection;
use collection_sync::error::AnkiError;
use collection_sync::error::HttpFailure;
use collection_sync::error::SyncError;
use collection_sync::error::SyncErrorKind;
use collection_sync::ops::StateChanges;
use collection_sync::pb;
use collection_sync::pb::revlog_entry_from_message;
use collection_sync::revlog::RevlogEntry;
use collection_sync::revlog::RevlogReviewKind;
use collection_sync::revlog::RevlogTags;
use collection_sync::revlog::UndoableRevlogChange;
use collection_sync::storage::SqliteStorage;
use collection_sync::table::Table;
use collection_sync::tags::Tag;
use collection_sync::types::CardId;
use collection_sync::types::DeckId;
use collection_sync::types::NoteId;
use collection_sync::types::RevlogId;
use collection_sync::types::TimestampSecs;
use collection_sync::types::Usn;
use collection_sync::undo::UndoJournal;
use collection_sync::undo::UndoableChange;
use collection_sync::undo::UndoableTagChange;

fn entry(id: i64, cid: i64) -> RevlogEntry {
    RevlogEntry {
        id: RevlogId(id),
        cid: CardId(cid),
        usn: Usn(3),
        button_chosen: 2,
        interval: 4,
        last_interval: -600,
        ease_factor: 2500,
        taken_millis: 1200,
        review_kind: RevlogReviewKind::Relearning,
        mtime: TimestampSecs(77),
        feedback: "fine".to_string(),
        tags: vec!["hard".to_string(), "late".to_string()],
    }
}

fn message() -> pb::RevlogEntry {
    pb::RevlogEntry {
        id: 9,
        cid: 1,
        usn: 3,
        button_chosen: 2,
        interval: 4,
        last_interval: -600,
        ease_factor: 2500,
        taken_millis: 1200,
        review_kind: 2,
        mtime_secs: 77,
        feedback: "fine".to_string(),
        tags: vec!["hard".to_string(), "late".to_string()],
    }
}

#[test]
fn an_entry_becomes_a_message_and_back() {
    assert_eq!(pb::RevlogEntry::from(entry(9, 1)), message());
    assert_eq!(revlog_entry_from_message(message()), Ok(entry(9, 1)));
}

#[test]
fn a_message_is_cut_to_the_size_of_the_entry() {
    let mut late = entry(9, 1);
    late.mtime = TimestampSecs((1i64 << 32) + 5);
    assert_eq!(pb::RevlogEntry::from(late).mtime_secs, 5);
    let mut early = entry(9, 1);
    early.mtime = TimestampSecs(-1);
    assert_eq!(pb::RevlogEntry::from(early).mtime_secs, u32::MAX);

    let mut wide = message();
    wide.button_chosen = 256 + 3;
    wide.review_kind = 256 + 4;
    let read = revlog_entry_from_message(wide).unwrap();
    assert_eq!(read.button_chosen, 3);
    assert_eq!(read.review_kind, RevlogReviewKind::Manual);
}

#[test]
fn a_message_without_a_kind_of_review_is_refused() {
    for review_kind in [6, 7, 255, -1, 100] {
        let mut wrong = message();
        wrong.review_kind = review_kind;
        assert!(matches!(
            revlog_entry_from_message(wrong),
            Err(AnkiError::InvalidInput { .. })
        ));
    }
}

#[test]
fn kinds_stages_and_queues_have_their_numbers() {
    let kinds = [
        RevlogReviewKind::Learning,
        RevlogReviewKind::Review,
        RevlogReviewKind::Relearning,
        RevlogReviewKind::Filtered,
        RevlogReviewKind::Manual,
        RevlogReviewKind::Rescheduled,
    ];
    for (code, kind) in kinds.iter().enumerate() {
        assert_eq!(kind.code() as usize, code);
        assert_eq!(RevlogReviewKind::from_code(code as u8), Some(*kind));
    }
    assert_eq!(RevlogReviewKind::from_code(6), None);
    assert_eq!(RevlogReviewKind::default(), RevlogReviewKind::Learning);

    let stages = [CardType::New, CardType::Learn, CardType::Review, CardType::Relearn];
    for (code, stage) in stages.iter().enumerate() {
        assert_eq!(stage.code() as usize, code);
        assert_eq!(CardType::from_code(code as u8), Some(*stage));
    }
    assert_eq!(CardType::from_code(4), None);

    let queues = [
        (CardQueue::New, 0),
        (CardQueue::Learn, 1),
        (CardQueue::Review, 2),
        (CardQueue::DayLearn, 3),
        (CardQueue::PreviewRepeat, 4),
        (CardQueue::Suspended, -1),
        (CardQueue::SchedBuried, -2),
        (CardQueue::UserBuried, -3),
    ];
    for (queue, code) in queues {
        assert_eq!(queue.code(), code);
        assert_eq!(CardQueue::from_code(code), Some(queue));
    }
    assert_eq!(CardQueue::from_code(5), None);
    assert_eq!(CardQueue::from_code(-4), None);
}

#[test]
fn a_failed_request_is_a_failure_of_the_synchronisation() {
    let error = |status: Option<u16>| {
        match AnkiError::from_http_failure(HttpFailure { info: "info".to_string(), status }) {
            AnkiError::SyncError { source: SyncError { info, kind } } => {
                assert_eq!(info, "info");
                kind
            }
            _ => panic!("a failure of the synchronisation is expected"),
        }
    };
    assert_eq!(error(Some(409)), SyncErrorKind::Conflict);
    assert_eq!(error(Some(501)), SyncErrorKind::ClientTooOld);
    assert_eq!(error(Some(403)), SyncErrorKind::AuthFailed);
    assert_eq!(error(Some(500)), SyncErrorKind::ServerError);
    assert_eq!(error(Some(503)), SyncErrorKind::ServerError);
    assert_eq!(error(Some(400)), SyncErrorKind::DatabaseCheckRequired);
    assert_eq!(error(Some(404)), SyncErrorKind::Other);
    assert_eq!(error(Some(407)), SyncErrorKind::Other);
    assert_eq!(error(None), SyncErrorKind::Other);
}

#[test]
fn a_table_keeps_its_rows_by_id_in_the_order_of_their_coming() {
    let mut table: Table<RevlogEntry> = Table::new();
    assert!(table.is_consistent());
    assert_eq!(table.len(), 0);
    table.put(5, entry(5, 1));
    table.put(3, entry(3, 1));
    table.put(5, entry(5, 2));
    assert_eq!(table.len(), 2);
    assert_eq!(table.id_at(0), 5);
    assert_eq!(table.id_at(1), 3);
    assert_eq!(table.row_at(0), &entry(5, 2));
    assert_eq!(table.position(3), Some(1));
    assert_eq!(table.position(4), None);
    assert!(table.contains(5) && !table.contains(4));
    assert_eq!(table.get(3), Some(&entry(3, 1)));
    assert_eq!(table.get(4), None);
    assert_eq!(table.remove(5), Some(entry(5, 2)));
    assert_eq!(table.remove(5), None);
    assert_eq!(table.len(), 1);
    assert_eq!(table.id_at(0), 3);
    assert!(table.is_consistent());
}

#[test]
fn a_storage_with_a_row_under_the_id_of_another_is_not_consistent() {
    let mut storage = SqliteStorage::new();
    storage.add_revlog_entry(&entry(1, 1), false);
    assert!(storage.is_consistent());
    storage.revlog.put(2, entry(7, 1));
    assert!(!storage.is_consistent());
    let mut col = Collection::new(false);
    assert!(col.is_consistent());
    col.storage = storage;
    assert!(!col.is_consistent());
}

#[test]
fn entries_are_read_for_the_cards_of_a_search() {
    let mut storage = SqliteStorage::new();
    storage.add_revlog_entry(&entry(1000, 1), false);
    storage.add_revlog_entry(&entry(2000, 2), false);
    storage.add_revlog_entry(&entry(3000, 3), false);
    storage.add_revlog_entry(&entry(4000, 1), false);
    let searched = vec![CardId(1), CardId(3)];
    let ids = |entries: Vec<RevlogEntry>| entries.iter().map(|e| e.id.0).collect::<Vec<_>>();
    assert_eq!(ids(storage.get_revlog_entries_for_searched_cards(&searched)), vec![1000, 3000, 4000]);
    assert_eq!(
        ids(storage.get_revlog_entries_for_searched_cards_after_stamp(&searched, TimestampSecs(3))),
        vec![3000, 4000]
    );
    assert_eq!(ids(storage.get_revlog_entries_for_searched_cards(&vec![])), Vec::<i64>::new());
}

#[test]
fn the_tags_of_an_entry_are_read_and_written_as_a_text() {
    let mut storage = SqliteStorage::new();
    storage.add_revlog_entry(&entry(1, 1), false);
    let mut tags = storage.get_revlog_tags_by_id(RevlogId(1)).unwrap();
    assert_eq!(
        tags,
        RevlogTags {
            id: RevlogId(1),
            mtime: TimestampSecs(77),
            usn: Usn(3),
            tags: " hard late ".to_string()
        }
    );
    assert_eq!(storage.get_revlog_tags_by_id(RevlogId(2)), None);
    tags.tags = "easy".to_string();
    tags.set_modified(Usn(-1), TimestampSecs(99));
    storage.update_revlog_tags(&tags);
    let mut expected = entry(1, 1);
    expected.tags = vec!["easy".to_string()];
    expected.mtime = TimestampSecs(99);
    expected.usn = Usn(-1);
    assert_eq!(storage.get_revlog_entry(RevlogId(1)), Some(expected.clone()));
    // tags for an entry that is not stored are dropped
    tags.id = RevlogId(2);
    storage.update_revlog_tags(&tags);
    assert_eq!(storage.get_revlog_entry(RevlogId(2)), None);
    assert_eq!(storage.get_revlog_entry(RevlogId(1)), Some(expected));
}

#[test]
fn undoing_a_change_of_tags_writes_the_tags_as_they_were() {
    let mut col = Collection::new(false);
    col.storage.add_revlog_entry(&entry(1, 1), false);
    let original = col.storage.get_revlog_tags_by_id(RevlogId(1)).unwrap();
    let mut tags = original.duplicate();
    tags.tags = " easy ".to_string();
    tags.set_modified(Usn(-1), TimestampSecs(99));
    col.undo.recording = true;
    col.update_revlog_tags_undoable(&tags, original).unwrap();
    assert_eq!(col.storage.get_revlog_entry(RevlogId(1)).unwrap().tags, vec!["easy".to_string()]);
    let change = match col.undo.pop() {
        Some(UndoableChange::Revlog(change)) => change,
        _ => panic!("a change of the review log is expected"),
    };
    assert!(matches!(change, UndoableRevlogChange::TagsUpdated(_)));
    col.undo_revlog_change(change).unwrap();
    assert_eq!(col.storage.get_revlog_entry(RevlogId(1)), Some(entry(1, 1)));
}

#[test]
fn the_journal_records_only_while_it_is_recording() {
    let mut journal = UndoJournal::new();
    let change =
        || UndoableChange::Tag(UndoableTagChange::Added(Box::new(Tag::new("t".to_string(), Usn(0)))));
    journal.push(change());
    assert_eq!(journal.len(), 0);
    assert!(journal.pop().is_none());
    journal.recording = true;
    journal.push(change());
    journal.push(UndoableChange::Revlog(UndoableRevlogChange::Added(Box::new(entry(1, 1)))));
    assert_eq!(journal.len(), 2);
    assert_eq!(
        journal.kinds_changed_since(0),
        StateChanges { tag: true, revlog_entry: true, ..StateChanges::none() }
    );
    assert_eq!(
        journal.kinds_changed_since(1),
        StateChanges { revlog_entry: true, ..StateChanges::none() }
    );
    assert_eq!(journal.kinds_changed_since(2), StateChanges::default());
    assert!(matches!(journal.pop(), Some(UndoableChange::Revlog(_))));
    assert!(matches!(journal.pop(), Some(UndoableChange::Tag(_))));
    assert!(journal.pop().is_none());
}

#[test]
fn an_entry_is_added_once_and_recorded_when_it_is_added() {
    let mut col = Collection::new(false);
    col.undo.recording = true;
    col.add_revlog_entry_if_unique_undoable(entry(1, 1)).unwrap();
    col.add_revlog_entry_if_unique_undoable(entry(1, 2)).unwrap();
    assert_eq!(col.undo.len(), 1);
    assert_eq!(col.storage.get_revlog_entry(RevlogId(1)), Some(entry(1, 1)));
    assert_eq!(col.add_revlog_entry_undoable(entry(1, 3)), Ok(RevlogId(2)));
    assert_eq!(col.undo.len(), 2);
    let mut moved = entry(1, 3);
    moved.id = RevlogId(2);
    assert_eq!(col.storage.get_revlog_entry(RevlogId(2)), Some(moved.clone()));
    match col.undo.pop() {
        Some(UndoableChange::Revlog(UndoableRevlogChange::Added(added))) => {
            assert_eq!(*added, moved);
        }
        _ => panic!("an added entry is expected"),
    }
}

#[test]
fn an_entry_for_which_no_id_is_free_is_not_added() {
    let mut col = Collection::new(false);
    col.add_revlog_entry_undoable(entry(i64::MAX, 1)).unwrap();
    assert!(matches!(
        col.add_revlog_entry_undoable(entry(i64::MAX, 2)),
        Err(AnkiError::DbError { .. })
    ));
    assert_eq!(col.storage.get_revlog_entry(RevlogId(i64::MAX)), Some(entry(i64::MAX, 1)));
}

#[test]
fn cards_and_notes_are_stored_under_their_ids() {
    let mut storage = SqliteStorage::new();
    let card = Card {
        id: CardId(1),
        note_id: NoteId(2),
        deck_id: DeckId(3),
        template_idx: 0,
        mtime: TimestampSecs(4),
        usn: Usn(5),
        ctype: CardType::Learn,
        queue: CardQueue::Suspended,
        due: 6,
        interval: 7,
        ease_factor: 8,
        reps: 9,
        lapses: 10,
        remaining_steps: 11,
        original_due: 12,
        original_deck_id: DeckId(13),
        flags: 14,
        data: "data".to_string(),
    };
    assert_eq!(storage.get_card(CardId(1)), None);
    storage.add_or_update_card(&card);
    assert_eq!(storage.get_card(CardId(1)), Some(card.clone()));
    let mut changed = card.duplicate();
    changed.due = 60;
    storage.add_or_update_card(&changed);
    assert_eq!(storage.get_card(CardId(1)), Some(changed));
    assert_eq!(storage.get_note(NoteId(2)), None);
}
