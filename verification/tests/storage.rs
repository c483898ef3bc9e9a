use collection_sync::card::Card;
use collection_sync::card::CardQueue;
use collection_sync::card::CardType;
use collection_sync::collection::Collection;
use collection_sync::error::AnkiError;
use collection_sync::error::DbErrorKind;
use collection_sync::revlog::RevlogEntry;
use collection_sync::revlog::RevlogReviewKind;
use collection_sync::storage::SqliteStorage;
use collection_sync::types::CardId;
use collection_sync::types::DeckId;
use collection_sync::types::NoteId;
use collection_sync::types::RevlogId;
use collection_sync::types::TimestampSecs;
use collection_sync::types::Usn;

fn open_storage() -> SqliteStorage {
    let mut storage = SqliteStorage::new();
    storage.run_schema_ankimath_version_upgrade().unwrap();
    storage.run_schema_202301121442_upgrade().unwrap();
    storage
}

fn entry(id: i64, cid: i64, usn: i32) -> RevlogEntry {
    RevlogEntry {
        id: RevlogId(id),
        cid: CardId(cid),
        usn: Usn(usn),
        button_chosen: 1,
        interval: -60,
        last_interval: 0,
        ease_factor: 0,
        taken_millis: 5000,
        review_kind: RevlogReviewKind::Learning,
        mtime: TimestampSecs(0),
        feedback: String::new(),
        tags: vec![],
    }
}

#[test]
fn update_revlog_entry() {
    let mut storage = open_storage();
    storage.add_revlog_entry(&entry(1_600_000_100_000, 5, -1), false);
    let mut reviews = storage.get_revlog_entries_for_card(CardId(5));

    let mut review = reviews[0].clone();
    review.usn = Usn(1234);
    review.mtime = TimestampSecs(5678);
    review.feedback = "feedback".to_string();
    review.tags = ["fubar".to_string(), "fubaz".to_string()].to_vec();

    // Higher-level code changes usn, but this call shouldn't.
    storage.update_revlog_entry(&review);

    reviews = storage.get_revlog_entries_for_card(CardId(5));
    assert_eq!(reviews[0].usn, Usn(1234));
    assert_eq!(reviews[0].mtime, TimestampSecs(5678));
    assert_eq!(reviews[0].feedback, "feedback".to_string());
    assert_eq!(reviews[0].tags, ["fubar".to_string(), "fubaz".to_string()].to_vec());
}

#[test]
fn database_has_table() {
    let col = Collection { storage: open_storage(), ..Collection::new(false) };
    // Verify Ankimath version info present in db.
    assert!(col.storage.database_has_table("ankimath_info"));
}

#[test]
fn db_ankimath_version() {
    let col = Collection { storage: open_storage(), ..Collection::new(false) };
    // Verify latest extended database version.
    assert!(202212011756 <= col.storage.db_ankimath_version().unwrap());
    // Sanity check.
    assert!(999999999999 > col.storage.db_ankimath_version().unwrap());
}

#[test]
fn a_new_storage_has_no_record_of_the_extended_schema() {
    let mut storage = SqliteStorage::new();
    assert!(!storage.database_has_table("ankimath_info"));
    assert!(storage.database_has_table("revlog"));
    assert!(!storage.database_has_table("fubar"));
    assert!(matches!(
        storage.db_ankimath_version(),
        Err(AnkiError::DbError { kind: DbErrorKind::MissingEntity, .. })
    ));
    assert!(matches!(
        storage.run_schema_202301121442_upgrade(),
        Err(AnkiError::DbError { kind: DbErrorKind::MissingEntity, .. })
    ));
    storage.run_schema_ankimath_version_upgrade().unwrap();
    assert_eq!(storage.db_ankimath_version(), Ok(202212011737));
    assert!(matches!(
        storage.run_schema_ankimath_version_upgrade(),
        Err(AnkiError::DbError { kind: DbErrorKind::Other, .. })
    ));
    storage.run_schema_202301121442_upgrade().unwrap();
    assert_eq!(storage.db_ankimath_version(), Ok(202301121442));
}

#[test]
fn adding_with_uniquify_probes_forward_for_a_free_id() {
    let mut storage = open_storage();
    assert_eq!(storage.add_revlog_entry(&entry(100, 1, -1), true), Some(RevlogId(100)));
    assert_eq!(storage.add_revlog_entry(&entry(101, 1, -1), true), Some(RevlogId(101)));
    let mut third = entry(100, 2, -1);
    third.feedback = "third".to_string();
    assert_eq!(storage.add_revlog_entry(&third, true), Some(RevlogId(102)));
    // nothing was overwritten
    assert_eq!(storage.get_revlog_entry(RevlogId(100)), Some(entry(100, 1, -1)));
    assert_eq!(storage.get_revlog_entry(RevlogId(101)), Some(entry(101, 1, -1)));
    let stored = storage.get_revlog_entry(RevlogId(102)).unwrap();
    assert_eq!(stored.id, RevlogId(102));
    assert_eq!(stored.cid, CardId(2));
    assert_eq!(stored.feedback, "third");
}

#[test]
fn adding_without_uniquify_succeeds_verbatim_or_conflicts() {
    let mut storage = open_storage();
    assert_eq!(storage.add_revlog_entry(&entry(100, 1, -1), false), Some(RevlogId(100)));
    assert_eq!(storage.add_revlog_entry(&entry(100, 2, -1), false), None);
    assert_eq!(storage.get_revlog_entry(RevlogId(100)), Some(entry(100, 1, -1)));
    assert_eq!(storage.get_revlog_entry(RevlogId(101)), None);
}

#[test]
fn probing_stops_at_the_end_of_the_window() {
    let mut storage = open_storage();
    for id in 0..1000 {
        assert_eq!(storage.add_revlog_entry(&entry(id, 1, -1), false), Some(RevlogId(id)));
    }
    // ids 0 to 999 are taken: 1000 is the last id that is tried
    assert_eq!(storage.add_revlog_entry(&entry(0, 2, -1), true), Some(RevlogId(1000)));
    assert_eq!(storage.add_revlog_entry(&entry(0, 3, -1), true), None);
    assert_eq!(storage.get_revlog_entry(RevlogId(1001)), None);
}

#[test]
fn probing_stops_at_the_largest_id() {
    let mut storage = open_storage();
    assert_eq!(storage.add_revlog_entry(&entry(i64::MAX, 1, -1), true), Some(RevlogId(i64::MAX)));
    assert_eq!(storage.add_revlog_entry(&entry(i64::MAX, 2, -1), true), None);
    assert_eq!(
        storage.add_revlog_entry(&entry(i64::MAX - 1, 2, -1), true),
        Some(RevlogId(i64::MAX - 1))
    );
    assert_eq!(storage.add_revlog_entry(&entry(i64::MAX - 1, 3, -1), true), None);
}

#[test]
fn entries_are_read_by_card_by_time_and_by_tags() {
    let mut storage = open_storage();
    storage.add_revlog_entry(&entry(3000, 1, 0), false);
    storage.add_revlog_entry(&entry(1000, 2, 0), false);
    let mut tagged = entry(2000, 1, 0);
    tagged.tags = vec!["hard".to_string()];
    storage.add_revlog_entry(&tagged, false);

    let ids = |entries: Vec<RevlogEntry>| entries.iter().map(|e| e.id.0).collect::<Vec<_>>();
    assert_eq!(ids(storage.get_revlog_entries_for_card(CardId(1))), vec![3000, 2000]);
    assert_eq!(ids(storage.get_revlog_entries_for_card(CardId(3))), Vec::<i64>::new());
    assert_eq!(ids(storage.get_all_revlog_entries(TimestampSecs(2))), vec![3000, 2000]);
    assert_eq!(ids(storage.get_all_revlog_entries(TimestampSecs(i64::MAX))), Vec::<i64>::new());
    assert_eq!(
        ids(storage.get_all_revlog_entries(TimestampSecs(i64::MIN))),
        vec![3000, 1000, 2000]
    );
    assert_eq!(storage.get_revlog_entries_with_tags(), vec![tagged]);
}

#[test]
fn entries_are_read_by_note() {
    let mut storage = open_storage();
    for (card, note) in [(1, 10), (2, 11), (3, 10)] {
        storage.add_or_update_card(&Card {
            id: CardId(card),
            note_id: NoteId(note),
            deck_id: DeckId(1),
            template_idx: 0,
            mtime: TimestampSecs(0),
            usn: Usn(0),
            ctype: CardType::New,
            queue: CardQueue::New,
            due: 0,
            interval: 0,
            ease_factor: 0,
            reps: 0,
            lapses: 0,
            remaining_steps: 0,
            original_due: 0,
            original_deck_id: DeckId(0),
            flags: 0,
            data: String::new(),
        });
    }
    storage.add_revlog_entry(&entry(100, 1, 0), false);
    storage.add_revlog_entry(&entry(101, 2, 0), false);
    storage.add_revlog_entry(&entry(102, 3, 0), false);
    storage.add_revlog_entry(&entry(103, 4, 0), false);
    let found = storage.get_revlog_entries_for_note(NoteId(10));
    assert_eq!(found.iter().map(|e| e.id.0).collect::<Vec<_>>(), vec![100, 102]);
}

#[test]
fn pending_marks_are_cleared() {
    let mut storage = open_storage();
    storage.add_revlog_entry(&entry(1, 1, -1), false);
    storage.add_revlog_entry(&entry(2, 1, 5), false);
    storage.add_revlog_entry(&entry(3, 1, -1), false);
    storage.clear_pending_revlog_usns();
    assert_eq!(storage.get_revlog_entry(RevlogId(1)).unwrap().usn, Usn(0));
    assert_eq!(storage.get_revlog_entry(RevlogId(2)).unwrap().usn, Usn(5));
    assert_eq!(storage.get_revlog_entry(RevlogId(3)).unwrap().usn, Usn(0));
}

#[test]
fn removing_an_entry_keeps_the_others() {
    let mut storage = open_storage();
    storage.add_revlog_entry(&entry(1, 1, -1), false);
    storage.add_revlog_entry(&entry(2, 1, -1), false);
    storage.add_revlog_entry(&entry(3, 1, -1), false);
    storage.remove_revlog_entry(RevlogId(2));
    storage.remove_revlog_entry(RevlogId(9));
    let left = storage.get_all_revlog_entries(TimestampSecs(0));
    assert_eq!(left.iter().map(|e| e.id.0).collect::<Vec<_>>(), vec![1, 3]);
}
