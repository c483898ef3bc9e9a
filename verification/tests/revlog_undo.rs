use collection_sync::card::Card;
use collection_sync::card::CardQueue;
use collection_sync::card::CardType;
use collection_sync::collection::Collection;
use collection_sync::error::AnkiError;
use collection_sync::notes::Note;
use collection_sync::ops::Op;
use collection_sync::revlog::revlog_entry_differs_from_db;
use collection_sync::revlog::RevlogEntry;
use collection_sync::revlog::RevlogReviewKind;
use collection_sync::revlog::UndoableRevlogChange;
use collection_sync::types::CardId;
use collection_sync::types::DeckId;
use collection_sync::types::NoteId;
use collection_sync::types::NotetypeId;
use collection_sync::types::RevlogId;
use collection_sync::types::TimestampSecs;
use collection_sync::types::Usn;
use collection_sync::undo::UndoableChange;

/// A collection at the latest schema that knows the notetype "Basic".
fn open_test_collection() -> Collection {
    let mut col = Collection::new(false);
    col.storage.run_schema_ankimath_version_upgrade().unwrap();
    col.storage.run_schema_202301121442_upgrade().unwrap();
    col.storage.notetypes.push(NotetypeId(1));
    col
}

/// Adds a note of the notetype "Basic" with one card to the deck `deck`,
/// and returns the id of the card.
fn add_note(col: &mut Collection, deck: DeckId) -> CardId {
    let note = Note::new_from_storage(
        NoteId(1_600_000_000_000),
        "guid".to_string(),
        NotetypeId(1),
        TimestampSecs(1_600_000_000),
        Usn(-1),
        vec![],
        vec!["front".to_string(), "back".to_string()],
    );
    col.storage.add_or_update_note(&note);
    let card = Card {
        id: CardId(1_600_000_000_001),
        note_id: note.id,
        deck_id: deck,
        template_idx: 0,
        mtime: TimestampSecs(1_600_000_000),
        usn: Usn(-1),
        ctype: CardType::New,
        queue: CardQueue::New,
        due: 0,
        interval: 0,
        ease_factor: 0,
        reps: 0,
        lapses: 0,
        remaining_steps: 0,
        original_due: 0,
        original_deck_id: DeckId(0),
        flags: 0,
        data: String::new(),
    };
    col.storage.add_or_update_card(&card);
    card.id
}

/// Answers the card "again": one review is logged for it.
fn answer_again(col: &mut Collection, card_id: CardId) {
    let entry = RevlogEntry {
        id: RevlogId(1_600_000_100_000),
        cid: card_id,
        usn: Usn(-1),
        button_chosen: 1,
        interval: -60,
        last_interval: 0,
        ease_factor: 0,
        taken_millis: 5000,
        review_kind: RevlogReviewKind::Learning,
        mtime: TimestampSecs(1_600_000_100),
        feedback: String::new(),
        tags: vec![],
    };
    col.add_revlog_entry_undoable(entry).unwrap();
}

fn collection_with_review() -> (Collection, CardId) {
    let mut col = open_test_collection();
    let card_id = add_note(&mut col, DeckId(1));
    answer_again(&mut col, card_id);
    (col, card_id)
}

#[test]
fn revlog_entry_differs_from_db_with_unchanged_entry() {
    let (col, card_id) = collection_with_review();
    let mut reviews = col.storage.get_revlog_entries_for_card(card_id);

    let mut review = reviews[0].clone();

    assert!(!revlog_entry_differs_from_db(&mut review, &mut reviews[0]));
}

#[test]
fn revlog_entry_differs_from_db_with_changed_entry() {
    let (col, card_id) = collection_with_review();
    let mut reviews = col.storage.get_revlog_entries_for_card(card_id);

    let mut review = reviews[0].clone();
    review.usn = Usn(1234);
    review.mtime = TimestampSecs(5678);
    review.feedback = "feedback".to_string();
    review.tags = ["fubar".to_string(), "fubaz".to_string()].to_vec();

    assert!(revlog_entry_differs_from_db(&mut review, &mut reviews[0]));
}

#[test]
fn update_revlog_entry_undoable() {
    let (mut col, card_id) = collection_with_review();
    let mut reviews = col.storage.get_revlog_entries_for_card(card_id);

    let mut orig_review = reviews[0].clone();
    orig_review.usn = Usn(1234);
    col.storage.update_revlog_entry(&orig_review);

    let mut new_review = orig_review.clone();
    new_review.mtime = TimestampSecs(5678);
    new_review.feedback = "feedback".to_string();
    new_review.tags = ["fubar".to_string(), "fubaz".to_string()].to_vec();

    // Higher-level code changes usn, but this call shouldn't.
    col.update_revlog_entry_undoable(&new_review, orig_review).unwrap();

    reviews = col.storage.get_revlog_entries_for_card(card_id);
    assert_eq!(reviews[0].usn, Usn(1234));
    assert_eq!(reviews[0].mtime, TimestampSecs(5678));
    assert_eq!(reviews[0].feedback, "feedback".to_string());
    assert_eq!(reviews[0].tags, ["fubar".to_string(), "fubaz".to_string()].to_vec());
}

#[test]
fn update_revlog_entry_inner_with_unchanged_entry_should_not_update_usn() {
    let (mut col, card_id) = collection_with_review();
    let mut reviews = col.storage.get_revlog_entries_for_card(card_id);

    let mut review = reviews[0].clone();
    review.usn = Usn(1234);

    // Low-level update to set usn.
    col.storage.update_revlog_entry(&review);

    // This call should NOT change usn because the review is unchanged.
    col.update_revlog_entry_inner(&mut review).unwrap();

    reviews = col.storage.get_revlog_entries_for_card(card_id);
    assert_eq!(reviews[0].usn, Usn(1234));
}

#[test]
fn update_revlog_entry_inner_with_changed_entry_should_update_usn() {
    let (mut col, card_id) = collection_with_review();
    let mut reviews = col.storage.get_revlog_entries_for_card(card_id);

    let mut review = reviews[0].clone();
    review.usn = Usn(1234);

    // Low-level update to set usn.
    col.storage.update_revlog_entry(&review);

    review.mtime = TimestampSecs(5678);
    review.feedback = "feedback".to_string();
    review.tags = ["fubar".to_string(), "fubaz".to_string()].to_vec();

    // This call should change usn because the review has changed.
    col.update_revlog_entry_inner(&mut review).unwrap();

    reviews = col.storage.get_revlog_entries_for_card(card_id);
    assert_eq!(reviews[0].usn, Usn(-1));
    assert_eq!(reviews[0].mtime, TimestampSecs(5678));
    assert_eq!(reviews[0].feedback, "feedback".to_string());
    assert_eq!(reviews[0].tags, ["fubar".to_string(), "fubaz".to_string()].to_vec());
}

#[test]
fn update_revlog_entries_maybe_undoable_true_with_unchanged_entry_should_not_update_usn() {
    let (mut col, card_id) = collection_with_review();
    let mut reviews = col.storage.get_revlog_entries_for_card(card_id);

    let mut review = reviews[0].clone();
    review.usn = Usn(1234);

    // Low-level update to set usn.
    col.storage.update_revlog_entry(&review);

    let vec = vec![review];

    // This call should NOT change usn because the review is unchanged.
    col.update_revlog_entries_maybe_undoable(vec, true).unwrap();

    reviews = col.storage.get_revlog_entries_for_card(card_id);
    assert_eq!(reviews[0].usn, Usn(1234));
}

#[test]
fn update_revlog_entries_maybe_undoable_false_with_unchanged_entry_should_not_update_usn() {
    let (mut col, card_id) = collection_with_review();
    let mut reviews = col.storage.get_revlog_entries_for_card(card_id);

    let mut review = reviews[0].clone();
    review.usn = Usn(1234);

    // Low-level update to set usn.
    col.storage.update_revlog_entry(&review);

    let vec = vec![review];

    // This call should NOT change usn because the review is unchanged.
    col.update_revlog_entries_maybe_undoable(vec, false).unwrap();

    reviews = col.storage.get_revlog_entries_for_card(card_id);
    assert_eq!(reviews[0].usn, Usn(1234));
}

#[test]
fn unchanged_update_records_nothing() {
    let (mut col, card_id) = collection_with_review();
    let reviews = col.storage.get_revlog_entries_for_card(card_id);
    let out = col.update_revlog_entries_maybe_undoable(vec![reviews[0].clone()], true).unwrap();
    assert_eq!(col.undo.len(), 0);
    assert_eq!(out.changes.op, Op::UpdateRevlogEntry);
    assert!(!out.changes.changes.revlog_entry);
    assert!(!col.undo.recording);
}

#[test]
fn changed_update_is_recorded_with_the_entry_as_it_was() {
    let (mut col, card_id) = collection_with_review();
    let reviews = col.storage.get_revlog_entries_for_card(card_id);
    let mut review = reviews[0].clone();
    review.feedback = "too easy".to_string();
    let out = col.update_revlog_entries_maybe_undoable(vec![review], true).unwrap();
    assert!(out.changes.changes.revlog_entry);
    assert!(!out.changes.changes.note);
    assert_eq!(col.undo.len(), 1);
    match col.undo.pop() {
        Some(UndoableChange::Revlog(UndoableRevlogChange::Updated(original))) => {
            assert_eq!(*original, reviews[0]);
        }
        _ => panic!("an update of the review log is expected"),
    }
}

#[test]
fn update_without_undo_reports_the_review_log_and_records_nothing() {
    let (mut col, card_id) = collection_with_review();
    let reviews = col.storage.get_revlog_entries_for_card(card_id);
    let mut review = reviews[0].clone();
    review.feedback = "too easy".to_string();
    let out = col.update_revlog_entries_maybe_undoable(vec![review], false).unwrap();
    assert!(out.changes.changes.revlog_entry);
    assert_eq!(col.undo.len(), 0);
    let stored = col.storage.get_revlog_entry(reviews[0].id).unwrap();
    assert_eq!(stored.feedback, "too easy");
}

#[test]
fn update_of_a_missing_entry_fails_and_changes_nothing() {
    let (mut col, card_id) = collection_with_review();
    let reviews = col.storage.get_revlog_entries_for_card(card_id);
    let mut changed = reviews[0].clone();
    changed.feedback = "too easy".to_string();
    let mut missing = reviews[0].clone();
    missing.id = RevlogId(42);
    let result = col.update_revlog_entries_maybe_undoable(vec![changed, missing], true);
    assert_eq!(result.err(), Some(AnkiError::NotFound { id: 42 }));
    assert_eq!(col.storage.get_revlog_entry(reviews[0].id).unwrap(), reviews[0]);
    assert_eq!(col.undo.len(), 0);
}

#[test]
fn undo_of_an_update_restores_every_field_and_redo_restores_the_update() {
    let (mut col, card_id) = collection_with_review();
    let original = col.storage.get_revlog_entries_for_card(card_id)[0].clone();
    let mut review = original.clone();
    review.mtime = TimestampSecs(5678);
    review.feedback = "feedback".to_string();
    review.tags = vec!["fubar".to_string()];
    col.undo.recording = true;
    col.update_revlog_entry_inner(&mut review).unwrap();
    let updated = col.storage.get_revlog_entry(original.id).unwrap();
    assert_eq!(updated, review);
    assert_eq!(updated.usn, Usn(-1));

    // the registration of the tag, and the update
    assert_eq!(col.undo.len(), 2);
    let change = match col.undo.pop() {
        Some(UndoableChange::Revlog(change)) => change,
        _ => panic!("a change of the review log is expected"),
    };
    col.undo_revlog_change(change).unwrap();
    assert_eq!(col.storage.get_revlog_entry(original.id).unwrap(), original);

    let change = match col.undo.pop() {
        Some(UndoableChange::Revlog(change)) => change,
        _ => panic!("a change of the review log is expected"),
    };
    col.undo_revlog_change(change).unwrap();
    assert_eq!(col.storage.get_revlog_entry(original.id).unwrap(), updated);
}

#[test]
fn undo_of_an_update_fails_where_the_entry_is_gone() {
    let (mut col, card_id) = collection_with_review();
    let original = col.storage.get_revlog_entries_for_card(card_id)[0].clone();
    col.storage.remove_revlog_entry(original.id);
    let result = col.undo_revlog_change(UndoableRevlogChange::Updated(Box::new(original)));
    assert!(matches!(result, Err(AnkiError::InvalidInput { .. })));
}

#[test]
fn removal_and_its_undo() {
    let (mut col, card_id) = collection_with_review();
    let original = col.storage.get_revlog_entries_for_card(card_id)[0].clone();
    let out = col.remove_revlog_entries_undoable(&[original.id]).unwrap();
    assert_eq!(out.output, 1);
    assert_eq!(out.changes.op, Op::RemoveRevlogEntry);
    assert!(out.changes.changes.revlog_entry);
    assert_eq!(col.storage.get_revlog_entry(original.id), None);
    let change = match col.undo.pop() {
        Some(UndoableChange::Revlog(change)) => change,
        _ => panic!("a change of the review log is expected"),
    };
    assert!(matches!(change, UndoableRevlogChange::Removed(_)));
    col.undo.recording = true;
    col.undo_revlog_change(change).unwrap();
    assert_eq!(col.storage.get_revlog_entry(original.id), Some(original.clone()));
    // undoing the undo removes the entry again
    let change = match col.undo.pop() {
        Some(UndoableChange::Revlog(change)) => change,
        _ => panic!("a change of the review log is expected"),
    };
    assert!(matches!(change, UndoableRevlogChange::Added(_)));
    col.undo_revlog_change(change).unwrap();
    assert_eq!(col.storage.get_revlog_entry(original.id), None);
}

#[test]
fn removal_of_a_missing_or_repeated_id_fails_and_changes_nothing() {
    let (mut col, card_id) = collection_with_review();
    let original = col.storage.get_revlog_entries_for_card(card_id)[0].clone();
    let result = col.remove_revlog_entries_undoable(&[original.id, RevlogId(7)]);
    assert_eq!(result.err(), Some(AnkiError::NotFound { id: 7 }));
    assert!(col.storage.get_revlog_entry(original.id).is_some());
    let result = col.remove_revlog_entries_undoable(&[original.id, original.id]);
    assert!(matches!(result, Err(AnkiError::NotFound { .. })));
    assert!(col.storage.get_revlog_entry(original.id).is_some());
    assert_eq!(col.undo.len(), 0);
}

#[test]
fn a_changed_update_on_a_server_is_stored_under_the_number_of_the_server() {
    let mut col = Collection::new(true);
    col.storage.usn = Usn(17);
    let entry = RevlogEntry {
        id: RevlogId(1000),
        cid: CardId(1),
        usn: Usn(3),
        button_chosen: 3,
        interval: 4,
        last_interval: 1,
        ease_factor: 2500,
        taken_millis: 1200,
        review_kind: RevlogReviewKind::Review,
        mtime: TimestampSecs(1),
        feedback: String::new(),
        tags: vec![],
    };
    col.add_revlog_entry_if_unique_undoable(entry.clone()).unwrap();
    let mut changed = entry.clone();
    changed.feedback = "hard".to_string();
    col.update_revlog_entry_inner(&mut changed).unwrap();
    assert_eq!(changed.usn, Usn(17));
    assert_eq!(col.storage.get_revlog_entry(RevlogId(1000)).unwrap().usn, Usn(17));
}

#[test]
fn tags_of_an_update_are_brought_to_their_canonical_form() {
    let (mut col, card_id) = collection_with_review();
    col.register_tag_string("Fubar".to_string(), Usn(-1)).unwrap();
    let mut review = col.storage.get_revlog_entries_for_card(card_id)[0].clone();
    review.tags = vec!["fubar fubaz".to_string(), "FUBAR".to_string(), "\"".to_string()];
    col.update_revlog_entry_inner(&mut review).unwrap();
    assert_eq!(review.tags, vec!["Fubar".to_string(), "fubaz".to_string()]);
    let names: Vec<String> = col.storage.tags.iter().map(|tag| tag.name.clone()).collect();
    assert_eq!(names, vec!["Fubar".to_string(), "fubaz".to_string()]);
}
