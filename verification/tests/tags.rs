use collection_sync::collection::Collection;
use collection_sync::error::AnkiError;
use collection_sync::matcher::TagMatcher;
use collection_sync::matcher::TagPredicate;
use collection_sync::notes::Note;
use collection_sync::ops::Op;
use collection_sync::rename::is_whitespace;
use collection_sync::revlog::RevlogEntry;
use collection_sync::revlog::RevlogReviewKind;
use collection_sync::tags::adjusted_case_for_parents;
use collection_sync::tags::is_tag_separator;
use collection_sync::tags::join_tags;
use collection_sync::tags::normalize_tag_name;
use collection_sync::tags::same_name;
use collection_sync::tags::split_tags;
use collection_sync::tags::Tag;
use collection_sync::text::contains;
use collection_sync::text::split_at_char;
use collection_sync::types::CardId;
use collection_sync::types::NoteId;
use collection_sync::types::NotetypeId;
use collection_sync::types::RevlogId;
use collection_sync::types::TimestampSecs;
use collection_sync::types::Usn;
use collection_sync::undo::UndoableChange;
use collection_sync::undo::UndoableNoteChange;
use collection_sync::undo::UndoableTagChange;

fn strings(items: &[&str]) -> Vec<String> {
    items.iter().map(|item| item.to_string()).collect()
}

fn note(id: i64, tags: &[&str]) -> Note {
    Note::new_from_storage(
        NoteId(id),
        "guid".to_string(),
        NotetypeId(1),
        TimestampSecs(50),
        Usn(3),
        strings(tags),
        strings(&["front", "back"]),
    )
}

fn review(id: i64, tags: &[&str]) -> RevlogEntry {
    RevlogEntry {
        id: RevlogId(id),
        cid: CardId(1),
        usn: Usn(3),
        button_chosen: 3,
        interval: 4,
        last_interval: 1,
        ease_factor: 2500,
        taken_millis: 1200,
        review_kind: RevlogReviewKind::Review,
        mtime: TimestampSecs(50),
        feedback: String::new(),
        tags: strings(tags),
    }
}

fn tagged_collection() -> Collection {
    let mut col = Collection::new(false);
    col.storage.add_or_update_note(&note(1, &["foo", "bar"]));
    col.storage.add_or_update_note(&note(2, &["foo::child", "other"]));
    col.storage.add_or_update_note(&note(3, &["foobar"]));
    col.storage.add_revlog_entry(&review(1, &["Foo"]), false);
    col.storage.add_revlog_entry(&review(2, &["baz"]), false);
    for name in ["foo", "bar", "foo::child", "other", "foobar", "baz"] {
        assert_eq!(col.register_tag_string(name.to_string(), Usn(0)), Ok(true));
    }
    col
}

fn registry(col: &Collection) -> Vec<String> {
    col.storage.tags.iter().map(|tag| tag.name.clone()).collect()
}

#[test]
fn tags_are_split_at_their_separators() {
    assert!(is_tag_separator(' '));
    assert!(is_tag_separator('\u{3000}'));
    assert!(!is_tag_separator('\t'));
    assert_eq!(split_tags("  foo bar\u{3000}baz "), strings(&["foo", "bar", "baz"]));
    assert_eq!(split_tags(""), Vec::<String>::new());
    assert_eq!(split_tags("   "), Vec::<String>::new());
    assert_eq!(split_tags("one"), strings(&["one"]));
}

#[test]
fn tags_are_joined_with_a_space_on_each_side() {
    assert_eq!(join_tags(&strings(&["a", "b"])), " a b ");
    assert_eq!(join_tags(&strings(&["a"])), " a ");
    assert_eq!(join_tags(&vec![]), "");
    assert_eq!(split_tags(&join_tags(&strings(&["x", "y::z"]))), strings(&["x", "y::z"]));
}

#[test]
fn a_text_is_split_at_a_character_with_its_empty_pieces() {
    assert_eq!(split_at_char("a\u{1f}\u{1f}b", '\u{1f}'), strings(&["a", "", "b"]));
    assert_eq!(split_at_char("", '\u{1f}'), strings(&[""]));
    assert_eq!(split_at_char("a\u{1f}", '\u{1f}'), strings(&["a", ""]));
}

#[test]
fn a_text_is_searched_for_a_text() {
    assert!(contains("the dns error: cancelled", "dns error: cancelled"));
    assert!(contains("abc", ""));
    assert!(contains("", ""));
    assert!(!contains("abc", "abcd"));
    assert!(!contains("abab", "bb"));
    assert!(contains("aab", "ab"));
}

#[test]
fn the_normal_form_of_a_name_has_no_invalid_characters() {
    assert_eq!(normalize_tag_name("a\"b\u{1}c d\u{3000}e\u{7f}"), "abcde");
    assert_eq!(normalize_tag_name("Ünï::cödé"), "Ünï::cödé");
    assert_eq!(normalize_tag_name("\" \""), "");
}

#[test]
fn names_are_compared_without_the_case_of_ascii_letters() {
    assert!(same_name("Foo::Bar", "fOO::bAR"));
    assert!(!same_name("foo", "fo"));
    assert!(!same_name("é", "É"));
    assert!(!same_name("[", "{"));
}

#[test]
fn white_space_is_told_apart() {
    for c in ['\t', '\n', '\r', ' ', '\u{85}', '\u{a0}', '\u{2003}', '\u{3000}'] {
        assert!(is_whitespace(c));
        assert!(c.is_whitespace());
    }
    for c in ['a', '\u{1}', '\u{200b}', ':'] {
        assert!(!is_whitespace(c));
        assert!(!c.is_whitespace());
    }
}

#[test]
fn a_name_takes_the_case_of_its_nearest_held_parent() {
    let tags = vec![Tag::new("Parent".to_string(), Usn(0)), Tag::new("PARENT::Kid".to_string(), Usn(0))];
    assert_eq!(
        adjusted_case_for_parents(&tags, "parent::kid::toy"),
        Some("PARENT::Kid::toy".to_string())
    );
    assert_eq!(adjusted_case_for_parents(&tags, "parent::x::y"), Some("Parent::x::y".to_string()));
    assert_eq!(adjusted_case_for_parents(&tags, "parent"), None);
    assert_eq!(adjusted_case_for_parents(&tags, "other::kid"), None);
}

#[test]
fn a_tag_is_matched_by_a_prefix_that_it_is_or_is_a_child_of() {
    let matcher = TagMatcher::new("foo");
    assert!(matcher.matches_tag("foo"));
    assert!(matcher.matches_tag("FOO::bar"));
    assert!(matcher.matches_tag("foo::"));
    assert!(!matcher.matches_tag("foobar"));
    assert!(!matcher.matches_tag("foo:bar"));
    assert!(!matcher.matches_tag("fo"));
    assert!(!matcher.matches_tag("bar::foo"));
    assert!(matcher.is_match(" bar foo::x "));
    assert!(!matcher.is_match(" bar foox "));
    assert!(!matcher.is_match(""));
    let several = TagMatcher::new("one two");
    assert!(several.is_match("two::x"));
    assert!(several.is_match("ONE"));
    assert!(!several.is_match("three"));
}

#[test]
fn replacing_renames_what_matches_and_notes_the_new_names() {
    let mut matcher = TagMatcher::new("foo");
    assert_eq!(matcher.replace(" foo bar foo::baz food ", "qux"), " qux bar qux::baz food ");
    assert_eq!(matcher.replace("Foo", "qux"), " qux ");
    assert_eq!(matcher.replace("", "qux"), "");
    assert_eq!(matcher.into_new_tags(), strings(&["qux", "qux::baz"]));
}

#[test]
fn a_tag_under_two_prefixes_is_renamed_by_the_first() {
    let mut matcher = TagMatcher::new("a::b a");
    assert_eq!(matcher.replace("a::b::c a::x", "n"), " n::c n::x ");
}

#[test]
fn a_tag_is_registered_once_under_its_first_case() {
    let mut col = Collection::new(false);
    assert_eq!(col.register_tag_string("Foo".to_string(), Usn(0)), Ok(true));
    assert_eq!(col.register_tag_string("foo".to_string(), Usn(0)), Ok(false));
    assert_eq!(col.register_tag_string("FOO::bar".to_string(), Usn(0)), Ok(true));
    assert!(matches!(
        col.register_tag_string("\"".to_string(), Usn(0)),
        Err(AnkiError::InvalidInput { .. })
    ));
    assert_eq!(registry(&col), strings(&["Foo", "Foo::bar"]));
    let mut tag = Tag::new("fOo".to_string(), Usn(0));
    assert_eq!(col.register_tag(&mut tag), Ok(false));
    assert_eq!(tag.name, "Foo");
}

#[test]
fn canonical_tags_come_each_once_in_the_case_of_the_registry() {
    let mut col = Collection::new(false);
    col.register_tag_string("Foo".to_string(), Usn(0)).unwrap();
    let (tags, added) =
        col.canonify_tags(strings(&["foo bar", "BAR", "f\"oo", "  "]), Usn(0)).unwrap();
    assert_eq!(tags, strings(&["Foo", "bar"]));
    assert!(added);
    let (tags, added) = col.canonify_tags(strings(&["bar"]), Usn(0)).unwrap();
    assert_eq!(tags, strings(&["bar"]));
    assert!(!added);
    assert_eq!(registry(&col), strings(&["Foo", "bar"]));
}

#[test]
fn renaming_a_tag_that_nothing_carries_changes_nothing() {
    let mut col = tagged_collection();
    let before = registry(&col);
    let out = col.rename_tag("absent", "present", TimestampSecs(100)).unwrap();
    assert_eq!(out.output, vec![0, 0]);
    assert_eq!(out.changes.op, Op::RenameTag);
    assert!(!out.changes.changes.tag && !out.changes.changes.note);
    assert!(!out.changes.changes.revlog_entry);
    assert_eq!(registry(&col), before);
    assert_eq!(col.undo.len(), 0);
    assert_eq!(col.storage.get_note(NoteId(1)), Some(note(1, &["foo", "bar"])));
}

#[test]
fn renaming_a_registered_tag_that_nothing_carries_leaves_the_registry_alone() {
    let mut col = tagged_collection();
    col.register_tag_string("lonely".to_string(), Usn(0)).unwrap();
    let before = registry(&col);
    assert_eq!(col.rename_tag_inner("lonely", "renamed", TimestampSecs(100)), Ok(vec![0, 0]));
    assert_eq!(registry(&col), before);
}

#[test]
fn renaming_changes_every_note_and_entry_that_carries_the_tag() {
    let mut col = tagged_collection();
    let out = col.rename_tag("foo", "qux", TimestampSecs(100)).unwrap();
    assert_eq!(out.output, vec![2, 1]);
    assert!(out.changes.changes.tag && out.changes.changes.note);
    assert!(out.changes.changes.revlog_entry);
    assert!(!out.changes.changes.card);

    let renamed = col.storage.get_note(NoteId(1)).unwrap();
    assert_eq!(renamed.tags, strings(&["qux", "bar"]));
    assert_eq!(renamed.mtime, TimestampSecs(100));
    assert_eq!(renamed.usn, Usn(-1));
    assert_eq!(renamed.fields, strings(&["front", "back"]));
    assert_eq!(col.storage.get_note(NoteId(2)).unwrap().tags, strings(&["qux::child", "other"]));
    assert_eq!(col.storage.get_note(NoteId(3)), Some(note(3, &["foobar"])));

    let entry = col.storage.get_revlog_entry(RevlogId(1)).unwrap();
    assert_eq!(entry.tags, strings(&["qux"]));
    assert_eq!(entry.mtime, TimestampSecs(100));
    assert_eq!(entry.usn, Usn(-1));
    assert_eq!(col.storage.get_revlog_entry(RevlogId(2)), Some(review(2, &["baz"])));

    assert_eq!(registry(&col), strings(&["bar", "other", "foobar", "baz", "qux", "qux::child"]));
    assert!(!col.undo.recording);
}

#[test]
fn renaming_records_each_change_with_what_was() {
    let mut col = tagged_collection();
    col.rename_tag("foo", "qux", TimestampSecs(100)).unwrap();
    assert_eq!(col.undo.len(), 7);
    let mut kinds = Vec::new();
    for change in &col.undo.changes {
        kinds.push(match change {
            UndoableChange::Tag(UndoableTagChange::Removed(tag)) => format!("-{}", tag.name),
            UndoableChange::Tag(UndoableTagChange::Added(tag)) => format!("+{}", tag.name),
            UndoableChange::Note(UndoableNoteChange::TagsUpdated(tags)) => {
                format!("note {}:{}", tags.id.0, tags.tags)
            }
            UndoableChange::Revlog(_) => "revlog".to_string(),
        });
    }
    assert_eq!(
        kinds,
        strings(&[
            "-foo",
            "-foo::child",
            "note 1: foo bar ",
            "note 2: foo::child other ",
            "revlog",
            "+qux",
            "+qux::child",
        ])
    );
}

#[test]
fn the_new_name_takes_the_case_of_its_parent_in_the_registry() {
    let mut col = tagged_collection();
    col.register_tag_string("Parent".to_string(), Usn(0)).unwrap();
    assert_eq!(col.rename_tag_inner("foo", "PARENT::new", TimestampSecs(100)), Ok(vec![2, 1]));
    assert_eq!(col.storage.get_note(NoteId(1)).unwrap().tags, strings(&["Parent::new", "bar"]));
    assert_eq!(
        col.storage.get_note(NoteId(2)).unwrap().tags,
        strings(&["Parent::new::child", "other"])
    );
}

#[test]
fn a_new_name_that_is_blank_or_holds_a_separator_is_refused() {
    let mut col = tagged_collection();
    for new_prefix in ["", "a b", "a\u{3000}b", "\t\n", " ", "\"", "\u{1}"] {
        let result = col.rename_tag("foo", new_prefix, TimestampSecs(100));
        assert!(matches!(result, Err(AnkiError::InvalidInput { .. })));
    }
    assert_eq!(col.storage.get_note(NoteId(1)), Some(note(1, &["foo", "bar"])));
    assert_eq!(registry(&col), strings(&["foo", "bar", "foo::child", "other", "foobar", "baz"]));
    assert_eq!(col.undo.len(), 0);
    assert!(!col.undo.recording);
}

#[test]
fn the_new_name_is_brought_to_its_normal_form() {
    let mut col = tagged_collection();
    assert_eq!(col.rename_tag_inner("baz", "q\"ux", TimestampSecs(100)), Ok(vec![0, 1]));
    assert_eq!(col.storage.get_revlog_entry(RevlogId(2)).unwrap().tags, strings(&["qux"]));
}
