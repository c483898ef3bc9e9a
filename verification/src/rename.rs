//! Renaming a tag: the tag and its children are renamed on every note and
//! every review-log entry that carries them, and in the registry.

use crate::collection::Collection;
use crate::collection::CollectionState;
use crate::error::AnkiError;
use crate::matcher::all_renamed;
use crate::matcher::any_matches;
use crate::matcher::first_prefix;
use crate::matcher::lemma_renamed_text_round_trip;
use crate::matcher::noted_names;
use crate::matcher::tag_matches;
use crate::matcher::TagMatcher;
use crate::notes::NoteRow;
use crate::notes::NoteTags;
use crate::notes::NoteTagsRow;
use crate::ops::Op;
use crate::ops::OpChanges;
use crate::ops::OpOutput;
use crate::revlog::RevlogChange;
use crate::revlog::RevlogRow;
use crate::storage::named_tag;
use crate::storage::note_tags_of;
use crate::storage::revlog_tags_of;
use crate::storage::tagged_note;
use crate::storage::tagged_revlog;
use crate::storage::with_note_tags;
use crate::tags::adjusted_case_for_parents;
use crate::tags::all_clean;
use crate::tags::is_clean_tag;
use crate::tags::is_tag_separator;
use crate::tags::is_tag_separator_spec;
use crate::tags::join_tags_spec;
use crate::tags::lemma_split_spaced;
use crate::tags::normalize_tag_name;
use crate::tags::normalized_name;
use crate::tags::split_tags_spec;
use crate::tags::tag_rows;
use crate::tags::with_parent_case;
use crate::tags::TagRow;
use crate::text::chars_of;
use crate::types::TimestampSecs;
use crate::types::Usn;
use crate::undo::kinds_changed;
use crate::undo::Change;
use crate::undo::UndoableChange;
use crate::undo::UndoableNoteChange;
use vstd::prelude::*;
use vstd::string::StringExecFns;

verus! {

/// The characters that count as white space.
pub open spec fn is_whitespace_spec(c: char) -> bool {
    let code = c as u32;
    ||| 9 <= code <= 13
    ||| code == 0x20
    ||| code == 0x85
    ||| code == 0xa0
    ||| code == 0x1680
    ||| 0x2000 <= code <= 0x200a
    ||| code == 0x2028
    ||| code == 0x2029
    ||| code == 0x202f
    ||| code == 0x205f
    ||| code == 0x3000
}

/// Whether `c` counts as white space.
pub fn is_whitespace(c: char) -> (white: bool)
    ensures
        white == is_whitespace_spec(c),
{
    let code: u32 = c as u32;
    (9 <= code && code <= 13) || code == 0x20 || code == 0x85 || code == 0xa0 || code == 0x1680 || (
    0x2000 <= code && code <= 0x200a) || code == 0x2028 || code == 0x2029 || code == 0x202f || code
        == 0x205f || code == 0x3000
}

/// Whether `text` is empty or holds white space only.
pub open spec fn is_blank(text: Seq<char>) -> bool {
    forall|i: int| 0 <= i < text.len() ==> is_whitespace_spec(#[trigger] text[i])
}

/// Whether `text` holds a separator of tags.
pub open spec fn has_separator(text: Seq<char>) -> bool {
    exists|i: int| 0 <= i < text.len() && is_tag_separator_spec(#[trigger] text[i])
}

/// The name that a tag is renamed to when `new_prefix` is asked for: the
/// normal form of `new_prefix`, with the case of its nearest parent that the
/// registry `tags` holds. There is none where `new_prefix` holds a separator,
/// is blank or has an empty normal form, nor where the name would not be a
/// clean tag.
pub open spec fn rename_target(tags: Seq<TagRow>, new_prefix: Seq<char>) -> Option<Seq<char>> {
    if has_separator(new_prefix) || is_blank(new_prefix) || normalized_name(new_prefix).len() == 0 {
        None
    } else if is_clean_tag(with_parent_case(tags, normalized_name(new_prefix))) {
        Some(with_parent_case(tags, normalized_name(new_prefix)))
    } else {
        None
    }
}

/// The test of a note for a tag under one of `prefixes`.
pub open spec fn note_under(prefixes: Seq<Seq<char>>) -> spec_fn(NoteRow) -> bool {
    |row: NoteRow| any_matches(prefixes, split_tags_spec(join_tags_spec(row.tags)))
}

/// The test of a review-log entry for a tag under one of `prefixes`.
pub open spec fn revlog_under(prefixes: Seq<Seq<char>>) -> spec_fn(RevlogRow) -> bool {
    |row: RevlogRow| any_matches(prefixes, split_tags_spec(join_tags_spec(row.tags)))
}

/// The test of a tag of the registry for a name under one of `prefixes`.
pub open spec fn tag_named_under(prefixes: Seq<Seq<char>>) -> spec_fn(TagRow) -> bool {
    |tag: TagRow| any_matches(prefixes, split_tags_spec(tag.name))
}

/// The tags of a note or an entry that are stored as `tags`, renamed, as
/// they are stored again: the tags are written to a text, read from it,
/// renamed, and written and read once more.
pub open spec fn retagged(
    tags: Seq<Seq<char>>,
    prefixes: Seq<Seq<char>>,
    replacement: Seq<char>,
) -> Seq<Seq<char>> {
    split_tags_spec(
        join_tags_spec(all_renamed(prefixes, split_tags_spec(join_tags_spec(tags)), replacement)),
    )
}

impl CollectionState {
    /// The state after `tags` were written to the note with their id, and
    /// `original` recorded as what they were.
    pub open spec fn with_note_tags_updated(
        self,
        tags: NoteTagsRow,
        original: NoteTagsRow,
    ) -> CollectionState {
        CollectionState {
            notes: if self.notes.contains_key(tags.id.0) {
                self.notes.insert(tags.id.0, with_note_tags(self.notes[tags.id.0], tags))
            } else {
                self.notes
            },
            ..self.record(Change::NoteTagsUpdated(original))
        }
    }

    /// The state after `tags` were taken out of the registry, one after the
    /// other.
    pub open spec fn with_tags_removed(self, tags: Seq<TagRow>) -> CollectionState
        decreases tags.len(),
    {
        if tags.len() == 0 {
            self
        } else {
            self.with_tags_removed(tags.drop_last()).with_tag_removed(tags.last())
        }
    }

    /// The state after the tags of the note under `id` were renamed: the
    /// note carries the renamed tags, was modified at `now` and is stored
    /// under the sequence number of a change made now; its tags as they were
    /// are recorded.
    pub open spec fn with_note_retagged(
        self,
        id: i64,
        prefixes: Seq<Seq<char>>,
        replacement: Seq<char>,
        now: TimestampSecs,
    ) -> CollectionState {
        let row = self.notes[id];
        CollectionState {
            notes: self.notes.insert(
                id,
                NoteRow {
                    tags: retagged(row.tags, prefixes, replacement),
                    mtime: now,
                    usn: self.change_usn(),
                    ..row
                },
            ),
            ..self.record(Change::NoteTagsUpdated(note_tags_of(row)))
        }
    }

    /// The state after the tags of the notes under `ids` were renamed, one
    /// note after the other.
    pub open spec fn with_notes_retagged(
        self,
        ids: Seq<i64>,
        prefixes: Seq<Seq<char>>,
        replacement: Seq<char>,
        now: TimestampSecs,
    ) -> CollectionState
        decreases ids.len(),
    {
        if ids.len() == 0 {
            self
        } else {
            self.with_notes_retagged(ids.drop_last(), prefixes, replacement, now).with_note_retagged(
                ids.last(),
                prefixes,
                replacement,
                now,
            )
        }
    }

    /// The state after the tags of the review-log entry under `id` were
    /// renamed: the entry carries the renamed tags, was modified at `now` and
    /// is stored under the sequence number of a change made now; its tags as
    /// they were are recorded.
    pub open spec fn with_entry_retagged(
        self,
        id: i64,
        prefixes: Seq<Seq<char>>,
        replacement: Seq<char>,
        now: TimestampSecs,
    ) -> CollectionState {
        let row = self.revlog[id];
        CollectionState {
            revlog: self.revlog.insert(
                id,
                RevlogRow {
                    tags: retagged(row.tags, prefixes, replacement),
                    mtime: now,
                    usn: self.change_usn(),
                    ..row
                },
            ),
            ..self.record(Change::Revlog(RevlogChange::TagsUpdated(revlog_tags_of(row))))
        }
    }

    /// The state after the tags of the review-log entries under `ids` were
    /// renamed, one entry after the other.
    pub open spec fn with_entries_retagged(
        self,
        ids: Seq<i64>,
        prefixes: Seq<Seq<char>>,
        replacement: Seq<char>,
        now: TimestampSecs,
    ) -> CollectionState
        decreases ids.len(),
    {
        if ids.len() == 0 {
            self
        } else {
            self.with_entries_retagged(
                ids.drop_last(),
                prefixes,
                replacement,
                now,
            ).with_entry_retagged(ids.last(), prefixes, replacement, now)
        }
    }

    /// The state after the tags named `names` were made known to the
    /// registry under `usn`, one after the other.
    pub open spec fn with_tags_known(self, names: Seq<Seq<char>>, usn: Usn) -> CollectionState
        decreases names.len(),
    {
        if names.len() == 0 {
            self
        } else {
            self.with_tags_known(names.drop_last(), usn).with_tag_known(
                TagRow { name: names.last(), usn, expanded: false },
            )
        }
    }

    /// The new names that renaming the tags of the notes under `ids` gives,
    /// behind `noted`, each once.
    pub open spec fn names_from_notes(
        self,
        noted: Seq<Seq<char>>,
        ids: Seq<i64>,
        prefixes: Seq<Seq<char>>,
        replacement: Seq<char>,
    ) -> Seq<Seq<char>>
        decreases ids.len(),
    {
        if ids.len() == 0 {
            noted
        } else {
            noted_names(
                self.names_from_notes(noted, ids.drop_last(), prefixes, replacement),
                prefixes,
                split_tags_spec(join_tags_spec(self.notes[ids.last()].tags)),
                replacement,
            )
        }
    }

    /// The new names that renaming the tags of the review-log entries under
    /// `ids` gives, behind `noted`, each once.
    pub open spec fn names_from_entries(
        self,
        noted: Seq<Seq<char>>,
        ids: Seq<i64>,
        prefixes: Seq<Seq<char>>,
        replacement: Seq<char>,
    ) -> Seq<Seq<char>>
        decreases ids.len(),
    {
        if ids.len() == 0 {
            noted
        } else {
            noted_names(
                self.names_from_entries(noted, ids.drop_last(), prefixes, replacement),
                prefixes,
                split_tags_spec(join_tags_spec(self.revlog[ids.last()].tags)),
                replacement,
            )
        }
    }

    /// The state after the tags under `prefixes` were renamed to
    /// `replacement` on the notes under `note_ids` and the review-log entries
    /// under `revlog_ids`: the tags of the registry that are under the
    /// prefixes are taken out of it, the notes and then the entries are given
    /// their renamed tags, and the new names are made known to the registry.
    pub open spec fn with_tag_renamed(
        self,
        prefixes: Seq<Seq<char>>,
        replacement: Seq<char>,
        now: TimestampSecs,
        note_ids: Seq<i64>,
        revlog_ids: Seq<i64>,
    ) -> CollectionState {
        let names = self.names_from_entries(
            self.names_from_notes(Seq::empty(), note_ids, prefixes, replacement),
            revlog_ids,
            prefixes,
            replacement,
        );
        self.with_tags_removed(self.registry.filter(tag_named_under(prefixes))).with_notes_retagged(
            note_ids,
            prefixes,
            replacement,
            now,
        ).with_entries_retagged(revlog_ids, prefixes, replacement, now).with_tags_known(
            names,
            self.change_usn(),
        )
    }
}

/// Tests that accept the same elements keep the same elements.
pub proof fn lemma_filter_same<A>(s: Seq<A>, keeps: spec_fn(A) -> bool, other: spec_fn(A) -> bool)
    requires
        forall|a: A| #[trigger] keeps(a) == other(a),
    ensures
        s.filter(keeps) == s.filter(other),
    decreases s.len(),
{
    reveal(Seq::filter);
    if s.len() > 0 {
        lemma_filter_same(s.drop_last(), keeps, other);
    }
}

/// Whether `text` is a clean tag.
fn is_clean(text: &str) -> (clean: bool)
    ensures
        clean == is_clean_tag(text@),
{
    let chars = chars_of(text);
    if chars.len() == 0 {
        return false;
    }
    let mut i: usize = 0;
    while i < chars.len()
        invariant
            i <= chars.len(),
            chars@ == text@,
            forall|j: int| 0 <= j < i ==> !is_tag_separator_spec(#[trigger] chars@[j]),
        decreases chars.len() - i,
    {
        if is_tag_separator(chars[i]) {
            return false;
        }
        i += 1;
    }
    true
}

impl Collection {
    /// Writes `tags` to the note with their id, and records `original` as
    /// what the tags were.
    pub fn update_note_tags_undoable(&mut self, tags: &NoteTags, original: NoteTags) -> (result:
        Result<(), AnkiError>)
        requires
            old(self).wf(),
        ensures
            final(self).wf(),
            result is Ok,
            final(self)@ == old(self)@.with_note_tags_updated(tags@, original@),
    {
        self.save_undo(UndoableChange::Note(UndoableNoteChange::TagsUpdated(Box::new(original))));
        self.storage.update_note_tags(tags);
        Ok(())
    }

    /// The name that a tag is renamed to when `new_prefix` is asked for, if
    /// there is one.
    fn target_name(&self, new_prefix: &str) -> (target: Option<String>)
        ensures
            target is Some <==> rename_target(self@.registry, new_prefix@) is Some,
            target matches Some(name) ==> rename_target(self@.registry, new_prefix@) == Some(name@),
    {
        let chars = chars_of(new_prefix);
        let mut separated = false;
        let mut blank = true;
        let mut i: usize = 0;
        while i < chars.len()
            invariant
                i <= chars.len(),
                chars@ == new_prefix@,
                separated == has_separator(chars@.take(i as int)),
                blank == is_blank(chars@.take(i as int)),
            decreases chars.len() - i,
        {
            proof {
                let sofar = chars@.take(i as int);
                let next = chars@.take(i + 1);
                assert(next =~= sofar.push(chars@[i as int]));
                assert forall|j: int| 0 <= j < sofar.len() implies sofar[j] == next[j] by {}
                assert(next[i as int] == chars@[i as int]);
                if has_separator(sofar) {
                    let j = choose|j: int|
                        0 <= j < sofar.len() && is_tag_separator_spec(#[trigger] sofar[j]);
                    assert(is_tag_separator_spec(next[j]));
                }
                if has_separator(next) {
                    let j = choose|j: int|
                        0 <= j < next.len() && is_tag_separator_spec(#[trigger] next[j]);
                    if j < i {
                        assert(is_tag_separator_spec(sofar[j]));
                    }
                }
                if is_blank(next) {
                    assert forall|j: int| 0 <= j < sofar.len() implies is_whitespace_spec(
                        #[trigger] sofar[j],
                    ) by {
                        assert(is_whitespace_spec(next[j]));
                    }
                }
            }
            if is_tag_separator(chars[i]) {
                separated = true;
            }
            if !is_whitespace(chars[i]) {
                blank = false;
            }
            i += 1;
        }
        assert(chars@.take(i as int) =~= chars@);
        if separated || blank {
            return None;
        }
        let normal = normalize_tag_name(new_prefix);
        if normal.as_str().unicode_len() == 0 {
            return None;
        }
        let target = match adjusted_case_for_parents(&self.storage.tags, normal.as_str()) {
            Some(adjusted) => adjusted,
            None => normal,
        };
        if !is_clean(target.as_str()) {
            return None;
        }
        Some(target)
    }

    /// Renames the tags under the prefixes in `old_prefix` to `new_prefix`
    /// on the notes and review-log entries that carry one, at the time
    /// `now`. Returns how many notes and how many review-log entries were
    /// changed, in this order. Where nothing carries such a tag, nothing
    /// changes, the registry included. Where `new_prefix` gives no name to
    /// rename to, the renaming is refused and nothing changes.
    pub fn rename_tag_inner(&mut self, old_prefix: &str, new_prefix: &str, now: TimestampSecs) -> (result:
        Result<Vec<usize>, AnkiError>)
        requires
            old(self).wf(),
        ensures
            final(self).wf(),
            result is Ok <==> rename_target(old(self)@.registry, new_prefix@) is Some,
            match result {
                Ok(counts) => ({
                    let prefixes = split_tags_spec(old_prefix@);
                    let target = rename_target(old(self)@.registry, new_prefix@)->0;
                    let note_ids = old(self).storage.notes.ids_where(note_under(prefixes));
                    let revlog_ids = old(self).storage.revlog.ids_where(revlog_under(prefixes));
                    &&& counts@ == seq![note_ids.len() as usize, revlog_ids.len() as usize]
                    &&& if note_ids.len() == 0 && revlog_ids.len() == 0 {
                        *final(self) == *old(self)
                    } else {
                        final(self)@ == old(self)@.with_tag_renamed(
                            prefixes,
                            target,
                            now,
                            note_ids,
                            revlog_ids,
                        )
                    }
                }),
                Err(err) => err is InvalidInput && *final(self) == *old(self),
            },
    {
        let new_prefix = match self.target_name(new_prefix) {
            Some(name) => name,
            None => {
                return Err(
                    AnkiError::InvalidInput {
                        info: String::from_str("replacement name can not be used"),
                    },
                );
            },
        };
        let usn = self.usn();
        let ghost start = self@;
        let ghost prefixes = split_tags_spec(old_prefix@);
        let ghost target = new_prefix@;
        let ghost note_ids = self.storage.notes.ids_where(note_under(prefixes));
        let ghost revlog_ids = self.storage.revlog.ids_where(revlog_under(prefixes));

        // gather what carries a tag to be renamed
        let mut re = TagMatcher::new(old_prefix);
        let matched_notes = self.storage.get_note_tags_by_predicate(&re);
        let matched_revlog_entries = self.storage.get_revlog_tags_by_predicate(&re);
        proof {
            self.storage.notes.lemma_ids_where_same(tagged_note(re), note_under(prefixes));
            self.storage.revlog.lemma_ids_where_same(tagged_revlog(re), revlog_under(prefixes));
            self.storage.notes.lemma_ids_where(note_under(prefixes));
            self.storage.revlog.lemma_ids_where(revlog_under(prefixes));
        }
        let note_match_count = matched_notes.len();
        let revlog_match_count = matched_revlog_entries.len();
        let mut counts: Vec<usize> = Vec::new();
        counts.push(note_match_count);
        counts.push(revlog_match_count);
        assert(counts@ =~= seq![note_ids.len() as usize, revlog_ids.len() as usize]);
        if note_match_count == 0 && revlog_match_count == 0 {
            // nothing carries the tag: the registry is left alone
            return Ok(counts);
        }
        // take the old names out of the registry

        let tags = self.storage.get_tags_by_predicate(&re);
        let ghost removed = start.registry.filter(tag_named_under(prefixes));
        proof {
            lemma_filter_same(start.registry, named_tag(re), tag_named_under(prefixes));
        }
        let mut t: usize = 0;
        while t < tags.len()
            invariant
                t <= tags.len(),
                self.wf(),
                tag_rows(tags@) == removed,
                self@ == start.with_tags_removed(removed.take(t as int)),
                self@.notes == start.notes,
                self@.revlog == start.revlog,
                self@.change_usn() == start.change_usn(),
            decreases tags.len() - t,
        {
            proof {
                assert(removed.take(t + 1).drop_last() =~= removed.take(t as int));
                assert(removed.take(t + 1).last() == tags@[t as int]@);
            }
            self.remove_single_tag_undoable(tags[t].duplicate());
            t += 1;
        }
        assert(removed.take(t as int) =~= removed);
        let ghost untagged = self@;
        proof {
            assert forall|j: int| 0 <= j < note_ids.len() implies start.notes.contains_key(
                #[trigger] note_ids[j],
            ) && start.notes[note_ids[j]].id.0 == note_ids[j] by {
                assert(note_ids.contains(note_ids[j]));
            }
            assert forall|j: int| 0 <= j < revlog_ids.len() implies start.revlog.contains_key(
                #[trigger] revlog_ids[j],
            ) && start.revlog[revlog_ids[j]].id.0 == revlog_ids[j] by {
                assert(revlog_ids.contains(revlog_ids[j]));
            }
        }

        // replace the tags of the notes
        let mut i: usize = 0;
        while i < matched_notes.len()
            invariant
                i <= matched_notes.len(),
                self.wf(),
                matched_notes.len() == note_ids.len(),
                note_ids.no_duplicates(),
                new_prefix@ == target,
                usn == start.change_usn(),
                self@.change_usn() == usn,
                untagged.notes == start.notes,
                forall|j: int|
                    0 <= j < note_ids.len() ==> start.notes.contains_key(#[trigger] note_ids[j])
                        && start.notes[note_ids[j]].id.0 == note_ids[j],
                forall|j: int|
                    0 <= j < matched_notes.len() ==> (#[trigger] matched_notes[j])@ == note_tags_of(
                        start.notes[note_ids[j]],
                    ),
                forall|j: int|
                    i <= j < note_ids.len() ==> self@.notes.contains_key(#[trigger] note_ids[j])
                        && self@.notes[note_ids[j]] == start.notes[note_ids[j]],
                self@ == untagged.with_notes_retagged(note_ids.take(i as int), prefixes, target, now),
                re.prefixes() == prefixes,
                re.new_names() == start.names_from_notes(
                    Seq::empty(),
                    note_ids.take(i as int),
                    prefixes,
                    target,
                ),
                self@.revlog == start.revlog,
            decreases matched_notes.len() - i,
        {
            proof {
                assert(note_ids.take(i + 1).drop_last() =~= note_ids.take(i as int));
                assert(note_ids.take(i + 1).last() == note_ids[i as int]);
            }
            let ghost before = self@;
            let mut note = matched_notes[i].duplicate();
            let original = note.duplicate();
            note.tags = re.replace(note.tags.as_str(), new_prefix.as_str());
            note.set_modified(usn, now);
            let _ = self.update_note_tags_undoable(&note, original);
            proof {
                let id = note_ids[i as int];
                assert(self@.notes =~= before.with_note_retagged(id, prefixes, target, now).notes);
                assert forall|j: int| i + 1 <= j < note_ids.len() implies self@.notes.contains_key(
                    #[trigger] note_ids[j],
                ) && self@.notes[note_ids[j]] == start.notes[note_ids[j]] by {
                    assert(note_ids[j] != id);
                }
            }
            i += 1;
        }
        assert(note_ids.take(i as int) =~= note_ids);
        let ghost notes_done = self@;
        let ghost note_names = re.new_names();

        // replace the tags of the review-log entries
        let mut k: usize = 0;
        while k < matched_revlog_entries.len()
            invariant
                k <= matched_revlog_entries.len(),
                self.wf(),
                matched_revlog_entries.len() == revlog_ids.len(),
                revlog_ids.no_duplicates(),
                new_prefix@ == target,
                usn == start.change_usn(),
                self@.change_usn() == usn,
                notes_done.revlog == start.revlog,
                forall|j: int|
                    0 <= j < revlog_ids.len() ==> start.revlog.contains_key(
                        #[trigger] revlog_ids[j],
                    ) && start.revlog[revlog_ids[j]].id.0 == revlog_ids[j],
                forall|j: int|
                    0 <= j < matched_revlog_entries.len() ==> (
                    #[trigger] matched_revlog_entries[j])@ == revlog_tags_of(
                        start.revlog[revlog_ids[j]],
                    ),
                forall|j: int|
                    k <= j < revlog_ids.len() ==> self@.revlog.contains_key(
                        #[trigger] revlog_ids[j],
                    ) && self@.revlog[revlog_ids[j]] == start.revlog[revlog_ids[j]],
                self@ == notes_done.with_entries_retagged(
                    revlog_ids.take(k as int),
                    prefixes,
                    target,
                    now,
                ),
                re.prefixes() == prefixes,
                re.new_names() == start.names_from_entries(
                    note_names,
                    revlog_ids.take(k as int),
                    prefixes,
                    target,
                ),
            decreases matched_revlog_entries.len() - k,
        {
            proof {
                assert(revlog_ids.take(k + 1).drop_last() =~= revlog_ids.take(k as int));
                assert(revlog_ids.take(k + 1).last() == revlog_ids[k as int]);
            }
            let ghost before = self@;
            let mut revlog_entry = matched_revlog_entries[k].duplicate();
            let original = revlog_entry.duplicate();
            revlog_entry.tags = re.replace(revlog_entry.tags.as_str(), new_prefix.as_str());
            revlog_entry.set_modified(usn, now);
            let _ = self.update_revlog_tags_undoable(&revlog_entry, original);
            proof {
                let id = revlog_ids[k as int];
                assert(self@.revlog =~= before.with_entry_retagged(
                    id,
                    prefixes,
                    target,
                    now,
                ).revlog);
                assert forall|j: int|
                    k + 1 <= j < revlog_ids.len() implies self@.revlog.contains_key(
                    #[trigger] revlog_ids[j],
                ) && self@.revlog[revlog_ids[j]] == start.revlog[revlog_ids[j]] by {
                    assert(revlog_ids[j] != id);
                }
            }
            k += 1;
        }
        assert(revlog_ids.take(k as int) =~= revlog_ids);
        let ghost entries_done = self@;

        // make the new names known to the registry
        let names = re.into_new_tags();
        let ghost all_names = names.deep_view();
        let mut m: usize = 0;
        while m < names.len()
            invariant
                m <= names.len(),
                self.wf(),
                all_names == names.deep_view(),
                self@ == entries_done.with_tags_known(all_names.take(m as int), usn),
            decreases names.len() - m,
        {
            proof {
                assert(all_names.take(m + 1).drop_last() =~= all_names.take(m as int));
                assert(all_names.take(m + 1).last() == names@[m as int]@);
            }
            let _ = self.register_tag_string(names[m].clone(), usn);
            m += 1;
        }
        assert(all_names.take(m as int) =~= all_names);
        Ok(counts)
    }

    /// Renames the tags under the prefixes in `old_prefix` to `new_prefix`
    /// on the notes and review-log entries that carry one, as one operation
    /// that can be undone. Returns how many notes and how many review-log
    /// entries were changed, in this order, with what the operation changed.
    pub fn rename_tag(&mut self, old_prefix: &str, new_prefix: &str, now: TimestampSecs) -> (result:
        Result<OpOutput<Vec<usize>>, AnkiError>)
        requires
            old(self).wf(),
        ensures
            final(self).wf(),
            result is Ok <==> rename_target(old(self)@.registry, new_prefix@) is Some,
            match result {
                Ok(out) => ({
                    let prefixes = split_tags_spec(old_prefix@);
                    let target = rename_target(old(self)@.registry, new_prefix@)->0;
                    let note_ids = old(self).storage.notes.ids_where(note_under(prefixes));
                    let revlog_ids = old(self).storage.revlog.ids_where(revlog_under(prefixes));
                    let during = CollectionState { recording: true, ..old(self)@ };
                    let after = if note_ids.len() == 0 && revlog_ids.len() == 0 {
                        during
                    } else {
                        during.with_tag_renamed(prefixes, target, now, note_ids, revlog_ids)
                    };
                    &&& out.output@ == seq![note_ids.len() as usize, revlog_ids.len() as usize]
                    &&& final(self)@ == (CollectionState {
                        recording: old(self)@.recording,
                        ..after
                    })
                    &&& out.changes.op == Op::RenameTag
                    &&& old(self)@.journal.len() <= after.journal.len()
                    &&& out.changes.changes == kinds_changed(
                        after.journal.skip(old(self)@.journal.len() as int),
                    )
                }),
                Err(err) => err is InvalidInput && *final(self) == *old(self),
            },
    {
        let was_recording = self.undo.recording;
        let mark = self.undo.len();
        self.undo.recording = true;
        match self.rename_tag_inner(old_prefix, new_prefix, now) {
            Ok(output) => {
                proof {
                    let prefixes = split_tags_spec(old_prefix@);
                    let target = rename_target(old(self)@.registry, new_prefix@)->0;
                    let note_ids = old(self).storage.notes.ids_where(note_under(prefixes));
                    let revlog_ids = old(self).storage.revlog.ids_where(revlog_under(prefixes));
                    let during = CollectionState { recording: true, ..old(self)@ };
                    if !(note_ids.len() == 0 && revlog_ids.len() == 0) {
                        lemma_rename_extends_journal(
                            during,
                            prefixes,
                            target,
                            now,
                            note_ids,
                            revlog_ids,
                        );
                    }
                }
                let changes = self.undo.kinds_changed_since(mark);
                self.undo.recording = was_recording;
                Ok(OpOutput { output, changes: OpChanges { op: Op::RenameTag, changes } })
            },
            Err(err) => {
                self.undo.recording = was_recording;
                Err(err)
            },
        }
    }
}

/// Whether `after` holds the journal of `before` and perhaps more behind
/// it, and is recording as `before` is.
pub open spec fn journal_extended(before: CollectionState, after: CollectionState) -> bool {
    &&& before.journal.len() <= after.journal.len()
    &&& after.recording == before.recording
}

/// A renaming only adds to the journal.
pub proof fn lemma_rename_extends_journal(
    state: CollectionState,
    prefixes: Seq<Seq<char>>,
    replacement: Seq<char>,
    now: TimestampSecs,
    note_ids: Seq<i64>,
    revlog_ids: Seq<i64>,
)
    ensures
        journal_extended(
            state,
            state.with_tag_renamed(prefixes, replacement, now, note_ids, revlog_ids),
        ),
{
    let removed = state.registry.filter(tag_named_under(prefixes));
    let names = state.names_from_entries(
        state.names_from_notes(Seq::empty(), note_ids, prefixes, replacement),
        revlog_ids,
        prefixes,
        replacement,
    );
    let s1 = state.with_tags_removed(removed);
    let s2 = s1.with_notes_retagged(note_ids, prefixes, replacement, now);
    let s3 = s2.with_entries_retagged(revlog_ids, prefixes, replacement, now);
    lemma_tags_removed_extend(state, removed);
    lemma_notes_retagged_extend(s1, note_ids, prefixes, replacement, now);
    lemma_entries_retagged_extend(s2, revlog_ids, prefixes, replacement, now);
    lemma_tags_known_extend(s3, names, state.change_usn());
}

proof fn lemma_tags_removed_extend(state: CollectionState, tags: Seq<TagRow>)
    ensures
        journal_extended(state, state.with_tags_removed(tags)),
    decreases tags.len(),
{
    if tags.len() > 0 {
        lemma_tags_removed_extend(state, tags.drop_last());
    }
}

proof fn lemma_notes_retagged_extend(
    state: CollectionState,
    ids: Seq<i64>,
    prefixes: Seq<Seq<char>>,
    replacement: Seq<char>,
    now: TimestampSecs,
)
    ensures
        journal_extended(state, state.with_notes_retagged(ids, prefixes, replacement, now)),
    decreases ids.len(),
{
    if ids.len() > 0 {
        lemma_notes_retagged_extend(state, ids.drop_last(), prefixes, replacement, now);
    }
}

proof fn lemma_entries_retagged_extend(
    state: CollectionState,
    ids: Seq<i64>,
    prefixes: Seq<Seq<char>>,
    replacement: Seq<char>,
    now: TimestampSecs,
)
    ensures
        journal_extended(state, state.with_entries_retagged(ids, prefixes, replacement, now)),
    decreases ids.len(),
{
    if ids.len() > 0 {
        lemma_entries_retagged_extend(state, ids.drop_last(), prefixes, replacement, now);
    }
}

proof fn lemma_tags_known_extend(state: CollectionState, names: Seq<Seq<char>>, usn: Usn)
    ensures
        journal_extended(state, state.with_tags_known(names, usn)),
    decreases names.len(),
{
    if names.len() > 0 {
        lemma_tags_known_extend(state, names.drop_last(), usn);
    }
}

/// The note or entry with the tags `tags` carries, after a renaming to a
/// clean name, its tags as its text holds them, each renamed: a tag under one
/// of the prefixes has the first such prefix replaced, every other tag is as
/// it was. Where the tags are clean, they are the tags that the text holds.
pub proof fn lemma_retagged(tags: Seq<Seq<char>>, prefixes: Seq<Seq<char>>, replacement: Seq<char>)
    requires
        is_clean_tag(replacement),
    ensures
        retagged(tags, prefixes, replacement) == all_renamed(
            prefixes,
            split_tags_spec(join_tags_spec(tags)),
            replacement,
        ),
        all_clean(tags) ==> retagged(tags, prefixes, replacement) == all_renamed(
            prefixes,
            tags,
            replacement,
        ),
        forall|i: int|
            0 <= i < tags.len() && !tag_matches(prefixes, #[trigger] tags[i])
                ==> all_renamed(prefixes, tags, replacement)[i] == tags[i],
        forall|i: int|
            0 <= i < tags.len() && tag_matches(prefixes, #[trigger] tags[i])
                ==> all_renamed(prefixes, tags, replacement)[i] == replacement + tags[i].skip(
                prefixes[first_prefix(prefixes, tags[i], 0)].len() as int,
            ),
{
    lemma_renamed_text_round_trip(prefixes, join_tags_spec(tags), replacement);
    if all_clean(tags) {
        lemma_split_spaced(tags);
    }
}

/// The note `row` as a renaming leaves it.
pub open spec fn note_retagged(
    row: NoteRow,
    prefixes: Seq<Seq<char>>,
    replacement: Seq<char>,
    now: TimestampSecs,
    usn: Usn,
) -> NoteRow {
    NoteRow { tags: retagged(row.tags, prefixes, replacement), mtime: now, usn, ..row }
}

/// The review-log entry `row` as a renaming leaves it.
pub open spec fn entry_retagged(
    row: RevlogRow,
    prefixes: Seq<Seq<char>>,
    replacement: Seq<char>,
    now: TimestampSecs,
    usn: Usn,
) -> RevlogRow {
    RevlogRow { tags: retagged(row.tags, prefixes, replacement), mtime: now, usn, ..row }
}

/// A renaming gives every note and every review-log entry that it is told
/// to change its renamed tags, the time of the renaming and the sequence
/// number of a change made now, and leaves every other note and entry, and
/// every card, as it was.
pub proof fn lemma_rename_changes_what_matches(
    state: CollectionState,
    prefixes: Seq<Seq<char>>,
    replacement: Seq<char>,
    now: TimestampSecs,
    note_ids: Seq<i64>,
    revlog_ids: Seq<i64>,
)
    requires
        note_ids.no_duplicates(),
        revlog_ids.no_duplicates(),
        forall|j: int| 0 <= j < note_ids.len() ==> state.notes.contains_key(#[trigger] note_ids[j]),
        forall|j: int|
            0 <= j < revlog_ids.len() ==> state.revlog.contains_key(#[trigger] revlog_ids[j]),
    ensures
        ({
            let after = state.with_tag_renamed(prefixes, replacement, now, note_ids, revlog_ids);
            &&& after.cards == state.cards
            &&& forall|id: i64| #[trigger]
                after.notes.contains_key(id) <==> state.notes.contains_key(id)
            &&& forall|id: i64| #[trigger]
                state.notes.contains_key(id) ==> after.notes[id] == if note_ids.contains(id) {
                    note_retagged(state.notes[id], prefixes, replacement, now, state.change_usn())
                } else {
                    state.notes[id]
                }
            &&& forall|id: i64| #[trigger]
                after.revlog.contains_key(id) <==> state.revlog.contains_key(id)
            &&& forall|id: i64| #[trigger]
                state.revlog.contains_key(id) ==> after.revlog[id] == if revlog_ids.contains(id) {
                    entry_retagged(state.revlog[id], prefixes, replacement, now, state.change_usn())
                } else {
                    state.revlog[id]
                }
        }),
{
    let removed = state.registry.filter(tag_named_under(prefixes));
    let names = state.names_from_entries(
        state.names_from_notes(Seq::empty(), note_ids, prefixes, replacement),
        revlog_ids,
        prefixes,
        replacement,
    );
    let s1 = state.with_tags_removed(removed);
    let s2 = s1.with_notes_retagged(note_ids, prefixes, replacement, now);
    let s3 = s2.with_entries_retagged(revlog_ids, prefixes, replacement, now);
    lemma_tags_removed_keep_rows(state, removed);
    lemma_notes_retagged_rows(s1, note_ids, prefixes, replacement, now);
    lemma_entries_retagged_rows(s2, revlog_ids, prefixes, replacement, now);
    lemma_tags_known_keep_rows(s3, names, state.change_usn());
}

/// Whether `after` has the rows, the role and the sequence number of
/// `before`.
pub open spec fn same_rows(before: CollectionState, after: CollectionState) -> bool {
    &&& after.revlog == before.revlog
    &&& after.cards == before.cards
    &&& after.notes == before.notes
    &&& after.server == before.server
    &&& after.usn == before.usn
}

proof fn lemma_tags_removed_keep_rows(state: CollectionState, tags: Seq<TagRow>)
    ensures
        same_rows(state, state.with_tags_removed(tags)),
    decreases tags.len(),
{
    if tags.len() > 0 {
        lemma_tags_removed_keep_rows(state, tags.drop_last());
    }
}

proof fn lemma_tags_known_keep_rows(state: CollectionState, names: Seq<Seq<char>>, usn: Usn)
    ensures
        same_rows(state, state.with_tags_known(names, usn)),
    decreases names.len(),
{
    if names.len() > 0 {
        lemma_tags_known_keep_rows(state, names.drop_last(), usn);
    }
}

proof fn lemma_notes_retagged_rows(
    state: CollectionState,
    ids: Seq<i64>,
    prefixes: Seq<Seq<char>>,
    replacement: Seq<char>,
    now: TimestampSecs,
)
    requires
        ids.no_duplicates(),
        forall|j: int| 0 <= j < ids.len() ==> state.notes.contains_key(#[trigger] ids[j]),
    ensures
        ({
            let after = state.with_notes_retagged(ids, prefixes, replacement, now);
            &&& after.revlog == state.revlog
            &&& after.cards == state.cards
            &&& after.server == state.server
            &&& after.usn == state.usn
            &&& forall|id: i64| #[trigger]
                after.notes.contains_key(id) <==> state.notes.contains_key(id)
            &&& forall|id: i64| #[trigger]
                state.notes.contains_key(id) ==> after.notes[id] == if ids.contains(id) {
                    note_retagged(state.notes[id], prefixes, replacement, now, state.change_usn())
                } else {
                    state.notes[id]
                }
        }),
    decreases ids.len(),
{
    if ids.len() > 0 {
        let init = ids.drop_last();
        let last = ids.last();
        lemma_notes_retagged_rows(state, init, prefixes, replacement, now);
        assert(!init.contains(last)) by {
            if init.contains(last) {
                let j = init.index_of(last);
                assert(ids[j] == last);
            }
        }
        assert forall|id: i64| ids.contains(id) <==> (init.contains(id) || id == last) by {
            if init.contains(id) {
                let j = init.index_of(id);
                assert(ids[j] == id);
            }
            if ids.contains(id) {
                let j = ids.index_of(id);
                if j < init.len() {
                    assert(init[j] == id);
                }
            }
            assert(ids[ids.len() - 1] == last);
        }
    }
}

proof fn lemma_entries_retagged_rows(
    state: CollectionState,
    ids: Seq<i64>,
    prefixes: Seq<Seq<char>>,
    replacement: Seq<char>,
    now: TimestampSecs,
)
    requires
        ids.no_duplicates(),
        forall|j: int| 0 <= j < ids.len() ==> state.revlog.contains_key(#[trigger] ids[j]),
    ensures
        ({
            let after = state.with_entries_retagged(ids, prefixes, replacement, now);
            &&& after.notes == state.notes
            &&& after.cards == state.cards
            &&& after.server == state.server
            &&& after.usn == state.usn
            &&& forall|id: i64| #[trigger]
                after.revlog.contains_key(id) <==> state.revlog.contains_key(id)
            &&& forall|id: i64| #[trigger]
                state.revlog.contains_key(id) ==> after.revlog[id] == if ids.contains(id) {
                    entry_retagged(state.revlog[id], prefixes, replacement, now, state.change_usn())
                } else {
                    state.revlog[id]
                }
        }),
    decreases ids.len(),
{
    if ids.len() > 0 {
        let init = ids.drop_last();
        let last = ids.last();
        lemma_entries_retagged_rows(state, init, prefixes, replacement, now);
        assert(!init.contains(last)) by {
            if init.contains(last) {
                let j = init.index_of(last);
                assert(ids[j] == last);
            }
        }
        assert forall|id: i64| ids.contains(id) <==> (init.contains(id) || id == last) by {
            if init.contains(id) {
                let j = init.index_of(id);
                assert(ids[j] == id);
            }
            if ids.contains(id) {
                let j = ids.index_of(id);
                if j < init.len() {
                    assert(init[j] == id);
                }
            }
            assert(ids[ids.len() - 1] == last);
        }
    }
}

} // verus!
