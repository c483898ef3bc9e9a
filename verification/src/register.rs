//! Registering tags: each tag is known to the registry under one name, in
//! one case.

use crate::collection::Collection;
use crate::collection::CollectionState;
use crate::error::AnkiError;
use crate::storage::registered;
use crate::storage::unregistered;
use crate::tags::adjusted_case_for_parents;
use crate::tags::first_named;
use crate::tags::has_tag_named;
use crate::tags::normalize_tag_name;
use crate::tags::normalized_name;
use crate::tags::split_tags;
use crate::tags::split_tags_spec;
use crate::tags::with_parent_case;
use crate::tags::Tag;
use crate::tags::TagRow;
use crate::text::chars_of;
use crate::text::eq_ignore_case;
use crate::tags::chars_same_name;
use crate::types::Usn;
use crate::undo::Change;
use crate::undo::UndoableChange;
use crate::undo::UndoableTagChange;
use vstd::prelude::*;
use vstd::string::StringExecFns;

verus! {

/// The name under which the tag with the normal name `name` is known to
/// the registry `tags`: the name of the tag that the registry holds for it,
/// or else `name` with the case of its nearest held parent.
pub open spec fn canonical_name(tags: Seq<TagRow>, name: Seq<char>) -> Seq<char> {
    if has_tag_named(tags, name) {
        tags[first_named(tags, name)].name
    } else {
        with_parent_case(tags, name)
    }
}

/// Whether `names` holds `name`, the case of ASCII letters aside.
pub open spec fn holds_name(names: Seq<Seq<char>>, name: Seq<char>) -> bool {
    exists|i: int| 0 <= i < names.len() && eq_ignore_case(#[trigger] names[i], name)
}

impl CollectionState {
    /// The state after `tag` was registered.
    pub open spec fn with_tag_registered(self, tag: TagRow) -> CollectionState {
        CollectionState { registry: registered(self.registry, tag), ..self.record(
            Change::TagAdded(tag),
        ) }
    }

    /// The state after `tag` was taken out of the registry.
    pub open spec fn with_tag_removed(self, tag: TagRow) -> CollectionState {
        CollectionState { registry: unregistered(self.registry, tag.name), ..self.record(
            Change::TagRemoved(tag),
        ) }
    }

    /// The state after `tag` was made known to the registry: a tag that the
    /// registry does not hold yet is registered under its canonical name. A
    /// name whose normal form is empty changes nothing.
    pub open spec fn with_tag_known(self, tag: TagRow) -> CollectionState {
        let name = normalized_name(tag.name);
        if name.len() == 0 || has_tag_named(self.registry, name) {
            self
        } else {
            self.with_tag_registered(
                TagRow { name: canonical_name(self.registry, name), ..tag },
            )
        }
    }
}

/// The canonical tags gathered so far, with the state they were gathered
/// in and whether a tag was registered on the way.
pub struct Canon {
    pub state: CollectionState,
    pub names: Seq<Seq<char>>,
    pub added: bool,
}

/// What the tag named `raw` adds to the canonical tags: the tag is made
/// known to the registry, and its canonical name joins the names unless they
/// hold it already, the case of ASCII letters aside. A name whose normal
/// form is empty adds nothing.
pub open spec fn canon_tag(c: Canon, raw: Seq<char>, usn: Usn) -> Canon {
    let name = normalized_name(raw);
    if name.len() == 0 {
        c
    } else {
        let known = canonical_name(c.state.registry, name);
        Canon {
            state: c.state.with_tag_known(TagRow { name: raw, usn, expanded: false }),
            names: if holds_name(c.names, known) {
                c.names
            } else {
                c.names.push(known)
            },
            added: c.added || !has_tag_named(c.state.registry, name),
        }
    }
}

/// What the tags `raws` add to the canonical tags, one after the other.
pub open spec fn canon_tags(c: Canon, raws: Seq<Seq<char>>, usn: Usn) -> Canon
    decreases raws.len(),
{
    if raws.len() == 0 {
        c
    } else {
        canon_tag(canon_tags(c, raws.drop_last(), usn), raws.last(), usn)
    }
}

/// What the texts of tags `texts` add to the canonical tags, one after the
/// other, each with the tags that it holds.
pub open spec fn canon_texts(c: Canon, texts: Seq<Seq<char>>, usn: Usn) -> Canon
    decreases texts.len(),
{
    if texts.len() == 0 {
        c
    } else {
        canon_tags(canon_texts(c, texts.drop_last(), usn), split_tags_spec(texts.last()), usn)
    }
}

/// The canonical form of the tags in `texts`, gathered in the state `state`.
pub open spec fn canonified(state: CollectionState, texts: Seq<Seq<char>>, usn: Usn) -> Canon {
    canon_texts(Canon { state, names: Seq::empty(), added: false }, texts, usn)
}

/// Whether `after` differs from `before` at most in the registry and in
/// what the journal holds behind what it held.
pub open spec fn same_tables(before: CollectionState, after: CollectionState) -> bool {
    &&& after.revlog == before.revlog
    &&& after.cards == before.cards
    &&& after.notes == before.notes
    &&& after.server == before.server
    &&& after.usn == before.usn
    &&& after.recording == before.recording
    &&& after.notetypes == before.notetypes
    &&& after.ankimath_version == before.ankimath_version
    &&& before.journal.len() <= after.journal.len()
    &&& !before.recording ==> after.journal == before.journal
}

/// Making tags known to the registry touches neither the tables nor the
/// role of the collection, and leaves recording as it is.
pub proof fn lemma_canonified_keeps_tables(state: CollectionState, texts: Seq<Seq<char>>, usn: Usn)
    ensures
        canonified(state, texts, usn).state.revlog == state.revlog,
        canonified(state, texts, usn).state.cards == state.cards,
        canonified(state, texts, usn).state.notes == state.notes,
        canonified(state, texts, usn).state.server == state.server,
        canonified(state, texts, usn).state.usn == state.usn,
        canonified(state, texts, usn).state.recording == state.recording,
        canonified(state, texts, usn).state.notetypes == state.notetypes,
        canonified(state, texts, usn).state.ankimath_version == state.ankimath_version,
        state.journal.len() <= canonified(state, texts, usn).state.journal.len(),
        !state.recording ==> canonified(state, texts, usn).state.journal == state.journal,
{
    let start = Canon { state, names: Seq::empty(), added: false };
    lemma_canon_texts_keep_tables(start, texts, usn);
}

proof fn lemma_canon_tags_keep_tables(c: Canon, raws: Seq<Seq<char>>, usn: Usn)
    ensures
        same_tables(c.state, canon_tags(c, raws, usn).state),
    decreases raws.len(),
{
    if raws.len() > 0 {
        lemma_canon_tags_keep_tables(c, raws.drop_last(), usn);
    }
}

proof fn lemma_canon_texts_keep_tables(c: Canon, texts: Seq<Seq<char>>, usn: Usn)
    ensures
        same_tables(c.state, canon_texts(c, texts, usn).state),
    decreases texts.len(),
{
    if texts.len() > 0 {
        lemma_canon_texts_keep_tables(c, texts.drop_last(), usn);
        lemma_canon_tags_keep_tables(
            canon_texts(c, texts.drop_last(), usn),
            split_tags_spec(texts.last()),
            usn,
        );
    }
}

/// No two of `names` are the same name, the case of ASCII letters aside.
pub open spec fn distinct_names(names: Seq<Seq<char>>) -> bool {
    forall|i: int, j: int|
        0 <= i < j < names.len() ==> !eq_ignore_case(#[trigger] names[i], #[trigger] names[j])
}

/// The canonical tags of an entry are unique within it: no name comes
/// twice, the case of ASCII letters aside.
pub proof fn lemma_canonified_names_are_distinct(
    state: CollectionState,
    texts: Seq<Seq<char>>,
    usn: Usn,
)
    ensures
        distinct_names(canonified(state, texts, usn).names),
{
    lemma_canon_texts_keep_distinct(Canon { state, names: Seq::empty(), added: false }, texts, usn);
}

proof fn lemma_canon_tags_keep_distinct(c: Canon, raws: Seq<Seq<char>>, usn: Usn)
    requires
        distinct_names(c.names),
    ensures
        distinct_names(canon_tags(c, raws, usn).names),
    decreases raws.len(),
{
    if raws.len() > 0 {
        lemma_canon_tags_keep_distinct(c, raws.drop_last(), usn);
        let before = canon_tags(c, raws.drop_last(), usn);
        let after = canon_tag(before, raws.last(), usn);
        assert forall|i: int, j: int| 0 <= i < j < after.names.len() implies !eq_ignore_case(
            #[trigger] after.names[i],
            #[trigger] after.names[j],
        ) by {
            if j < before.names.len() {
                assert(after.names[i] == before.names[i]);
                assert(after.names[j] == before.names[j]);
            } else {
                assert(after.names[i] == before.names[i]);
            }
        }
    }
}

proof fn lemma_canon_texts_keep_distinct(c: Canon, texts: Seq<Seq<char>>, usn: Usn)
    requires
        distinct_names(c.names),
    ensures
        distinct_names(canon_texts(c, texts, usn).names),
    decreases texts.len(),
{
    if texts.len() > 0 {
        lemma_canon_texts_keep_distinct(c, texts.drop_last(), usn);
        lemma_canon_tags_keep_distinct(
            canon_texts(c, texts.drop_last(), usn),
            split_tags_spec(texts.last()),
            usn,
        );
    }
}

/// Whether `names` holds `name`, the case of ASCII letters aside.
fn holds_name_of(names: &Vec<String>, name: &str) -> (held: bool)
    ensures
        held == holds_name(names.deep_view(), name@),
{
    let wanted = chars_of(name);
    let mut i: usize = 0;
    while i < names.len()
        invariant
            i <= names.len(),
            wanted@ == name@,
            forall|j: int| 0 <= j < i ==> !eq_ignore_case(#[trigger] names.deep_view()[j], name@),
        decreases names.len() - i,
    {
        let this = chars_of(names[i].as_str());
        assert(names.deep_view()[i as int] == this@);
        if chars_same_name(&this, &wanted) {
            return true;
        }
        i += 1;
    }
    false
}

impl Collection {
    /// Registers `tag` and records that it was added.
    pub fn register_tag_undoable(&mut self, tag: &Tag)
        requires
            old(self).wf(),
        ensures
            final(self).wf(),
            final(self)@ == old(self)@.with_tag_registered(tag@),
    {
        self.save_undo(UndoableChange::Tag(UndoableTagChange::Added(Box::new(tag.duplicate()))));
        self.storage.register_tag(tag);
    }

    /// Takes `tag` out of the registry and records that it was removed.
    pub fn remove_single_tag_undoable(&mut self, tag: Tag)
        requires
            old(self).wf(),
        ensures
            final(self).wf(),
            final(self)@ == old(self)@.with_tag_removed(tag@),
    {
        self.storage.remove_single_tag(tag.name.as_str());
        self.save_undo(UndoableChange::Tag(UndoableTagChange::Removed(Box::new(tag))));
    }

    /// Gives `tag` the name under which the registry knows it or is to know
    /// it, and tells whether the registry does not hold it yet. A name
    /// whose normal form is empty is refused.
    pub fn prepare_tag_for_registering(&self, tag: &mut Tag) -> (result: Result<bool, AnkiError>)
        ensures
            result is Ok <==> normalized_name(old(tag).name@).len() > 0,
            match result {
                Ok(is_new) => {
                    &&& is_new == !has_tag_named(self@.registry, normalized_name(old(tag).name@))
                    &&& final(tag)@ == (TagRow {
                        name: canonical_name(self@.registry, normalized_name(old(tag).name@)),
                        ..old(tag)@
                    })
                },
                Err(err) => err is InvalidInput && *final(tag) == *old(tag),
            },
    {
        let normalized_name = normalize_tag_name(tag.name.as_str());
        if normalized_name.as_str().unicode_len() == 0 {
            return Err(AnkiError::InvalidInput { info: String::from_str("tag name empty") });
        }
        match self.storage.get_tag(normalized_name.as_str()) {
            Some(existing_tag) => {
                tag.name = existing_tag.name;
                Ok(false)
            },
            None => {
                match adjusted_case_for_parents(&self.storage.tags, normalized_name.as_str()) {
                    Some(new_name) => {
                        tag.name = new_name;
                    },
                    None => {
                        tag.name = normalized_name;
                    },
                }
                Ok(true)
            },
        }
    }

    /// Makes `tag` known to the registry: gives it its canonical name, and
    /// registers it if the registry does not hold it yet. Returns whether it
    /// was registered. A name whose normal form is empty is refused, and
    /// nothing changes.
    pub fn register_tag(&mut self, tag: &mut Tag) -> (result: Result<bool, AnkiError>)
        requires
            old(self).wf(),
        ensures
            final(self).wf(),
            result is Ok <==> normalized_name(old(tag).name@).len() > 0,
            match result {
                Ok(is_new) => {
                    &&& is_new == !has_tag_named(
                        old(self)@.registry,
                        normalized_name(old(tag).name@),
                    )
                    &&& final(tag)@ == (TagRow {
                        name: canonical_name(
                            old(self)@.registry,
                            normalized_name(old(tag).name@),
                        ),
                        ..old(tag)@
                    })
                    &&& final(self)@ == old(self)@.with_tag_known(old(tag)@)
                },
                Err(err) => err is InvalidInput && *final(tag) == *old(tag) && *final(self) == *old(
                    self,
                ),
            },
    {
        match self.prepare_tag_for_registering(tag) {
            Ok(is_new) => {
                if is_new {
                    self.register_tag_undoable(tag);
                }
                Ok(is_new)
            },
            Err(err) => Err(err),
        }
    }

    /// Makes the tag named `tag` known to the registry under `usn`. Returns
    /// whether it was registered.
    pub fn register_tag_string(&mut self, tag: String, usn: Usn) -> (result: Result<bool, AnkiError>)
        requires
            old(self).wf(),
        ensures
            final(self).wf(),
            result is Ok <==> normalized_name(tag@).len() > 0,
            match result {
                Ok(is_new) => {
                    &&& is_new == !has_tag_named(old(self)@.registry, normalized_name(tag@))
                    &&& final(self)@ == old(self)@.with_tag_known(
                        TagRow { name: tag@, usn, expanded: false },
                    )
                },
                Err(err) => err is InvalidInput && *final(self) == *old(self),
            },
    {
        let mut tag = Tag::new(tag, usn);
        self.register_tag(&mut tag)
    }

    /// Brings the tags in `tags` to their canonical form: each text is taken
    /// apart into its tags, each tag is made known to the registry under
    /// `usn`, and the canonical names are returned, each once, in the order
    /// in which they first occur. A tag whose normal form is empty is left
    /// out. Returns the names, and whether a tag was registered.
    pub fn canonify_tags(&mut self, tags: Vec<String>, usn: Usn) -> (result: Result<
        (Vec<String>, bool),
        AnkiError,
    >)
        requires
            old(self).wf(),
        ensures
            final(self).wf(),
            result is Ok,
            final(self)@ == canonified(old(self)@, tags.deep_view(), usn).state,
            result->Ok_0.0.deep_view() == canonified(old(self)@, tags.deep_view(), usn).names,
            result->Ok_0.1 == canonified(old(self)@, tags.deep_view(), usn).added,
    {
        let ghost start = Canon { state: self@, names: Seq::empty(), added: false };
        let ghost texts = tags.deep_view();
        let mut names: Vec<String> = Vec::new();
        let mut added = false;
        let mut i: usize = 0;
        assert(names.deep_view() =~= Seq::<Seq<char>>::empty());
        while i < tags.len()
            invariant
                i <= tags.len(),
                self.wf(),
                texts == tags.deep_view(),
                start == (Canon { state: old(self)@, names: Seq::empty(), added: false }),
                canon_texts(start, texts.take(i as int), usn) == (Canon {
                    state: self@,
                    names: names.deep_view(),
                    added,
                }),
            decreases tags.len() - i,
        {
            let parts = split_tags(tags[i].as_str());
            let ghost raws = parts.deep_view();
            let ghost outer = canon_texts(start, texts.take(i as int), usn);
            proof {
                assert(texts.take(i + 1).drop_last() =~= texts.take(i as int));
                assert(texts.take(i + 1).last() == tags@[i as int]@);
            }
            let mut j: usize = 0;
            while j < parts.len()
                invariant
                    j <= parts.len(),
                    self.wf(),
                    raws == parts.deep_view(),
                    canon_tags(outer, raws.take(j as int), usn) == (Canon {
                        state: self@,
                        names: names.deep_view(),
                        added,
                    }),
                decreases parts.len() - j,
            {
                proof {
                    assert(raws.take(j + 1).drop_last() =~= raws.take(j as int));
                    assert(raws.take(j + 1).last() == parts@[j as int]@);
                }
                let mut tag = Tag::new(parts[j].clone(), usn);
                match self.register_tag(&mut tag) {
                    Ok(is_new) => {
                        added = added || is_new;
                        if !holds_name_of(&names, tag.name.as_str()) {
                            let ghost before = names.deep_view();
                            names.push(tag.name);
                            assert(names.deep_view() =~= before.push(tag.name@));
                        }
                    },
                    Err(_) => {},
                }
                j += 1;
            }
            assert(raws.take(j as int) =~= raws);
            i += 1;
        }
        assert(texts.take(i as int) =~= texts);
        Ok((names, added))
    }
}

} // verus!
