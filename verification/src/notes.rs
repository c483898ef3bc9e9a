//! Notes as the collection stores them.

use crate::text::clone_strings;
use crate::types::NoteId;
use crate::types::NotetypeId;
use crate::types::TimestampSecs;
use crate::types::Usn;
use vstd::prelude::*;

verus! {

/// A note.
#[derive(Clone, Debug, PartialEq, Eq)]
pub struct Note {
    pub id: NoteId,
    pub guid: String,
    pub notetype_id: NotetypeId,
    pub mtime: TimestampSecs,
    pub usn: Usn,
    pub tags: Vec<String>,
    pub fields: Vec<String>,
}

/// What a note holds, with its texts as character sequences.
#[verifier::ext_equal]
pub struct NoteRow {
    pub id: NoteId,
    pub guid: Seq<char>,
    pub notetype_id: NotetypeId,
    pub mtime: TimestampSecs,
    pub usn: Usn,
    pub tags: Seq<Seq<char>>,
    pub fields: Seq<Seq<char>>,
}

impl View for Note {
    type V = NoteRow;

    open spec fn view(&self) -> NoteRow {
        NoteRow {
            id: self.id,
            guid: self.guid@,
            notetype_id: self.notetype_id,
            mtime: self.mtime,
            usn: self.usn,
            tags: self.tags.deep_view(),
            fields: self.fields.deep_view(),
        }
    }
}

impl Note {
    /// A note made of the values that are stored for it.
    pub fn new_from_storage(
        id: NoteId,
        guid: String,
        notetype_id: NotetypeId,
        mtime: TimestampSecs,
        usn: Usn,
        tags: Vec<String>,
        fields: Vec<String>,
    ) -> (note: Note)
        ensures
            note == (Note { id, guid, notetype_id, mtime, usn, tags, fields }),
    {
        Note { id, guid, notetype_id, mtime, usn, tags, fields }
    }

    /// A copy that holds the same values.
    pub fn duplicate(&self) -> (copy: Note)
        ensures
            copy@ == self@,
    {
        Note {
            id: self.id,
            guid: self.guid.clone(),
            notetype_id: self.notetype_id,
            mtime: self.mtime,
            usn: self.usn,
            tags: clone_strings(&self.tags),
            fields: clone_strings(&self.fields),
        }
    }
}

/// The tags of one note, space-separated, with what is updated along with
/// them.
#[derive(Clone, Debug, PartialEq, Eq)]
pub struct NoteTags {
    pub id: NoteId,
    pub mtime: TimestampSecs,
    pub usn: Usn,
    pub tags: String,
}

/// What the tags of a note hold, with the text as a character sequence.
#[verifier::ext_equal]
pub struct NoteTagsRow {
    pub id: NoteId,
    pub mtime: TimestampSecs,
    pub usn: Usn,
    pub tags: Seq<char>,
}

impl View for NoteTags {
    type V = NoteTagsRow;

    open spec fn view(&self) -> NoteTagsRow {
        NoteTagsRow { id: self.id, mtime: self.mtime, usn: self.usn, tags: self.tags@ }
    }
}

impl NoteTags {
    /// Marks the tags as modified at `now`, to be synchronised under `usn`.
    pub fn set_modified(&mut self, usn: Usn, now: TimestampSecs)
        ensures
            final(self).mtime == now,
            final(self).usn == usn,
            final(self).id == old(self).id,
            final(self).tags == old(self).tags,
    {
        self.mtime = now;
        self.usn = usn;
    }

    /// A copy that holds the same values.
    pub fn duplicate(&self) -> (copy: NoteTags)
        ensures
            copy == *self,
    {
        NoteTags { id: self.id, mtime: self.mtime, usn: self.usn, tags: self.tags.clone() }
    }
}

} // verus!
