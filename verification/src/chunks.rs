//! Chunks: the bounded batches in which pending objects travel from one
//! replica to the other, and the forms in which their objects are exchanged.

use crate::card::Card;
use crate::card::CardQueue;
use crate::card::CardRow;
use crate::card::CardType;
use crate::notes::Note;
use crate::notes::NoteRow;
use crate::revlog::RevlogEntry as ExtendedRevlogEntry;
use crate::revlog::RevlogReviewKind;
use crate::revlog::RevlogRow;
use crate::tags::join_tags;
use crate::tags::join_tags_spec;
use crate::tags::split_tags;
use crate::tags::split_tags_spec;
use crate::text::join_with;
use crate::text::join_with_spec;
use crate::text::split_at_char;
use crate::text::split_at_char_spec;
use crate::types::CardId;
use crate::types::DeckId;
use crate::types::NoteId;
use crate::types::NotetypeId;
use crate::types::RevlogId;
use crate::types::TimestampSecs;
use crate::types::Usn;
use vstd::prelude::*;
use vstd::std_specs::convert::FromSpecImpl;

verus! {

/// A review-log entry as peers without feedback and tags exchange it.
#[derive(Clone, Copy, Debug, PartialEq, Eq, Structural)]
pub struct RevlogEntry {
    pub id: RevlogId,
    pub cid: CardId,
    pub usn: Usn,
    /// 0 stands for manual rescheduling.
    pub button_chosen: u8,
    /// Positive values are in days, negative values in seconds.
    pub interval: i32,
    /// Positive values are in days, negative values in seconds.
    pub last_interval: i32,
    /// The card's ease after answering, in thousandths.
    pub ease_factor: u32,
    /// Milliseconds taken to answer the card.
    pub taken_millis: u32,
    pub review_kind: RevlogReviewKind,
}

/// The entry that is exchanged for a stored entry: the stored entry without
/// its modification time, feedback and tags.
pub open spec fn legacy_of(row: RevlogRow) -> RevlogEntry {
    RevlogEntry {
        id: row.id,
        cid: row.cid,
        usn: row.usn,
        button_chosen: row.button_chosen,
        interval: row.interval,
        last_interval: row.last_interval,
        ease_factor: row.ease_factor,
        taken_millis: row.taken_millis,
        review_kind: row.review_kind,
    }
}

/// The entry that is stored for an exchanged entry: the exchanged entry
/// with no modification time, no feedback and no tags.
pub open spec fn extended_of(e: RevlogEntry) -> RevlogRow {
    RevlogRow {
        id: e.id,
        cid: e.cid,
        usn: e.usn,
        button_chosen: e.button_chosen,
        interval: e.interval,
        last_interval: e.last_interval,
        ease_factor: e.ease_factor,
        taken_millis: e.taken_millis,
        review_kind: e.review_kind,
        mtime: TimestampSecs(0),
        feedback: Seq::empty(),
        tags: Seq::empty(),
    }
}

impl FromSpecImpl<ExtendedRevlogEntry> for RevlogEntry {
    open spec fn obeys_from_spec() -> bool {
        true
    }

    open spec fn from_spec(e: ExtendedRevlogEntry) -> RevlogEntry {
        legacy_of(e@)
    }
}

impl From<ExtendedRevlogEntry> for RevlogEntry {
    fn from(e: ExtendedRevlogEntry) -> (entry: RevlogEntry) {
        RevlogEntry {
            id: e.id,
            cid: e.cid,
            usn: e.usn,
            button_chosen: e.button_chosen,
            interval: e.interval,
            last_interval: e.last_interval,
            ease_factor: e.ease_factor,
            taken_millis: e.taken_millis,
            review_kind: e.review_kind,
        }
    }
}

impl FromSpecImpl<RevlogEntry> for ExtendedRevlogEntry {
    open spec fn obeys_from_spec() -> bool {
        false
    }

    open spec fn from_spec(e: RevlogEntry) -> ExtendedRevlogEntry {
        arbitrary()
    }
}

impl From<RevlogEntry> for ExtendedRevlogEntry {
    fn from(e: RevlogEntry) -> (entry: ExtendedRevlogEntry)
        ensures
            entry@ == extended_of(e),
    {
        ExtendedRevlogEntry {
            id: e.id,
            cid: e.cid,
            usn: e.usn,
            button_chosen: e.button_chosen,
            interval: e.interval,
            last_interval: e.last_interval,
            ease_factor: e.ease_factor,
            taken_millis: e.taken_millis,
            review_kind: e.review_kind,
            mtime: TimestampSecs(0),
            feedback: String::new(),
            tags: Vec::new(),
        }
    }
}

/// Taking a stored entry to its exchanged form and back keeps every field
/// but the modification time, the feedback and the tags, which come back
/// empty.
pub proof fn lemma_legacy_round_trip(row: RevlogRow)
    ensures
        extended_of(legacy_of(row)) == (RevlogRow {
            mtime: TimestampSecs(0),
            feedback: Seq::empty(),
            tags: Seq::empty(),
            ..row
        }),
        legacy_of(extended_of(legacy_of(row))) == legacy_of(row),
{
}

/// A card as peers exchange it.
#[derive(Clone, Debug, PartialEq, Eq)]
pub struct CardEntry {
    pub id: CardId,
    pub nid: NoteId,
    pub did: DeckId,
    pub ord: u16,
    pub mtime: TimestampSecs,
    pub usn: Usn,
    pub ctype: CardType,
    pub queue: CardQueue,
    pub due: i32,
    pub ivl: u32,
    pub factor: u16,
    pub reps: u32,
    pub lapses: u32,
    pub left: u32,
    pub odue: i32,
    pub odid: DeckId,
    pub flags: u8,
    pub data: String,
}

impl View for CardEntry {
    type V = CardRow;

    /// The card that the entry stands for.
    open spec fn view(&self) -> CardRow {
        CardRow {
            id: self.id,
            note_id: self.nid,
            deck_id: self.did,
            template_idx: self.ord,
            mtime: self.mtime,
            usn: self.usn,
            ctype: self.ctype,
            queue: self.queue,
            due: self.due,
            interval: self.ivl,
            ease_factor: self.factor,
            reps: self.reps,
            lapses: self.lapses,
            remaining_steps: self.left,
            original_due: self.odue,
            original_deck_id: self.odid,
            flags: self.flags,
            data: self.data@,
        }
    }
}

impl CardEntry {
    /// A copy that holds the same values.
    pub fn duplicate(&self) -> (copy: CardEntry)
        ensures
            copy@ == self@,
    {
        CardEntry {
            id: self.id,
            nid: self.nid,
            did: self.did,
            ord: self.ord,
            mtime: self.mtime,
            usn: self.usn,
            ctype: self.ctype,
            queue: self.queue,
            due: self.due,
            ivl: self.ivl,
            factor: self.factor,
            reps: self.reps,
            lapses: self.lapses,
            left: self.left,
            odue: self.odue,
            odid: self.odid,
            flags: self.flags,
            data: self.data.clone(),
        }
    }
}

impl FromSpecImpl<CardEntry> for Card {
    open spec fn obeys_from_spec() -> bool {
        false
    }

    open spec fn from_spec(e: CardEntry) -> Card {
        arbitrary()
    }
}

impl From<CardEntry> for Card {
    fn from(e: CardEntry) -> (card: Card)
        ensures
            card@ == e@,
    {
        Card {
            id: e.id,
            note_id: e.nid,
            deck_id: e.did,
            template_idx: e.ord,
            mtime: e.mtime,
            usn: e.usn,
            ctype: e.ctype,
            queue: e.queue,
            due: e.due,
            interval: e.ivl,
            ease_factor: e.factor,
            reps: e.reps,
            lapses: e.lapses,
            remaining_steps: e.left,
            original_due: e.odue,
            original_deck_id: e.odid,
            flags: e.flags,
            data: e.data,
        }
    }
}

impl FromSpecImpl<Card> for CardEntry {
    open spec fn obeys_from_spec() -> bool {
        false
    }

    open spec fn from_spec(e: Card) -> CardEntry {
        arbitrary()
    }
}

impl From<Card> for CardEntry {
    fn from(e: Card) -> (entry: CardEntry)
        ensures
            entry@ == e@,
    {
        CardEntry {
            id: e.id,
            nid: e.note_id,
            did: e.deck_id,
            ord: e.template_idx,
            mtime: e.mtime,
            usn: e.usn,
            ctype: e.ctype,
            queue: e.queue,
            due: e.due,
            ivl: e.interval,
            factor: e.ease_factor,
            reps: e.reps,
            lapses: e.lapses,
            left: e.remaining_steps,
            odue: e.original_due,
            odid: e.original_deck_id,
            flags: e.flags,
            data: e.data,
        }
    }
}

/// A note as peers exchange it.
#[derive(Clone, Debug, PartialEq, Eq)]
pub struct NoteEntry {
    pub id: NoteId,
    pub guid: String,
    pub ntid: NotetypeId,
    pub mtime: TimestampSecs,
    pub usn: Usn,
    /// The tags, separated by spaces.
    pub tags: String,
    /// The fields, separated by the unit separator.
    pub fields: String,
    /// Always empty.
    pub sfld: String,
    /// Always empty.
    pub csum: String,
    pub flags: u32,
    pub data: String,
}

/// What an exchanged note holds, with its texts as character sequences.
#[verifier::ext_equal]
pub struct NoteEntryRow {
    pub id: NoteId,
    pub guid: Seq<char>,
    pub ntid: NotetypeId,
    pub mtime: TimestampSecs,
    pub usn: Usn,
    pub tags: Seq<char>,
    pub fields: Seq<char>,
    pub sfld: Seq<char>,
    pub csum: Seq<char>,
    pub flags: u32,
    pub data: Seq<char>,
}

impl View for NoteEntry {
    type V = NoteEntryRow;

    open spec fn view(&self) -> NoteEntryRow {
        NoteEntryRow {
            id: self.id,
            guid: self.guid@,
            ntid: self.ntid,
            mtime: self.mtime,
            usn: self.usn,
            tags: self.tags@,
            fields: self.fields@,
            sfld: self.sfld@,
            csum: self.csum@,
            flags: self.flags,
            data: self.data@,
        }
    }
}

impl NoteEntry {
    /// A copy that holds the same values.
    pub fn duplicate(&self) -> (copy: NoteEntry)
        ensures
            copy@ == self@,
    {
        NoteEntry {
            id: self.id,
            guid: self.guid.clone(),
            ntid: self.ntid,
            mtime: self.mtime,
            usn: self.usn,
            tags: self.tags.clone(),
            fields: self.fields.clone(),
            sfld: self.sfld.clone(),
            csum: self.csum.clone(),
            flags: self.flags,
            data: self.data.clone(),
        }
    }
}

/// The character that separates the fields of an exchanged note.
pub const FIELD_SEPARATOR: char = '\x1f';

/// The note that is stored for an exchanged note: its tags and fields are
/// those that the two texts hold.
pub open spec fn note_of(e: NoteEntryRow) -> NoteRow {
    NoteRow {
        id: e.id,
        guid: e.guid,
        notetype_id: e.ntid,
        mtime: e.mtime,
        usn: e.usn,
        tags: split_tags_spec(e.tags),
        fields: split_at_char_spec(e.fields, FIELD_SEPARATOR),
    }
}

/// The note that is exchanged for a stored note: its tags and fields are
/// joined to one text each, and nothing else is sent along.
pub open spec fn note_entry_of(note: NoteRow) -> NoteEntryRow {
    NoteEntryRow {
        id: note.id,
        guid: note.guid,
        ntid: note.notetype_id,
        mtime: note.mtime,
        usn: note.usn,
        tags: join_tags_spec(note.tags),
        fields: join_with_spec(note.fields, seq![FIELD_SEPARATOR]),
        sfld: Seq::empty(),
        csum: Seq::empty(),
        flags: 0,
        data: Seq::empty(),
    }
}

impl FromSpecImpl<NoteEntry> for Note {
    open spec fn obeys_from_spec() -> bool {
        false
    }

    open spec fn from_spec(e: NoteEntry) -> Note {
        arbitrary()
    }
}

impl From<NoteEntry> for Note {
    fn from(e: NoteEntry) -> (note: Note)
        ensures
            note@ == note_of(e@),
    {
        let fields = split_at_char(e.fields.as_str(), FIELD_SEPARATOR);
        let tags = split_tags(e.tags.as_str());
        Note::new_from_storage(e.id, e.guid, e.ntid, e.mtime, e.usn, tags, fields)
    }
}

impl FromSpecImpl<Note> for NoteEntry {
    open spec fn obeys_from_spec() -> bool {
        false
    }

    open spec fn from_spec(e: Note) -> NoteEntry {
        arbitrary()
    }
}

impl From<Note> for NoteEntry {
    fn from(e: Note) -> (entry: NoteEntry)
        ensures
            entry@ == note_entry_of(e@),
    {
        proof {
            reveal_strlit("\x1f");
            assert("\x1f"@ =~= seq![FIELD_SEPARATOR]);
        }
        let fields = join_with(&e.fields, "\x1f");
        let tags = join_tags(&e.tags);
        NoteEntry {
            id: e.id,
            fields,
            guid: e.guid,
            ntid: e.notetype_id,
            mtime: e.mtime,
            usn: e.usn,
            tags,
            sfld: String::new(),
            csum: String::new(),
            flags: 0,
            data: String::new(),
        }
    }
}

/// A batch of pending objects, with review-log entries in the form that
/// every peer understands.
#[derive(Debug)]
pub struct Chunk {
    /// Whether this is the last batch.
    pub done: bool,
    pub revlog: Vec<RevlogEntry>,
    pub cards: Vec<CardEntry>,
    pub notes: Vec<NoteEntry>,
}

/// A batch of pending objects, with review-log entries in full.
#[derive(Debug)]
pub struct ExtendedChunk {
    /// Whether this is the last batch.
    pub done: bool,
    pub extended_revlog: Vec<ExtendedRevlogEntry>,
    pub cards: Vec<CardEntry>,
    pub notes: Vec<NoteEntry>,
}

/// The request to merge a batch.
#[derive(Debug)]
pub struct ApplyChunkRequest {
    pub chunk: Chunk,
}

/// The request to merge a batch with review-log entries in full.
#[derive(Debug)]
pub struct ApplyExtendedChunkRequest {
    pub extended_chunk: ExtendedChunk,
}

} // verus!
