//! Review-log entries and the changes to them that can be undone.

use crate::text::clone_strings;
use crate::text::strings_eq;
use crate::types::CardId;
use crate::types::RevlogId;
use crate::types::TimestampSecs;
use crate::types::Usn;
use vstd::prelude::*;

verus! {

/// What kind of review a log entry records.
#[derive(Clone, Copy, Debug, PartialEq, Eq, Structural)]
pub enum RevlogReviewKind {
    Learning,
    Review,
    Relearning,
    /// A review in a filtered deck that did not reschedule the card.
    Filtered,
    Manual,
    Rescheduled,
}

/// The number that stands for a review kind in stored and transferred
/// entries.
pub open spec fn review_kind_code(kind: RevlogReviewKind) -> int {
    match kind {
        RevlogReviewKind::Learning => 0,
        RevlogReviewKind::Review => 1,
        RevlogReviewKind::Relearning => 2,
        RevlogReviewKind::Filtered => 3,
        RevlogReviewKind::Manual => 4,
        RevlogReviewKind::Rescheduled => 5,
    }
}

impl RevlogReviewKind {
    /// The number that stands for this kind.
    pub fn code(self) -> (code: u8)
        ensures
            code as int == review_kind_code(self),
    {
        match self {
            RevlogReviewKind::Learning => 0,
            RevlogReviewKind::Review => 1,
            RevlogReviewKind::Relearning => 2,
            RevlogReviewKind::Filtered => 3,
            RevlogReviewKind::Manual => 4,
            RevlogReviewKind::Rescheduled => 5,
        }
    }

    /// The kind that `code` stands for, if it stands for one.
    pub fn from_code(code: u8) -> (kind: Option<RevlogReviewKind>)
        ensures
            code <= 5 <==> kind is Some,
            kind matches Some(k) ==> review_kind_code(k) == code as int,
    {
        match code {
            0 => Some(RevlogReviewKind::Learning),
            1 => Some(RevlogReviewKind::Review),
            2 => Some(RevlogReviewKind::Relearning),
            3 => Some(RevlogReviewKind::Filtered),
            4 => Some(RevlogReviewKind::Manual),
            5 => Some(RevlogReviewKind::Rescheduled),
            _ => None,
        }
    }
}

impl Default for RevlogReviewKind {
    fn default() -> (kind: RevlogReviewKind)
        ensures
            kind == RevlogReviewKind::Learning,
    {
        RevlogReviewKind::Learning
    }
}

/// One review of a card, with the feedback and tags attached to it later.
#[derive(Clone, Debug, PartialEq, Eq)]
pub struct RevlogEntry {
    pub id: RevlogId,
    pub cid: CardId,
    pub usn: Usn,
    /// 0 stands for manual rescheduling.
    pub button_chosen: u8,
    /// Positive values are in days, negative values in seconds.
    pub interval: i32,
    /// Positive values are in days, negative values in seconds.
    pub last_interval: i32,
    /// The card's ease after answering, in thousandths.
    pub ease_factor: u32,
    /// Milliseconds taken to answer the card.
    pub taken_millis: u32,
    pub review_kind: RevlogReviewKind,
    pub mtime: TimestampSecs,
    pub feedback: String,
    pub tags: Vec<String>,
}

/// What a review-log entry holds, with its texts as character sequences.
#[verifier::ext_equal]
pub struct RevlogRow {
    pub id: RevlogId,
    pub cid: CardId,
    pub usn: Usn,
    pub button_chosen: u8,
    pub interval: i32,
    pub last_interval: i32,
    pub ease_factor: u32,
    pub taken_millis: u32,
    pub review_kind: RevlogReviewKind,
    pub mtime: TimestampSecs,
    pub feedback: Seq<char>,
    pub tags: Seq<Seq<char>>,
}

impl View for RevlogEntry {
    type V = RevlogRow;

    open spec fn view(&self) -> RevlogRow {
        RevlogRow {
            id: self.id,
            cid: self.cid,
            usn: self.usn,
            button_chosen: self.button_chosen,
            interval: self.interval,
            last_interval: self.last_interval,
            ease_factor: self.ease_factor,
            taken_millis: self.taken_millis,
            review_kind: self.review_kind,
            mtime: self.mtime,
            feedback: self.feedback@,
            tags: self.tags.deep_view(),
        }
    }
}

impl RevlogEntry {
    /// A copy that holds the same values.
    pub fn duplicate(&self) -> (copy: RevlogEntry)
        ensures
            copy@ == self@,
    {
        RevlogEntry {
            id: self.id,
            cid: self.cid,
            usn: self.usn,
            button_chosen: self.button_chosen,
            interval: self.interval,
            last_interval: self.last_interval,
            ease_factor: self.ease_factor,
            taken_millis: self.taken_millis,
            review_kind: self.review_kind,
            mtime: self.mtime,
            feedback: self.feedback.clone(),
            tags: clone_strings(&self.tags),
        }
    }

    /// Whether `other` holds the same values, field for field.
    pub fn same_as(&self, other: &RevlogEntry) -> (same: bool)
        ensures
            same == (self@ == other@),
    {
        self.id == other.id && self.cid == other.cid && self.usn == other.usn
            && self.button_chosen == other.button_chosen && self.interval == other.interval
            && self.last_interval == other.last_interval && self.ease_factor == other.ease_factor
            && self.taken_millis == other.taken_millis && self.review_kind == other.review_kind
            && self.mtime == other.mtime && self.feedback == other.feedback && strings_eq(
            &self.tags,
            &other.tags,
        )
    }
}

/// Whether the entry proposed in `revlog_entry` differs in any field from the
/// stored entry `existing_revlog_entry`.
pub fn revlog_entry_differs_from_db(
    existing_revlog_entry: &mut RevlogEntry,
    revlog_entry: &mut RevlogEntry,
) -> (differs: bool)
    ensures
        differs == (old(existing_revlog_entry)@ != old(revlog_entry)@),
        *final(existing_revlog_entry) == *old(existing_revlog_entry),
        *final(revlog_entry) == *old(revlog_entry),
{
    !existing_revlog_entry.same_as(revlog_entry)
}

/// The tags of one review-log entry, space-separated, with what is updated
/// along with them.
#[derive(Clone, Debug, PartialEq, Eq)]
pub struct RevlogTags {
    pub id: RevlogId,
    pub mtime: TimestampSecs,
    pub usn: Usn,
    pub tags: String,
}

/// What the tags of a review-log entry hold, with the text as a character
/// sequence.
#[verifier::ext_equal]
pub struct RevlogTagsRow {
    pub id: RevlogId,
    pub mtime: TimestampSecs,
    pub usn: Usn,
    pub tags: Seq<char>,
}

impl View for RevlogTags {
    type V = RevlogTagsRow;

    open spec fn view(&self) -> RevlogTagsRow {
        RevlogTagsRow { id: self.id, mtime: self.mtime, usn: self.usn, tags: self.tags@ }
    }
}

impl RevlogTags {
    /// Marks the tags as modified at `now`, to be synchronised under `usn`.
    pub fn set_modified(&mut self, usn: Usn, now: TimestampSecs)
        ensures
            final(self).mtime == now,
            final(self).usn == usn,
            final(self).id == old(self).id,
            final(self).tags == old(self).tags,
    {
        self.mtime = now;
        self.usn = usn;
    }

    /// A copy that holds the same values.
    pub fn duplicate(&self) -> (copy: RevlogTags)
        ensures
            copy == *self,
    {
        RevlogTags { id: self.id, mtime: self.mtime, usn: self.usn, tags: self.tags.clone() }
    }
}

/// A change to the review log, recorded so that it can be reversed. Each
/// variant carries the entry that reversing the change needs: the entry that
/// was added, the entry as it was before the update, the entry that was
/// removed, or the tags as they were.
#[derive(Debug)]
pub enum UndoableRevlogChange {
    Added(Box<RevlogEntry>),
    Updated(Box<RevlogEntry>),
    Removed(Box<RevlogEntry>),
    TagsUpdated(Box<RevlogTags>),
}

/// What a change to the review log holds.
#[verifier::ext_equal]
pub enum RevlogChange {
    Added(RevlogRow),
    Updated(RevlogRow),
    Removed(RevlogRow),
    TagsUpdated(RevlogTagsRow),
}

impl View for UndoableRevlogChange {
    type V = RevlogChange;

    open spec fn view(&self) -> RevlogChange {
        match self {
            UndoableRevlogChange::Added(entry) => RevlogChange::Added(entry@),
            UndoableRevlogChange::Updated(entry) => RevlogChange::Updated(entry@),
            UndoableRevlogChange::Removed(entry) => RevlogChange::Removed(entry@),
            UndoableRevlogChange::TagsUpdated(tags) => RevlogChange::TagsUpdated(tags@),
        }
    }
}

} // verus!
