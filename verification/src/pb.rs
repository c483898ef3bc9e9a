//! Review-log entries as the front end exchanges them.

use crate::error::AnkiError;
use crate::revlog::review_kind_code;
use crate::revlog::RevlogEntry as StoredRevlogEntry;
use crate::revlog::RevlogReviewKind;
use crate::revlog::RevlogRow;
use crate::types::CardId;
use crate::types::RevlogId as StoredRevlogId;
use crate::types::TimestampSecs;
use crate::types::Usn;
use vstd::prelude::*;
use vstd::std_specs::convert::FromSpecImpl;
use vstd::string::StringExecFns;

verus! {

/// The id of a review-log entry, as a message.
#[derive(Clone, Copy, Debug, PartialEq, Eq, Structural)]
pub struct RevlogId {
    pub rid: i64,
}

/// A review-log entry, as a message.
#[derive(Clone, Debug, PartialEq, Eq)]
pub struct RevlogEntry {
    pub id: i64,
    pub cid: i64,
    pub usn: i32,
    pub button_chosen: u32,
    pub interval: i32,
    pub last_interval: i32,
    pub ease_factor: u32,
    pub taken_millis: u32,
    pub review_kind: i32,
    pub mtime_secs: u32,
    pub feedback: String,
    pub tags: Vec<String>,
}

/// The request to update review-log entries.
#[derive(Clone, Debug, PartialEq, Eq)]
pub struct UpdateRevlogEntriesRequest {
    pub revlog_entries: Vec<RevlogEntry>,
    /// Whether the update is to be kept out of the undo journal.
    pub skip_undo_entry: bool,
}

/// The request to remove review-log entries.
#[derive(Clone, Debug, PartialEq, Eq)]
pub struct RemoveRevlogEntriesRequest {
    pub revlog_ids: Vec<i64>,
}

/// What a message of a review-log entry holds, with its texts as character
/// sequences.
#[verifier::ext_equal]
pub struct RevlogMessage {
    pub id: i64,
    pub cid: i64,
    pub usn: i32,
    pub button_chosen: u32,
    pub interval: i32,
    pub last_interval: i32,
    pub ease_factor: u32,
    pub taken_millis: u32,
    pub review_kind: i32,
    pub mtime_secs: u32,
    pub feedback: Seq<char>,
    pub tags: Seq<Seq<char>>,
}

impl View for RevlogEntry {
    type V = RevlogMessage;

    open spec fn view(&self) -> RevlogMessage {
        RevlogMessage {
            id: self.id,
            cid: self.cid,
            usn: self.usn,
            button_chosen: self.button_chosen,
            interval: self.interval,
            last_interval: self.last_interval,
            ease_factor: self.ease_factor,
            taken_millis: self.taken_millis,
            review_kind: self.review_kind,
            mtime_secs: self.mtime_secs,
            feedback: self.feedback@,
            tags: self.tags.deep_view(),
        }
    }
}

/// The message for a stored entry. The time of modification is cut to its
/// low 32 bits.
pub open spec fn message_of(row: RevlogRow) -> RevlogMessage {
    RevlogMessage {
        id: row.id.0,
        cid: row.cid.0,
        usn: row.usn.0,
        button_chosen: row.button_chosen as u32,
        interval: row.interval,
        last_interval: row.last_interval,
        ease_factor: row.ease_factor,
        taken_millis: row.taken_millis,
        review_kind: review_kind_code(row.review_kind) as i32,
        mtime_secs: row.mtime.0 as u32,
        feedback: row.feedback,
        tags: row.tags,
    }
}

/// The kind of review that the number of a message stands for: the kind
/// whose code is the low 8 bits of the number, if there is one.
pub open spec fn kind_of_message(review_kind: i32) -> Option<RevlogReviewKind> {
    let code = review_kind as u8;
    if code == 0 {
        Some(RevlogReviewKind::Learning)
    } else if code == 1 {
        Some(RevlogReviewKind::Review)
    } else if code == 2 {
        Some(RevlogReviewKind::Relearning)
    } else if code == 3 {
        Some(RevlogReviewKind::Filtered)
    } else if code == 4 {
        Some(RevlogReviewKind::Manual)
    } else if code == 5 {
        Some(RevlogReviewKind::Rescheduled)
    } else {
        None
    }
}

/// The entry that a message stands for, for a kind of review that the
/// message names. The button is cut to its low 8 bits.
pub open spec fn entry_of(message: RevlogMessage, kind: RevlogReviewKind) -> RevlogRow {
    RevlogRow {
        id: StoredRevlogId(message.id),
        cid: CardId(message.cid),
        usn: Usn(message.usn),
        button_chosen: message.button_chosen as u8,
        interval: message.interval,
        last_interval: message.last_interval,
        ease_factor: message.ease_factor,
        taken_millis: message.taken_millis,
        review_kind: kind,
        mtime: TimestampSecs(message.mtime_secs as i64),
        feedback: message.feedback,
        tags: message.tags,
    }
}

impl FromSpecImpl<StoredRevlogEntry> for RevlogEntry {
    open spec fn obeys_from_spec() -> bool {
        false
    }

    open spec fn from_spec(e: StoredRevlogEntry) -> RevlogEntry {
        arbitrary()
    }
}

impl From<StoredRevlogEntry> for RevlogEntry {
    fn from(e: StoredRevlogEntry) -> (message: RevlogEntry)
        ensures
            message@ == message_of(e@),
    {
        RevlogEntry {
            id: e.id.0,
            cid: e.cid.0,
            usn: e.usn.0,
            button_chosen: e.button_chosen as u32,
            interval: e.interval,
            last_interval: e.last_interval,
            ease_factor: e.ease_factor,
            taken_millis: e.taken_millis,
            review_kind: e.review_kind.code() as i32,
            mtime_secs: #[verifier::truncate]
            (e.mtime.0 as u32),
            feedback: e.feedback,
            tags: e.tags,
        }
    }
}

/// The entry that the message `e` stands for. A message that names no kind
/// of review is refused.
pub fn revlog_entry_from_message(e: RevlogEntry) -> (result: Result<StoredRevlogEntry, AnkiError>)
    ensures
        result is Ok <==> kind_of_message(e.review_kind) is Some,
        match result {
            Ok(entry) => entry@ == entry_of(e@, kind_of_message(e.review_kind)->0),
            Err(err) => err is InvalidInput,
        },
{
    let code: u8 = #[verifier::truncate]
    (e.review_kind as u8);
    let review_kind = match RevlogReviewKind::from_code(code) {
        Some(kind) => kind,
        None => {
            return Err(AnkiError::InvalidInput { info: String::from_str("invalid review kind") });
        },
    };
    Ok(
        StoredRevlogEntry {
            id: StoredRevlogId(e.id),
            cid: CardId(e.cid),
            usn: Usn(e.usn),
            button_chosen: #[verifier::truncate]
            (e.button_chosen as u8),
            interval: e.interval,
            last_interval: e.last_interval,
            ease_factor: e.ease_factor,
            taken_millis: e.taken_millis,
            review_kind,
            mtime: TimestampSecs(e.mtime_secs as i64),
            feedback: e.feedback,
            tags: e.tags,
        },
    )
}

} // verus!
