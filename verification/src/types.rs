//! Identifiers, timestamps and update sequence numbers.

use vstd::prelude::*;

verus! {

/// An update sequence number. `-1` marks an object that was modified locally
/// and has not been sent to the other replica yet.
#[derive(Clone, Copy, Debug, PartialEq, Eq, Structural)]
pub struct Usn(pub i32);

/// Identifier of a review-log entry; derived from the time of the review.
#[derive(Clone, Copy, Debug, PartialEq, Eq, Structural)]
pub struct RevlogId(pub i64);

/// Identifier of a card.
#[derive(Clone, Copy, Debug, PartialEq, Eq, Structural)]
pub struct CardId(pub i64);

/// Identifier of a note.
#[derive(Clone, Copy, Debug, PartialEq, Eq, Structural)]
pub struct NoteId(pub i64);

/// Identifier of a deck.
#[derive(Clone, Copy, Debug, PartialEq, Eq, Structural)]
pub struct DeckId(pub i64);

/// Identifier of a notetype.
#[derive(Clone, Copy, Debug, PartialEq, Eq, Structural)]
pub struct NotetypeId(pub i64);

/// Seconds since the epoch.
#[derive(Clone, Copy, Debug, PartialEq, Eq, Structural)]
pub struct TimestampSecs(pub i64);

/// The sequence number that marks a locally modified object.
pub const PENDING_USN: i32 = -1;

/// Whether an object with update sequence number `usn` still has to be sent,
/// judged against `pending_usn`.
pub open spec fn spec_is_pending_sync(usn: int, pending_usn: int) -> bool {
    if pending_usn == -1 {
        usn == -1
    } else {
        usn >= pending_usn
    }
}

impl Usn {
    /// Whether an object carrying this number is pending relative to
    /// `pending_usn`: against the sentinel `-1` only the sentinel itself is
    /// pending, against any other reference everything at or above it is.
    pub fn is_pending_sync(self, pending_usn: Usn) -> (pending: bool)
        ensures
            pending == spec_is_pending_sync(self.0 as int, pending_usn.0 as int),
    {
        if pending_usn.0 == PENDING_USN {
            self.0 == PENDING_USN
        } else {
            self.0 >= pending_usn.0
        }
    }
}

} // verus!
