//! Cards as the collection stores them.

use crate::types::CardId;
use crate::types::DeckId;
use crate::types::NoteId;
use crate::types::TimestampSecs;
use crate::types::Usn;
use vstd::prelude::*;

verus! {

/// The learning stage of a card.
#[derive(Clone, Copy, Debug, PartialEq, Eq, Structural)]
pub enum CardType {
    New,
    Learn,
    Review,
    Relearn,
}

/// The queue that a card waits in.
#[derive(Clone, Copy, Debug, PartialEq, Eq, Structural)]
pub enum CardQueue {
    New,
    Learn,
    Review,
    DayLearn,
    PreviewRepeat,
    Suspended,
    SchedBuried,
    UserBuried,
}

/// The number that stands for a learning stage in stored and transferred
/// cards.
pub open spec fn card_type_code(ctype: CardType) -> int {
    match ctype {
        CardType::New => 0,
        CardType::Learn => 1,
        CardType::Review => 2,
        CardType::Relearn => 3,
    }
}

/// The number that stands for a queue in stored and transferred cards.
pub open spec fn card_queue_code(queue: CardQueue) -> int {
    match queue {
        CardQueue::New => 0,
        CardQueue::Learn => 1,
        CardQueue::Review => 2,
        CardQueue::DayLearn => 3,
        CardQueue::PreviewRepeat => 4,
        CardQueue::Suspended => -1,
        CardQueue::SchedBuried => -2,
        CardQueue::UserBuried => -3,
    }
}

impl CardType {
    /// The number that stands for this stage.
    pub fn code(self) -> (code: u8)
        ensures
            code as int == card_type_code(self),
    {
        match self {
            CardType::New => 0,
            CardType::Learn => 1,
            CardType::Review => 2,
            CardType::Relearn => 3,
        }
    }

    /// The stage that `code` stands for, if it stands for one.
    pub fn from_code(code: u8) -> (ctype: Option<CardType>)
        ensures
            code <= 3 <==> ctype is Some,
            ctype matches Some(t) ==> card_type_code(t) == code as int,
    {
        match code {
            0 => Some(CardType::New),
            1 => Some(CardType::Learn),
            2 => Some(CardType::Review),
            3 => Some(CardType::Relearn),
            _ => None,
        }
    }
}

impl CardQueue {
    /// The number that stands for this queue.
    pub fn code(self) -> (code: i8)
        ensures
            code as int == card_queue_code(self),
    {
        match self {
            CardQueue::New => 0,
            CardQueue::Learn => 1,
            CardQueue::Review => 2,
            CardQueue::DayLearn => 3,
            CardQueue::PreviewRepeat => 4,
            CardQueue::Suspended => -1,
            CardQueue::SchedBuried => -2,
            CardQueue::UserBuried => -3,
        }
    }

    /// The queue that `code` stands for, if it stands for one.
    pub fn from_code(code: i8) -> (queue: Option<CardQueue>)
        ensures
            -3 <= code <= 4 <==> queue is Some,
            queue matches Some(q) ==> card_queue_code(q) == code as int,
    {
        match code {
            0 => Some(CardQueue::New),
            1 => Some(CardQueue::Learn),
            2 => Some(CardQueue::Review),
            3 => Some(CardQueue::DayLearn),
            4 => Some(CardQueue::PreviewRepeat),
            -1 => Some(CardQueue::Suspended),
            -2 => Some(CardQueue::SchedBuried),
            -3 => Some(CardQueue::UserBuried),
            _ => None,
        }
    }
}

/// A card.
#[derive(Clone, Debug, PartialEq, Eq)]
pub struct Card {
    pub id: CardId,
    pub note_id: NoteId,
    pub deck_id: DeckId,
    pub template_idx: u16,
    pub mtime: TimestampSecs,
    pub usn: Usn,
    pub ctype: CardType,
    pub queue: CardQueue,
    pub due: i32,
    pub interval: u32,
    pub ease_factor: u16,
    pub reps: u32,
    pub lapses: u32,
    pub remaining_steps: u32,
    pub original_due: i32,
    pub original_deck_id: DeckId,
    pub flags: u8,
    /// Further data, kept as it came.
    pub data: String,
}

/// What a card holds, with its text as a character sequence.
#[verifier::ext_equal]
pub struct CardRow {
    pub id: CardId,
    pub note_id: NoteId,
    pub deck_id: DeckId,
    pub template_idx: u16,
    pub mtime: TimestampSecs,
    pub usn: Usn,
    pub ctype: CardType,
    pub queue: CardQueue,
    pub due: i32,
    pub interval: u32,
    pub ease_factor: u16,
    pub reps: u32,
    pub lapses: u32,
    pub remaining_steps: u32,
    pub original_due: i32,
    pub original_deck_id: DeckId,
    pub flags: u8,
    pub data: Seq<char>,
}

impl View for Card {
    type V = CardRow;

    open spec fn view(&self) -> CardRow {
        CardRow {
            id: self.id,
            note_id: self.note_id,
            deck_id: self.deck_id,
            template_idx: self.template_idx,
            mtime: self.mtime,
            usn: self.usn,
            ctype: self.ctype,
            queue: self.queue,
            due: self.due,
            interval: self.interval,
            ease_factor: self.ease_factor,
            reps: self.reps,
            lapses: self.lapses,
            remaining_steps: self.remaining_steps,
            original_due: self.original_due,
            original_deck_id: self.original_deck_id,
            flags: self.flags,
            data: self.data@,
        }
    }
}

impl Card {
    /// A copy that holds the same values.
    pub fn duplicate(&self) -> (copy: Card)
        ensures
            copy@ == self@,
    {
        Card {
            id: self.id,
            note_id: self.note_id,
            deck_id: self.deck_id,
            template_idx: self.template_idx,
            mtime: self.mtime,
            usn: self.usn,
            ctype: self.ctype,
            queue: self.queue,
            due: self.due,
            interval: self.interval,
            ease_factor: self.ease_factor,
            reps: self.reps,
            lapses: self.lapses,
            remaining_steps: self.remaining_steps,
            original_due: self.original_due,
            original_deck_id: self.original_deck_id,
            flags: self.flags,
            data: self.data.clone(),
        }
    }
}

} // verus!
