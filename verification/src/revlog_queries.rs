//! Reading review-log entries by what they hold.

use crate::card::CardRow;
use crate::revlog::RevlogEntry;
use crate::revlog::RevlogRow;
use crate::storage::assign_usn;
use crate::storage::pending_ids;
use crate::storage::pending_row;
use crate::storage::rows_with_usn;
use crate::storage::SqliteStorage;
use crate::types::CardId;
use crate::types::NoteId;
use crate::types::RevlogId;
use crate::types::TimestampSecs;
use crate::types::Usn;
use crate::types::PENDING_USN;
use vstd::prelude::*;

verus! {

/// A test of review-log entries.
pub trait RevlogTest {
    /// Whether the entry `row` passes the test.
    spec fn keeps(&self, row: RevlogRow) -> bool;

    /// Whether `entry` passes the test.
    fn test(&self, entry: &RevlogEntry) -> (kept: bool)
        ensures
            kept == self.keeps(entry@),
    ;
}

/// The test for the entries of one card.
pub struct OfCard {
    pub cid: CardId,
}

impl RevlogTest for OfCard {
    open spec fn keeps(&self, row: RevlogRow) -> bool {
        row.cid == self.cid
    }

    fn test(&self, entry: &RevlogEntry) -> (kept: bool) {
        entry.cid.0 == self.cid.0
    }
}

/// The test for the entries of the reviews from a time on. The id of an
/// entry is the time of its review in milliseconds.
pub struct Since {
    pub after: TimestampSecs,
}

impl RevlogTest for Since {
    open spec fn keeps(&self, row: RevlogRow) -> bool {
        row.id.0 >= self.after.0 * 1000
    }

    fn test(&self, entry: &RevlogEntry) -> (kept: bool) {
        let id: i128 = entry.id.0 as i128;
        let after: i128 = self.after.0 as i128;
        id >= after * 1000
    }
}

/// The test for the entries that carry a tag.
pub struct Tagged;

impl RevlogTest for Tagged {
    open spec fn keeps(&self, row: RevlogRow) -> bool {
        row.tags.len() > 0
    }

    fn test(&self, entry: &RevlogEntry) -> (kept: bool) {
        assert(entry@.tags.len() == entry.tags@.len());
        entry.tags.len() > 0
    }
}

/// The test for the entries of some cards.
pub struct OfCards {
    pub card_ids: Vec<i64>,
}

impl RevlogTest for OfCards {
    open spec fn keeps(&self, row: RevlogRow) -> bool {
        self.card_ids@.contains(row.cid.0)
    }

    fn test(&self, entry: &RevlogEntry) -> (kept: bool) {
        let mut i: usize = 0;
        while i < self.card_ids.len()
            invariant
                i <= self.card_ids.len(),
                forall|j: int| 0 <= j < i ==> self.card_ids@[j] != entry.cid.0,
            decreases self.card_ids.len() - i,
        {
            if self.card_ids[i] == entry.cid.0 {
                return true;
            }
            i += 1;
        }
        false
    }
}

/// The test for the entries of some cards, of the reviews from a time on.
pub struct OfCardsSince {
    pub cards: OfCards,
    pub since: Since,
}

impl RevlogTest for OfCardsSince {
    open spec fn keeps(&self, row: RevlogRow) -> bool {
        self.cards.keeps(row) && self.since.keeps(row)
    }

    fn test(&self, entry: &RevlogEntry) -> (kept: bool) {
        self.cards.test(entry) && self.since.test(entry)
    }
}

/// The ids of `cards`.
pub open spec fn ids_of(cards: Seq<CardId>) -> Seq<i64> {
    cards.map_values(|card: CardId| card.0)
}

/// The ids of `cards`.
fn ids_of_cards(cards: &Vec<CardId>) -> (ids: Vec<i64>)
    ensures
        ids@ == ids_of(cards@),
{
    let mut ids: Vec<i64> = Vec::new();
    let mut i: usize = 0;
    while i < cards.len()
        invariant
            i <= cards.len(),
            ids@ == ids_of(cards@.take(i as int)),
        decreases cards.len() - i,
    {
        ids.push(cards[i].0);
        assert(ids_of(cards@.take(i + 1)) =~= ids_of(cards@.take(i as int)).push(cards@[i as int].0));
        i += 1;
    }
    assert(cards@.take(i as int) =~= cards@);
    ids
}

/// The test of a card for belonging to the note `nid`.
pub open spec fn card_of_note(nid: NoteId) -> spec_fn(CardRow) -> bool {
    |row: CardRow| row.note_id == nid
}

/// The test that `test` makes of the rows of the review log.
pub open spec fn passing<T: RevlogTest>(test: T) -> spec_fn(RevlogRow) -> bool {
    |row: RevlogRow| test.keeps(row)
}

impl SqliteStorage {
    /// The ids of the entries that pass `test`, in the order of the table.
    pub open spec fn revlog_ids_where<T: RevlogTest>(&self, test: T) -> Seq<i64> {
        self.revlog.ids_where(passing(test))
    }

    /// Whether `entries` are the entries that pass `test`, in the order of
    /// the table.
    pub open spec fn are_entries_where<T: RevlogTest>(
        &self,
        entries: Seq<RevlogEntry>,
        test: T,
    ) -> bool {
        &&& entries.len() == self.revlog_ids_where(test).len()
        &&& forall|j: int|
            0 <= j < entries.len() ==> (#[trigger] entries[j])@
                == self.revlog@[self.revlog_ids_where(test)[j]]
    }

    /// The entries that pass `test`, in the order of the table.
    pub fn get_revlog_entries_where<T: RevlogTest>(&self, test: &T) -> (entries: Vec<RevlogEntry>)
        requires
            self.wf(),
        ensures
            self.are_entries_where(entries@, *test),
    {
        let ghost keeps = passing(*test);
        let mut entries: Vec<RevlogEntry> = Vec::new();
        let n = self.revlog.len();
        let mut i: usize = 0;
        proof {
            self.revlog.lemma_no_ids_where(keeps);
        }
        while i < n
            invariant
                self.wf(),
                n == self.revlog.ids().len(),
                i <= n,
                keeps == passing(*test),
                entries.len() == self.revlog.first_ids_where(keeps, i as int).len(),
                forall|j: int|
                    0 <= j < entries.len() ==> (#[trigger] entries[j])@
                        == self.revlog@[self.revlog.first_ids_where(keeps, i as int)[j]],
            decreases n - i,
        {
            proof {
                self.revlog.lemma_first_ids_where(keeps, i as int);
            }
            let row = self.revlog.row_at(i);
            if test.test(row) {
                entries.push(row.duplicate());
            }
            i += 1;
        }
        entries
    }

    /// The entries of the card `cid`, in the order of the table.
    pub fn get_revlog_entries_for_card(&self, cid: CardId) -> (entries: Vec<RevlogEntry>)
        requires
            self.wf(),
        ensures
            self.are_entries_where(entries@, OfCard { cid }),
    {
        self.get_revlog_entries_where(&OfCard { cid })
    }

    /// The entries that carry a tag, in the order of the table.
    pub fn get_revlog_entries_with_tags(&self) -> (entries: Vec<RevlogEntry>)
        requires
            self.wf(),
        ensures
            self.are_entries_where(entries@, Tagged),
    {
        self.get_revlog_entries_where(&Tagged)
    }

    /// The entries of the reviews from `after` on, in the order of the
    /// table.
    pub fn get_all_revlog_entries(&self, after: TimestampSecs) -> (entries: Vec<RevlogEntry>)
        requires
            self.wf(),
        ensures
            self.are_entries_where(entries@, Since { after }),
    {
        self.get_revlog_entries_where(&Since { after })
    }

    /// The entries of the cards of the note `nid`, in the order of the
    /// table.
    pub fn get_revlog_entries_for_note(&self, nid: NoteId) -> (entries: Vec<RevlogEntry>)
        requires
            self.wf(),
        ensures
            exists|test: OfCards|
                test.card_ids@ == self.cards.ids_where(card_of_note(nid))
                    && #[trigger] self.are_entries_where(entries@, test),
    {
        let ghost keeps = card_of_note(nid);
        let mut card_ids: Vec<i64> = Vec::new();
        let n = self.cards.len();
        let mut i: usize = 0;
        proof {
            self.cards.lemma_no_ids_where(keeps);
        }
        while i < n
            invariant
                self.wf(),
                n == self.cards.ids().len(),
                i <= n,
                keeps == card_of_note(nid),
                card_ids@ == self.cards.first_ids_where(keeps, i as int),
            decreases n - i,
        {
            proof {
                self.cards.lemma_first_ids_where(keeps, i as int);
            }
            if self.cards.row_at(i).note_id.0 == nid.0 {
                card_ids.push(self.cards.id_at(i));
            }
            i += 1;
        }
        let test = OfCards { card_ids };
        self.get_revlog_entries_where(&test)
    }

    /// The entries of the cards `searched_cards`, in the order of the
    /// table.
    pub fn get_revlog_entries_for_searched_cards(&self, searched_cards: &Vec<CardId>) -> (entries:
        Vec<RevlogEntry>)
        requires
            self.wf(),
        ensures
            exists|test: OfCards|
                test.card_ids@ == ids_of(searched_cards@) && #[trigger] self.are_entries_where(
                    entries@,
                    test,
                ),
    {
        let test = OfCards { card_ids: ids_of_cards(searched_cards) };
        self.get_revlog_entries_where(&test)
    }

    /// The entries of the cards `searched_cards` for the reviews from
    /// `after` on, in the order of the table.
    pub fn get_revlog_entries_for_searched_cards_after_stamp(
        &self,
        searched_cards: &Vec<CardId>,
        after: TimestampSecs,
    ) -> (entries: Vec<RevlogEntry>)
        requires
            self.wf(),
        ensures
            exists|test: OfCardsSince|
                test.cards.card_ids@ == ids_of(searched_cards@) && test.since.after == after
                    && #[trigger] self.are_entries_where(entries@, test),
    {
        let test = OfCardsSince {
            cards: OfCards { card_ids: ids_of_cards(searched_cards) },
            since: Since { after },
        };
        self.get_revlog_entries_where(&test)
    }

    /// Stores under the sequence number 0 every entry that is marked as
    /// pending.
    pub fn clear_pending_revlog_usns(&mut self)
        requires
            old(self).wf(),
        ensures
            final(self).wf(),
            final(self).same_but_revlog(old(self)),
            final(self).revlog.ids() == old(self).revlog.ids(),
            final(self).revlog@ == rows_with_usn::<RevlogEntry>(
                old(self).revlog@,
                old(self).revlog.ids_where(pending_row::<RevlogEntry>(Usn(PENDING_USN))),
                Usn(0),
            ),
    {
        let ids = pending_ids(&self.revlog, Usn(PENDING_USN));
        assign_usn(&mut self.revlog, &ids, Usn(0));
        proof {
            assert forall|id: i64| #[trigger]
                self.revlog@.contains_key(id) implies self.revlog@[id].id == RevlogId(
                id,
            ) by {
                assert(old(self).revlog@.contains_key(id));
            }
        }
    }
}

} // verus!
