//! Drawing ids for chunks: which of the pending objects go into the next
//! chunk.

use vstd::prelude::*;

verus! {

/// How many objects one chunk holds at most, of all kinds together.
pub const CHUNK_SIZE: usize = 250;

/// The ids that are still to be sent: of review-log entries, of cards and of
/// notes. Ids are drawn from the end of each list.
#[derive(Debug)]
pub struct ChunkableIds {
    pub revlog: Vec<i64>,
    pub cards: Vec<i64>,
    pub notes: Vec<i64>,
}

/// The ids drawn for one chunk, each list in the order in which its ids were
/// drawn.
#[derive(Debug)]
pub struct DrawnIds {
    pub revlog: Vec<i64>,
    pub cards: Vec<i64>,
    pub notes: Vec<i64>,
    /// Whether the draw ended because nothing was left, not because the
    /// chunk was full.
    pub done: bool,
}

/// How many ids a draw takes from lists of `revlog`, `notes` and `cards`
/// ids when it may take `limit` in all: as (revlog, notes, cards). The draw
/// goes round the three lists in this order and takes one id from each list
/// that has one left, until `limit` ids are taken or a round finds nothing.
pub open spec fn draw_counts(revlog: nat, notes: nat, cards: nat, limit: nat) -> (nat, nat, nat)
    decreases limit,
{
    if limit == 0 || (revlog == 0 && notes == 0 && cards == 0) {
        (0, 0, 0)
    } else {
        let r: nat = if revlog > 0 { 1 } else { 0 };
        let n: nat = if notes > 0 && limit - r > 0 { 1 } else { 0 };
        let c: nat = if cards > 0 && limit - r - n > 0 { 1 } else { 0 };
        let rest = draw_counts(
            (revlog - r) as nat,
            (notes - n) as nat,
            (cards - c) as nat,
            (limit - r - n - c) as nat,
        );
        (r + rest.0, n + rest.1, c + rest.2)
    }
}

/// A draw takes from no list more than it holds, and in all as many ids as
/// it may, or all there are.
pub proof fn lemma_draw_counts(revlog: nat, notes: nat, cards: nat, limit: nat)
    ensures
        draw_counts(revlog, notes, cards, limit).0 <= revlog,
        draw_counts(revlog, notes, cards, limit).1 <= notes,
        draw_counts(revlog, notes, cards, limit).2 <= cards,
        draw_counts(revlog, notes, cards, limit).0 + draw_counts(revlog, notes, cards, limit).1
            + draw_counts(revlog, notes, cards, limit).2 == if revlog + notes + cards < limit {
            revlog + notes + cards
        } else {
            limit
        },
    decreases limit,
{
    if limit == 0 || (revlog == 0 && notes == 0 && cards == 0) {
    } else {
        let r: nat = if revlog > 0 { 1 } else { 0 };
        let n: nat = if notes > 0 && limit - r > 0 { 1 } else { 0 };
        let c: nat = if cards > 0 && limit - r - n > 0 { 1 } else { 0 };
        lemma_draw_counts(
            (revlog - r) as nat,
            (notes - n) as nat,
            (cards - c) as nat,
            (limit - r - n - c) as nat,
        );
    }
}

/// The last `count` ids of `ids`, last first: what drawing `count` ids from
/// the end of `ids` gives.
pub open spec fn drawn_from(ids: Seq<i64>, count: nat) -> Seq<i64> {
    ids.subrange(ids.len() - count, ids.len() as int).reverse()
}

/// What is left of `ids` when `count` ids are drawn from its end.
pub open spec fn left_of(ids: Seq<i64>, count: nat) -> Seq<i64> {
    ids.take(ids.len() - count)
}

impl ChunkableIds {
    /// The counts of the next draw.
    pub open spec fn next_counts(&self) -> (nat, nat, nat) {
        draw_counts(self.revlog@.len(), self.notes@.len(), self.cards@.len(), CHUNK_SIZE as nat)
    }

    /// The review-log ids that the next draw takes.
    pub open spec fn next_revlog(&self) -> Seq<i64> {
        drawn_from(self.revlog@, self.next_counts().0)
    }

    /// The note ids that the next draw takes.
    pub open spec fn next_notes(&self) -> Seq<i64> {
        drawn_from(self.notes@, self.next_counts().1)
    }

    /// The card ids that the next draw takes.
    pub open spec fn next_cards(&self) -> Seq<i64> {
        drawn_from(self.cards@, self.next_counts().2)
    }

    /// Whether the next draw ends because nothing is left, not because the
    /// chunk is full.
    pub open spec fn next_done(&self) -> bool {
        self.revlog@.len() + self.notes@.len() + self.cards@.len() < CHUNK_SIZE
    }

    /// Whether `after` holds what the next draw leaves of these ids.
    pub open spec fn drawn_to(&self, after: &ChunkableIds) -> bool {
        &&& after.revlog@ == left_of(self.revlog@, self.next_counts().0)
        &&& after.notes@ == left_of(self.notes@, self.next_counts().1)
        &&& after.cards@ == left_of(self.cards@, self.next_counts().2)
    }

    /// Draws the ids of the next chunk: at most `CHUNK_SIZE` in all, taken
    /// from the ends of the three lists in turn.
    pub fn draw(&mut self) -> (drawn: DrawnIds)
        ensures
            drawn.revlog@ == old(self).next_revlog(),
            drawn.notes@ == old(self).next_notes(),
            drawn.cards@ == old(self).next_cards(),
            drawn.done == old(self).next_done(),
            old(self).drawn_to(final(self)),
    {
        let mut limit: usize = CHUNK_SIZE;
        let mut revlog_ids: Vec<i64> = Vec::new();
        let mut card_ids: Vec<i64> = Vec::new();
        let mut note_ids: Vec<i64> = Vec::new();
        let mut found: bool = true;
        let ghost r0 = self.revlog@;
        let ghost n0 = self.notes@;
        let ghost c0 = self.cards@;
        proof {
            assert(revlog_ids@ =~= drawn_from(r0, 0));
            assert(note_ids@ =~= drawn_from(n0, 0));
            assert(card_ids@ =~= drawn_from(c0, 0));
            assert(self.revlog@ =~= left_of(r0, 0));
            assert(self.notes@ =~= left_of(n0, 0));
            assert(self.cards@ =~= left_of(c0, 0));
        }
        while limit > 0 && found
            invariant
                limit <= CHUNK_SIZE,
                revlog_ids@.len() <= r0.len(),
                note_ids@.len() <= n0.len(),
                card_ids@.len() <= c0.len(),
                revlog_ids@ == drawn_from(r0, revlog_ids@.len()),
                note_ids@ == drawn_from(n0, note_ids@.len()),
                card_ids@ == drawn_from(c0, card_ids@.len()),
                self.revlog@ == left_of(r0, revlog_ids@.len()),
                self.notes@ == left_of(n0, note_ids@.len()),
                self.cards@ == left_of(c0, card_ids@.len()),
                revlog_ids@.len() + note_ids@.len() + card_ids@.len() + limit == CHUNK_SIZE,
                !found ==> self.revlog@.len() == 0 && self.notes@.len() == 0 && self.cards@.len()
                    == 0,
                draw_counts(r0.len(), n0.len(), c0.len(), CHUNK_SIZE as nat) == (
                    revlog_ids@.len() + draw_counts(
                        self.revlog@.len(),
                        self.notes@.len(),
                        self.cards@.len(),
                        limit as nat,
                    ).0,
                    note_ids@.len() + draw_counts(
                        self.revlog@.len(),
                        self.notes@.len(),
                        self.cards@.len(),
                        limit as nat,
                    ).1,
                    card_ids@.len() + draw_counts(
                        self.revlog@.len(),
                        self.notes@.len(),
                        self.cards@.len(),
                        limit as nat,
                    ).2,
                ),
            decreases limit, if found { 1int } else { 0int },
        {
            let last_limit = limit;
            let ghost rk = revlog_ids@.len();
            let ghost nk = note_ids@.len();
            let ghost ck = card_ids@.len();
            if let Some(id) = self.revlog.pop() {
                revlog_ids.push(id);
                limit -= 1;
                assert(revlog_ids@ =~= drawn_from(r0, rk + 1));
                assert(self.revlog@ =~= left_of(r0, rk + 1));
            }
            if limit > 0 {
                if let Some(id) = self.notes.pop() {
                    note_ids.push(id);
                    limit -= 1;
                    assert(note_ids@ =~= drawn_from(n0, nk + 1));
                    assert(self.notes@ =~= left_of(n0, nk + 1));
                }
            }
            if limit > 0 {
                if let Some(id) = self.cards.pop() {
                    card_ids.push(id);
                    limit -= 1;
                    assert(card_ids@ =~= drawn_from(c0, ck + 1));
                    assert(self.cards@ =~= left_of(c0, ck + 1));
                }
            }
            if limit == last_limit {
                found = false;
            }
        }
        proof {
            lemma_draw_counts(r0.len(), n0.len(), c0.len(), CHUNK_SIZE as nat);
        }
        DrawnIds { revlog: revlog_ids, cards: card_ids, notes: note_ids, done: limit > 0 }
    }
}

/// The ids of one list that all draws together take, from the first draw to
/// the one that reports the end: as (revlog, notes, cards), each in the order
/// in which its ids are drawn.
pub open spec fn drawn_in_all(revlog: Seq<i64>, notes: Seq<i64>, cards: Seq<i64>) -> (
    Seq<i64>,
    Seq<i64>,
    Seq<i64>,
)
    decreases revlog.len() + notes.len() + cards.len(),
{
    let counts = draw_counts(revlog.len(), notes.len(), cards.len(), CHUNK_SIZE as nat);
    let first = (
        drawn_from(revlog, counts.0),
        drawn_from(notes, counts.1),
        drawn_from(cards, counts.2),
    );
    if revlog.len() + notes.len() + cards.len() < CHUNK_SIZE {
        first
    } else {
        proof {
            lemma_draw_counts(revlog.len(), notes.len(), cards.len(), CHUNK_SIZE as nat);
        }
        let rest = drawn_in_all(
            left_of(revlog, counts.0),
            left_of(notes, counts.1),
            left_of(cards, counts.2),
        );
        (first.0 + rest.0, first.1 + rest.1, first.2 + rest.2)
    }
}

/// Drawing chunk after chunk until the end is reported neither loses an id
/// nor takes one twice: the ids drawn from each list are the ids of the list,
/// last first.
pub proof fn lemma_draws_take_each_id_once(revlog: Seq<i64>, notes: Seq<i64>, cards: Seq<i64>)
    ensures
        drawn_in_all(revlog, notes, cards) == (revlog.reverse(), notes.reverse(), cards.reverse()),
    decreases revlog.len() + notes.len() + cards.len(),
{
    let counts = draw_counts(revlog.len(), notes.len(), cards.len(), CHUNK_SIZE as nat);
    lemma_draw_counts(revlog.len(), notes.len(), cards.len(), CHUNK_SIZE as nat);
    if revlog.len() + notes.len() + cards.len() < CHUNK_SIZE {
        assert(drawn_from(revlog, counts.0) =~= revlog.reverse());
        assert(drawn_from(notes, counts.1) =~= notes.reverse());
        assert(drawn_from(cards, counts.2) =~= cards.reverse());
    } else {
        lemma_draws_take_each_id_once(
            left_of(revlog, counts.0),
            left_of(notes, counts.1),
            left_of(cards, counts.2),
        );
        assert(drawn_from(revlog, counts.0) + left_of(revlog, counts.0).reverse()
            =~= revlog.reverse());
        assert(drawn_from(notes, counts.1) + left_of(notes, counts.1).reverse()
            =~= notes.reverse());
        assert(drawn_from(cards, counts.2) + left_of(cards, counts.2).reverse()
            =~= cards.reverse());
    }
}

} // verus!
