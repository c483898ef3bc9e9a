//! A table of rows, each stored under an integer id of its own and kept in
//! the order in which the ids were first stored.

use vstd::prelude::*;

verus! {

/// In a sequence without duplicates, an element is found where it stands.
pub proof fn lemma_index_of<A>(s: Seq<A>, i: int)
    requires
        s.no_duplicates(),
        0 <= i < s.len(),
    ensures
        s.index_of(s[i]) == i,
{
    let j = s.index_of(s[i]);
    assert(0 <= j < s.len() && s[j] == s[i]);
}

/// Rows stored by id.
pub struct Table<T> {
    keys: Vec<i64>,
    rows: Vec<T>,
}

impl<T: View> View for Table<T> {
    type V = Map<i64, T::V>;

    /// The rows by id.
    closed spec fn view(&self) -> Map<i64, T::V> {
        Map::new(
            |id: i64| self.keys@.contains(id),
            |id: i64| self.rows@[self.keys@.index_of(id)]@,
        )
    }
}

impl<T: View> Table<T> {
    /// The ids, in the order in which they were first stored.
    pub closed spec fn ids(&self) -> Seq<i64> {
        self.keys@
    }

    /// One row stands for each id.
    pub closed spec fn aligned(&self) -> bool {
        self.keys.len() == self.rows.len()
    }

    /// The table is well formed: no id occurs twice, and the ids are those
    /// under which a row is stored.
    pub open spec fn wf(&self) -> bool {
        &&& self.aligned()
        &&& self.ids().no_duplicates()
        &&& forall|id: i64| self@.contains_key(id) <==> self.ids().contains(id)
    }

    /// Of the first `n` ids, those whose row `keeps` accepts, in order.
    pub open spec fn first_ids_where(&self, keeps: spec_fn(T::V) -> bool, n: int) -> Seq<i64> {
        self.ids().take(n).filter(|id: i64| keeps(self@[id]))
    }

    /// The ids whose row `keeps` accepts, in order.
    pub open spec fn ids_where(&self, keeps: spec_fn(T::V) -> bool) -> Seq<i64> {
        self.first_ids_where(keeps, self.ids().len() as int)
    }

    /// What one more id adds to the ids that `keeps` accepts.
    pub proof fn lemma_first_ids_where(&self, keeps: spec_fn(T::V) -> bool, n: int)
        requires
            0 <= n < self.ids().len(),
        ensures
            self.first_ids_where(keeps, n + 1) == if keeps(self@[self.ids()[n]]) {
                self.first_ids_where(keeps, n).push(self.ids()[n])
            } else {
                self.first_ids_where(keeps, n)
            },
            self.first_ids_where(keeps, 0) == Seq::<i64>::empty(),
    {
        let pred = |id: i64| keeps(self@[id]);
        assert(self.ids().take(n + 1) =~= self.ids().take(n).push(self.ids()[n]));
        self.ids().take(n).lemma_filter_push(self.ids()[n], pred);
        self.lemma_no_ids_where(keeps);
    }

    /// Among no ids, `keeps` accepts none.
    pub proof fn lemma_no_ids_where(&self, keeps: spec_fn(T::V) -> bool)
        ensures
            self.first_ids_where(keeps, 0) == Seq::<i64>::empty(),
    {
        let pred = |id: i64| keeps(self@[id]);
        reveal(Seq::filter);
        assert(self.ids().take(0).filter(pred) =~= Seq::<i64>::empty());
    }

    /// The ids that `keeps` accepts are ids of the table, each occurs once
    /// among them, and they are those whose row `keeps` accepts.
    pub proof fn lemma_ids_where(&self, keeps: spec_fn(T::V) -> bool)
        requires
            self.wf(),
        ensures
            self.ids_where(keeps).no_duplicates(),
            forall|id: i64|
                self.ids_where(keeps).contains(id) <==> (self@.contains_key(id) && keeps(
                    self@[id],
                )),
    {
        self.lemma_first_ids_where_upto(keeps, self.ids().len() as int);
        assert(self.ids().take(self.ids().len() as int) =~= self.ids());
    }

    proof fn lemma_first_ids_where_upto(&self, keeps: spec_fn(T::V) -> bool, n: int)
        requires
            self.wf(),
            0 <= n <= self.ids().len(),
        ensures
            self.first_ids_where(keeps, n).no_duplicates(),
            forall|id: i64|
                self.first_ids_where(keeps, n).contains(id) <==> (self.ids().take(n).contains(id)
                    && keeps(self@[id])),
        decreases n,
    {
        if n == 0 {
            self.lemma_no_ids_where(keeps);
        } else {
            self.lemma_first_ids_where_upto(keeps, n - 1);
            self.lemma_first_ids_where(keeps, n - 1);
            let before = self.first_ids_where(keeps, n - 1);
            let last = self.ids()[n - 1];
            assert(self.ids().take(n) =~= self.ids().take(n - 1).push(last));
            assert(!self.ids().take(n - 1).contains(last)) by {
                if self.ids().take(n - 1).contains(last) {
                    let j = self.ids().take(n - 1).index_of(last);
                    assert(self.ids()[j] == last);
                }
            }
            assert(!before.contains(last));
            assert(self.first_ids_where(keeps, n).no_duplicates()) by {
                if keeps(self@[last]) {
                    let after = before.push(last);
                    assert forall|a: int, b: int|
                        0 <= a < after.len() && 0 <= b < after.len() && a != b implies after[a]
                        != after[b] by {
                        if a < before.len() {
                            assert(before.contains(after[a]));
                        }
                        if b < before.len() {
                            assert(before.contains(after[b]));
                        }
                    }
                }
            }
            assert forall|id: i64|
                self.first_ids_where(keeps, n).contains(id) <==> (self.ids().take(n).contains(id)
                    && keeps(self@[id])) by {
                if self.ids().take(n).contains(id) {
                    let j = self.ids().take(n).index_of(id);
                    if j < n - 1 {
                        assert(self.ids().take(n - 1)[j] == id);
                    }
                }
                if self.ids().take(n - 1).contains(id) {
                    let j = self.ids().take(n - 1).index_of(id);
                    assert(self.ids().take(n)[j] == id);
                }
                if before.contains(id) {
                    let j = before.index_of(id);
                    assert(before.push(last)[j] == id);
                }
                if keeps(self@[last]) {
                    assert(before.push(last)[before.len() as int] == last);
                    assert(self.ids().take(n)[n - 1] == last);
                    if before.push(last).contains(id) {
                        let j = before.push(last).index_of(id);
                        if j < before.len() {
                            assert(before[j] == id);
                        }
                    }
                }
            }
        }
    }

    /// Tests that accept the same rows accept the same ids.
    pub proof fn lemma_ids_where_same(
        &self,
        keeps: spec_fn(T::V) -> bool,
        other: spec_fn(T::V) -> bool,
    )
        requires
            forall|row: T::V| #[trigger] keeps(row) == other(row),
        ensures
            self.ids_where(keeps) == self.ids_where(other),
    {
        self.lemma_first_ids_where_same(keeps, other, self.ids().len() as int);
    }

    proof fn lemma_first_ids_where_same(
        &self,
        keeps: spec_fn(T::V) -> bool,
        other: spec_fn(T::V) -> bool,
        n: int,
    )
        requires
            forall|row: T::V| #[trigger] keeps(row) == other(row),
            0 <= n <= self.ids().len(),
        ensures
            self.first_ids_where(keeps, n) == self.first_ids_where(other, n),
        decreases n,
    {
        if n == 0 {
            self.lemma_no_ids_where(keeps);
            self.lemma_no_ids_where(other);
        } else {
            self.lemma_first_ids_where_same(keeps, other, n - 1);
            self.lemma_first_ids_where(keeps, n - 1);
            self.lemma_first_ids_where(other, n - 1);
        }
    }

    /// An empty table.
    pub fn new() -> (table: Table<T>)
        ensures
            table.wf(),
            table.ids() == Seq::<i64>::empty(),
            table@ == Map::<i64, T::V>::empty(),
    {
        let table = Table { keys: Vec::new(), rows: Vec::new() };
        assert(table@ =~= Map::<i64, T::V>::empty());
        table
    }

    /// Whether the table is well formed. A table that was made by `new`
    /// and changed by `put` and `remove` alone always is.
    pub fn is_consistent(&self) -> (ok: bool)
        ensures
            ok == self.wf(),
    {
        if self.keys.len() != self.rows.len() {
            return false;
        }
        let mut i: usize = 0;
        while i < self.keys.len()
            invariant
                i <= self.keys.len(),
                forall|a: int, b: int| 0 <= a < b < i ==> self.keys@[a] != self.keys@[b],
            decreases self.keys.len() - i,
        {
            let mut j: usize = 0;
            while j < i
                invariant
                    j <= i < self.keys.len(),
                    forall|a: int| 0 <= a < j ==> self.keys@[a] != self.keys@[i as int],
                decreases i - j,
            {
                if self.keys[j] == self.keys[i] {
                    return false;
                }
                j += 1;
            }
            i += 1;
        }
        true
    }

    /// The number of rows.
    pub fn len(&self) -> (n: usize)
        requires
            self.wf(),
        ensures
            n == self.ids().len(),
    {
        self.keys.len()
    }

    /// The id at position `i`.
    pub fn id_at(&self, i: usize) -> (id: i64)
        requires
            self.wf(),
            i < self.ids().len(),
        ensures
            id == self.ids()[i as int],
    {
        self.keys[i]
    }

    /// The row at position `i`.
    pub fn row_at(&self, i: usize) -> (row: &T)
        requires
            self.wf(),
            i < self.ids().len(),
        ensures
            row@ == self@[self.ids()[i as int]],
    {
        proof {
            lemma_index_of(self.keys@, i as int);
        }
        &self.rows[i]
    }

    /// The position of `id`, if a row is stored under it.
    pub fn position(&self, id: i64) -> (found: Option<usize>)
        requires
            self.wf(),
        ensures
            found is Some <==> self@.contains_key(id),
            found matches Some(i) ==> i < self.ids().len() && self.ids()[i as int] == id,
    {
        let mut i: usize = 0;
        while i < self.keys.len()
            invariant
                i <= self.keys.len(),
                forall|j: int| 0 <= j < i ==> self.keys@[j] != id,
            decreases self.keys.len() - i,
        {
            if self.keys[i] == id {
                return Some(i);
            }
            i += 1;
        }
        None
    }

    /// Whether a row is stored under `id`.
    pub fn contains(&self, id: i64) -> (found: bool)
        requires
            self.wf(),
        ensures
            found == self@.contains_key(id),
    {
        self.position(id).is_some()
    }

    /// The row stored under `id`, if there is one.
    pub fn get(&self, id: i64) -> (found: Option<&T>)
        requires
            self.wf(),
        ensures
            found is Some <==> self@.contains_key(id),
            found matches Some(row) ==> row@ == self@[id],
    {
        match self.position(id) {
            Some(i) => Some(self.row_at(i)),
            None => None,
        }
    }

    /// Stores `row` under `id`, in place of the row that was stored under it,
    /// or else behind all other rows.
    pub fn put(&mut self, id: i64, row: T)
        requires
            old(self).wf(),
        ensures
            final(self).wf(),
            final(self)@ == old(self)@.insert(id, row@),
            final(self).ids() == if old(self)@.contains_key(id) {
                old(self).ids()
            } else {
                old(self).ids().push(id)
            },
    {
        let ghost before = *self;
        match self.position(id) {
            Some(i) => {
                self.rows.set(i, row);
                proof {
                    lemma_index_of(self.keys@, i as int);
                    assert forall|k: i64| #[trigger] self.keys@.contains(k) && k != id implies
                        self.rows@[self.keys@.index_of(k)] == before.rows@[self.keys@.index_of(k)] by {
                        let j = self.keys@.index_of(k);
                        assert(self.keys@[j] == k);
                    }
                    assert(self@ =~= before@.insert(id, row@));
                }
            },
            None => {
                self.keys.push(id);
                self.rows.push(row);
                proof {
                    let n = before.keys@.len() as int;
                    assert(self.keys@[n] == id);
                    lemma_index_of(self.keys@, n);
                    assert forall|k: i64| #[trigger] before.keys@.contains(k) implies self.keys@.index_of(
                        k,
                    ) == before.keys@.index_of(k) by {
                        let j = before.keys@.index_of(k);
                        assert(self.keys@[j] == k);
                        lemma_index_of(self.keys@, j);
                    }
                    assert forall|k: i64| self.keys@.contains(k) implies k == id
                        || before.keys@.contains(k) by {
                        let j = self.keys@.index_of(k);
                        if j < n {
                            assert(before.keys@[j] == k);
                        }
                    }
                    assert forall|k: i64| before.keys@.contains(k) implies self.keys@.contains(k) by {
                        let j = before.keys@.index_of(k);
                        assert(self.keys@[j] == k);
                    }
                    assert(self@ =~= before@.insert(id, row@));
                }
            },
        }
    }

    /// Takes out the row stored under `id`, if there is one. The other rows
    /// keep their order.
    pub fn remove(&mut self, id: i64) -> (taken: Option<T>)
        requires
            old(self).wf(),
        ensures
            final(self).wf(),
            final(self)@ == old(self)@.remove(id),
            taken is Some <==> old(self)@.contains_key(id),
            taken matches Some(row) ==> row@ == old(self)@[id],
            final(self).ids() == if old(self)@.contains_key(id) {
                old(self).ids().remove(old(self).ids().index_of(id))
            } else {
                old(self).ids()
            },
    {
        let ghost before = *self;
        match self.position(id) {
            Some(i) => {
                proof {
                    lemma_index_of(self.keys@, i as int);
                }
                self.keys.remove(i);
                let row = self.rows.remove(i);
                proof {
                    let p = i as int;
                    assert forall|a: int, b: int|
                        0 <= a < self.keys@.len() && 0 <= b < self.keys@.len() && a != b implies self.keys@[a]
                        != self.keys@[b] by {
                        let a0 = if a < p { a } else { a + 1 };
                        let b0 = if b < p { b } else { b + 1 };
                        assert(self.keys@[a] == before.keys@[a0]);
                        assert(self.keys@[b] == before.keys@[b0]);
                    }
                    assert forall|k: i64| self.keys@.contains(k) implies before.keys@.contains(k) && k
                        != id && self.rows@[self.keys@.index_of(k)] == before.rows@[before.keys@.index_of(
                        k,
                    )] by {
                        let j = self.keys@.index_of(k);
                        let j0 = if j < p { j } else { j + 1 };
                        assert(before.keys@[j0] == k);
                        lemma_index_of(before.keys@, j0);
                    }
                    assert forall|k: i64| before.keys@.contains(k) && k != id implies self.keys@.contains(
                        k,
                    ) by {
                        let j0 = before.keys@.index_of(k);
                        let j = if j0 < p { j0 } else { j0 - 1 };
                        assert(self.keys@[j] == k);
                    }
                    assert(self@ =~= before@.remove(id));
                }
                Some(row)
            },
            None => {
                assert(self@ =~= before@.remove(id));
                None
            },
        }
    }
}

} // verus!
