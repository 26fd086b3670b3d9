//! A table of records, each found by its text key.
use vstd::prelude::*;

use crate::json::Json;
use crate::text::same;

verus! {

/// The rows of a table: keys and records, in the order in which the keys came.
pub type Rows<T> = Seq<(Seq<char>, T)>;

/// The row of `key`, looking from row `from` on.
pub open spec fn row_from<T>(rows: Rows<T>, key: Seq<char>, from: int) -> Option<int>
    decreases rows.len() - from,
{
    if from < 0 || from >= rows.len() {
        None
    } else if rows[from].0 == key {
        Some(from)
    } else {
        row_from(rows, key, from + 1)
    }
}

/// The record under `key`.
pub open spec fn lookup<T>(rows: Rows<T>, key: Seq<char>) -> Option<T> {
    match row_from(rows, key, 0) {
        Some(i) => Some(rows[i].1),
        None => None,
    }
}

/// The rows with `record` under `key`: in place of the record there, or at the end.
pub open spec fn stored<T>(rows: Rows<T>, key: Seq<char>, record: T) -> Rows<T> {
    match row_from(rows, key, 0) {
        Some(i) => rows.update(i, (key, record)),
        None => rows.push((key, record)),
    }
}

/// The rows without those of `key`.
pub open spec fn dropped<T>(rows: Rows<T>, key: Seq<char>) -> Rows<T>
    decreases rows.len(),
{
    if rows.len() == 0 {
        rows
    } else if rows.last().0 == key {
        dropped(rows.drop_last(), key)
    } else {
        dropped(rows.drop_last(), key).push(rows.last())
    }
}

/// Whether no two rows have the same key.
pub open spec fn distinct<T>(rows: Rows<T>) -> bool {
    forall|i: int, j: int| 0 <= i < j < rows.len() ==> #[trigger] rows[i].0 != #[trigger] rows[j].0
}

/// The sum of a figure over all rows.
pub open spec fn total<T>(rows: Rows<T>, figure: spec_fn(Seq<char>, T) -> int) -> int
    decreases rows.len(),
{
    if rows.len() == 0 {
        0
    } else {
        total(rows.drop_last(), figure) + figure(rows.last().0, rows.last().1)
    }
}

/// Where the row of a key is found, and that there is none where it is not.
pub proof fn lemma_row_from<T>(rows: Rows<T>, key: Seq<char>, from: int)
    ensures
        match row_from(rows, key, from) {
            Some(i) => from <= i < rows.len() && 0 <= i && rows[i].0 == key && forall|j: int|
                from <= j < i ==> rows[j].0 != key,
            None => from < 0 || forall|j: int| from <= j < rows.len() ==> rows[j].0 != key,
        },
    decreases rows.len() - from,
{
    if from < 0 || from >= rows.len() {
    } else if rows[from].0 == key {
    } else {
        lemma_row_from(rows, key, from + 1);
    }
}

proof fn lemma_row_at<T>(rows: Rows<T>, key: Seq<char>, from: int, at: int)
    requires
        0 <= from <= at < rows.len(),
        rows[at].0 == key,
        forall|j: int| from <= j < at ==> rows[j].0 != key,
    ensures
        row_from(rows, key, from) == Some(at),
    decreases at - from,
{
    if from < at {
        lemma_row_at(rows, key, from + 1, at);
    }
}

proof fn lemma_no_row<T>(rows: Rows<T>, key: Seq<char>, from: int)
    requires
        0 <= from,
        forall|j: int| from <= j < rows.len() ==> rows[j].0 != key,
    ensures
        row_from(rows, key, from) is None,
    decreases rows.len() - from,
{
    if from < rows.len() {
        lemma_no_row(rows, key, from + 1);
    }
}

/// Each key of a table finds its own record.
pub proof fn lemma_lookup_row<T>(rows: Rows<T>, i: int)
    requires
        distinct(rows),
        0 <= i < rows.len(),
    ensures
        lookup(rows, rows[i].0) == Some(rows[i].1),
{
    lemma_row_at(rows, rows[i].0, 0, i);
}

/// A stored record is found under its key, and every other key keeps its record.
pub broadcast proof fn law_lookup_after_store<T>(
    rows: Rows<T>,
    key: Seq<char>,
    record: T,
    other: Seq<char>,
)
    ensures
        #[trigger] lookup(stored(rows, key, record), other) == if other == key {
            Some(record)
        } else {
            lookup(rows, other)
        },
{
    let after = stored(rows, key, record);
    lemma_row_from(rows, key, 0);
    lemma_row_from(rows, other, 0);
    if other == key {
        match row_from(rows, key, 0) {
            Some(i) => lemma_row_at(after, key, 0, i),
            None => lemma_row_at(after, key, 0, rows.len() as int),
        }
    } else {
        match row_from(rows, other, 0) {
            Some(i) => lemma_row_at(after, other, 0, i),
            None => lemma_no_row(after, other, 0),
        }
    }
}

/// Adding a row at the end changes what is found under its key only where nothing was.
pub proof fn lemma_lookup_push<T>(rows: Rows<T>, row: (Seq<char>, T), key: Seq<char>)
    ensures
        lookup(rows.push(row), key) == match lookup(rows, key) {
            Some(record) => Some(record),
            None => if row.0 == key {
                Some(row.1)
            } else {
                None
            },
        },
{
    let after = rows.push(row);
    lemma_row_from(rows, key, 0);
    match row_from(rows, key, 0) {
        Some(i) => lemma_row_at(after, key, 0, i),
        None => if row.0 == key {
            lemma_row_at(after, key, 0, rows.len() as int);
        } else {
            lemma_no_row(after, key, 0);
        },
    }
}

/// Nothing is found under a dropped key, and every other key keeps its record.
pub proof fn law_lookup_after_drop<T>(rows: Rows<T>, key: Seq<char>, other: Seq<char>)
    ensures
        lookup(dropped(rows, key), other) == if other == key {
            None
        } else {
            lookup(rows, other)
        },
    decreases rows.len(),
{
    if rows.len() > 0 {
        let front = rows.drop_last();
        assert(rows =~= front.push(rows.last()));
        law_lookup_after_drop(front, key, other);
        lemma_lookup_push(front, rows.last(), other);
        if rows.last().0 != key {
            lemma_lookup_push(dropped(front, key), rows.last(), other);
        }
    }
}

/// Storing keeps the keys of a table distinct.
pub proof fn law_store_keeps_keys_distinct<T>(rows: Rows<T>, key: Seq<char>, record: T)
    requires
        distinct(rows),
    ensures
        distinct(stored(rows, key, record)),
{
    lemma_row_from(rows, key, 0);
}

proof fn lemma_total_update<T>(
    rows: Rows<T>,
    at: int,
    row: (Seq<char>, T),
    figure: spec_fn(Seq<char>, T) -> int,
)
    requires
        0 <= at < rows.len(),
    ensures
        total(rows.update(at, row), figure) == total(rows, figure) - figure(rows[at].0, rows[at].1)
            + figure(row.0, row.1),
    decreases rows.len(),
{
    let after = rows.update(at, row);
    if at == rows.len() - 1 {
        assert(after.drop_last() =~= rows.drop_last());
    } else {
        assert(after.drop_last() =~= rows.drop_last().update(at, row));
        lemma_total_update(rows.drop_last(), at, row, figure);
    }
}

/// Storing a record changes a sum over the table by the difference of that one figure.
pub proof fn law_total_after_store<T>(
    rows: Rows<T>,
    key: Seq<char>,
    record: T,
    figure: spec_fn(Seq<char>, T) -> int,
)
    ensures
        total(stored(rows, key, record), figure) == total(rows, figure) + figure(key, record) - (
        match lookup(rows, key) {
            Some(before) => figure(key, before),
            None => 0,
        }),
{
    lemma_row_from(rows, key, 0);
    match row_from(rows, key, 0) {
        Some(i) => {
            lemma_total_update(rows, i, (key, record), figure);
        },
        None => {
            assert(rows.push((key, record)).drop_last() =~= rows);
        },
    }
}

/// The rows of a vector of entries.
pub open spec fn rows_of<V: View>(entries: Seq<(String, V)>) -> Rows<V::V> {
    entries.map_values(|e: (String, V)| (e.0@, e.1@))
}

/// Records found by their text keys.
pub struct Table<V: View> {
    entries: Vec<(String, V)>,
}

impl<V: View> View for Table<V> {
    type V = Rows<V::V>;

    closed spec fn view(&self) -> Rows<V::V> {
        rows_of(self.entries@)
    }
}

impl<V: View> Table<V> {
    /// An empty table.
    pub fn new() -> (r: Self)
        ensures
            r@ == Rows::<V::V>::empty(),
    {
        let r = Table { entries: Vec::new() };
        assert(r@ =~= Rows::<V::V>::empty());
        r
    }

    fn row(&self, key: &str) -> (r: Option<usize>)
        ensures
            match r {
                Some(i) => i < self.entries@.len() && row_from(self@, key@, 0) == Some(i as int),
                None => row_from(self@, key@, 0) is None,
            },
    {
        let mut i: usize = 0;
        while i < self.entries.len()
            invariant
                i <= self.entries@.len(),
                row_from(self@, key@, 0) == row_from(self@, key@, i as int),
            decreases self.entries.len() - i,
        {
            assert(self@[i as int].0 == self.entries@[i as int].0@);
            if same(self.entries[i].0.as_str(), key) {
                return Some(i);
            }
            i = i + 1;
        }
        None
    }

    /// The record under `key`.
    pub fn get(&self, key: &str) -> (r: Option<&V>)
        ensures
            match r {
                Some(v) => lookup(self@, key@) == Some(v@),
                None => lookup(self@, key@) is None,
            },
    {
        match self.row(key) {
            Some(i) => {
                assert(self@[i as int].1 == self.entries@[i as int].1@);
                Some(&self.entries[i].1)
            },
            None => None,
        }
    }

    /// Whether there is a record under `key`.
    pub fn has(&self, key: &str) -> (r: bool)
        ensures
            r == (lookup(self@, key@) is Some),
    {
        self.row(key).is_some()
    }

    /// Store `record` under `key`.
    pub fn put(&mut self, key: &str, record: V)
        ensures
            final(self)@ == stored(old(self)@, key@, record@),
    {
        let ghost before = self.entries@;
        match self.row(key) {
            Some(i) => {
                let owned = key.to_owned();
                proof {
                    assert(rows_of(before.update(i as int, (owned, record))) =~= rows_of(
                        before,
                    ).update(i as int, (key@, record@)));
                }
                self.entries.set(i, (owned, record));
            },
            None => {
                let owned = key.to_owned();
                proof {
                    assert(rows_of(before.push((owned, record))) =~= rows_of(before).push(
                        (key@, record@),
                    ));
                }
                self.entries.push((owned, record));
            },
        }
    }

    /// Remove the record under `key`.
    pub fn remove(&mut self, key: &str)
        ensures
            final(self)@ == dropped(old(self)@, key@),
            lookup(final(self)@, key@) is None,
    {
        proof {
            law_lookup_after_drop(self@, key@, key@);
        }
        let ghost whole = self@;
        let mut i: usize = self.entries.len();
        assert(whole.subrange(0, whole.len() as int) =~= whole);
        assert(self@.subrange(i as int, self@.len() as int) =~= Rows::<V::V>::empty());
        assert(dropped(whole, key@) + Rows::<V::V>::empty() =~= dropped(whole, key@));
        while i > 0
            invariant
                i <= self.entries@.len(),
                i <= whole.len(),
                self@.subrange(0, i as int) == whole.subrange(0, i as int),
                dropped(whole.subrange(0, i as int), key@) + self@.subrange(
                    i as int,
                    self@.len() as int,
                ) == dropped(whole, key@),
            decreases i,
        {
            let ghost before = self@;
            let ghost entries = self.entries@;
            i = i - 1;
            let ghost part = whole.subrange(0, i + 1);
            assert(part.drop_last() =~= whole.subrange(0, i as int));
            assert(part.last() == before.subrange(0, i + 1)[i as int]);
            assert(before[i as int].0 == entries[i as int].0@);
            assert(before.subrange(0, i as int) =~= before.subrange(0, i + 1).subrange(0, i as int));
            assert(whole.subrange(0, i as int) =~= part.subrange(0, i as int));
            if same(self.entries[i].0.as_str(), key) {
                self.entries.remove(i);
                assert(self@ =~= before.remove(i as int));
                assert(self@.subrange(0, i as int) =~= before.subrange(0, i as int));
                assert(self@.subrange(i as int, self@.len() as int) =~= before.subrange(
                    i + 1,
                    before.len() as int,
                ));
            } else {
                let ghost shorter = dropped(whole.subrange(0, i as int), key@);
                assert(shorter.push(before[i as int]) + before.subrange(
                    i + 1,
                    before.len() as int,
                ) =~= shorter + before.subrange(i as int, before.len() as int));
            }
        }
        assert(self@.subrange(0, self@.len() as int) =~= self@);
        assert(dropped(whole.subrange(0, 0), key@) =~= Rows::<V::V>::empty());
        assert(Rows::<V::V>::empty() + self@ =~= self@);
    }

    /// How many records there are.
    pub fn len(&self) -> (r: usize)
        ensures
            r == self@.len(),
    {
        self.entries.len()
    }

    /// The key of row `i`.
    pub fn key_at(&self, i: usize) -> (r: &str)
        requires
            i < self@.len(),
        ensures
            r@ == self@[i as int].0,
    {
        self.entries[i].0.as_str()
    }

    /// The record of row `i`.
    pub fn record_at(&self, i: usize) -> (r: &V)
        requires
            i < self@.len(),
        ensures
            r@ == self@[i as int].1,
    {
        &self.entries[i].1
    }
}

impl<V: View + Copy> Table<V> {
    /// A copy of the table.
    pub fn copy(&self) -> (r: Self)
        ensures
            r@ == self@,
    {
        let mut out: Vec<(String, V)> = Vec::new();
        let mut i: usize = 0;
        while i < self.entries.len()
            invariant
                i <= self.entries@.len(),
                out@.len() == i,
                forall|j: int|
                    0 <= j < i ==> (#[trigger] out@[j]).0 == self.entries@[j].0 && out@[j].1
                        == self.entries@[j].1,
            decreases self.entries.len() - i,
        {
            let key = self.entries[i].0.clone();
            let record: V = self.entries[i].1;
            out.push((key, record));
            i = i + 1;
        }
        assert(rows_of(out@) =~= rows_of(self.entries@));
        Table { entries: out }
    }
}

impl Table<Json> {
    /// A copy of a table of documents.
    pub fn duplicate(&self) -> (r: Self)
        ensures
            r@ == self@,
    {
        let mut out: Vec<(String, Json)> = Vec::new();
        let mut i: usize = 0;
        while i < self.entries.len()
            invariant
                i <= self.entries@.len(),
                out@.len() == i,
                forall|j: int|
                    0 <= j < i ==> (#[trigger] out@[j]).0@ == self.entries@[j].0@ && out@[j].1@
                        == self.entries@[j].1@,
            decreases self.entries.len() - i,
        {
            out.push((self.entries[i].0.clone(), self.entries[i].1.copy()));
            i = i + 1;
        }
        assert(rows_of(out@) =~= rows_of(self.entries@));
        Table { entries: out }
    }
}

} // verus!
