//! The typed result model: per-request metadata, rows, result sets and the
//! per-statement outcome.

use vstd::prelude::*;

use crate::cell_value::CellValue;

verus! {

/// Metadata of a database request. The wire format carries no timing data,
/// so `duration` is always zero in the current protocol; the field exists
/// for forward compatibility only.
#[derive(Clone, Copy, Debug, PartialEq, Eq, Structural)]
pub struct Meta {
    pub duration: u64,
}

impl Default for Meta {
    fn default() -> (r: Meta)
        ensures
            r.duration == 0,
    {
        Meta { duration: 0 }
    }
}

/// The mathematical content of a row: a finite map from column name to the
/// cell stored under that name.
pub open spec fn row_map_of(cells: Seq<(String, CellValue)>) -> Map<Seq<char>, CellValue>
    decreases cells.len(),
{
    if cells.len() == 0 {
        Map::empty()
    } else {
        row_map_of(cells.drop_last()).insert(cells.last().0@, cells.last().1)
    }
}

/// A database row: a mapping from column name to cell value.
///
/// The entries are kept as an association list whose keys are pairwise
/// distinct; the row's view is the finite map they denote.
#[derive(Clone, Debug, PartialEq)]
pub struct Row {
    pub cells: Vec<(String, CellValue)>,
}

impl View for Row {
    type V = Map<Seq<char>, CellValue>;

    open spec fn view(&self) -> Map<Seq<char>, CellValue> {
        row_map_of(self.cells@)
    }
}

impl Row {
    /// No two entries share a column name.
    pub open spec fn wf(&self) -> bool {
        forall|i: int, j: int|
            0 <= i < j < self.cells@.len() ==> self.cells@[i].0@ != self.cells@[j].0@
    }

    pub fn new() -> (r: Row)
        ensures
            r.wf(),
            r@ == Map::<Seq<char>, CellValue>::empty(),
            r.cells@.len() == 0,
    {
        Row { cells: Vec::new() }
    }

    /// Binds `value` under `key`; a later binding for the same column name
    /// overwrites the earlier one, as in a map.
    pub fn insert(&mut self, key: String, value: CellValue)
        requires
            old(self).wf(),
        ensures
            final(self).wf(),
            final(self)@ == old(self)@.insert(key@, value),
            final(self).cells@.len() <= old(self).cells@.len() + 1,
    {
        let n = self.cells.len();
        for i in 0..n
            invariant
                n == self.cells@.len(),
                self.wf(),
                *self == *old(self),
                forall|k: int| 0 <= k < i ==> self.cells@[k].0@ != key@,
        {
            if self.cells[i].0 == key {
                let existing_key = self.cells[i].0.clone();
                self.cells.set(i, (existing_key, value));
                proof {
                    lemma_row_map_update(old(self).cells@, i as int, key@, value);
                }
                return ;
            }
        }
        self.cells.push((key, value));
        proof {
            assert(self.cells@.drop_last() =~= old(self).cells@);
        }
    }

    /// Looks a cell up by column name.
    pub fn get(&self, key: &String) -> (r: Option<&CellValue>)
        requires
            self.wf(),
        ensures
            match r {
                Some(v) => self@.contains_key(key@) && *v == self@[key@],
                None => !self@.contains_key(key@),
            },
    {
        let n = self.cells.len();
        for i in 0..n
            invariant
                n == self.cells@.len(),
                self.wf(),
                forall|k: int| 0 <= k < i ==> self.cells@[k].0@ != key@,
        {
            if self.cells[i].0 == *key {
                proof {
                    lemma_row_map_found(self.cells@, i as int, key@);
                }
                return Some(&self.cells[i].1);
            }
        }
        proof {
            lemma_row_map_absent(self.cells@, key@);
        }
        None
    }
}

/// Overwriting the value at an existing key changes the row's map exactly as
/// `Map::insert` of that key does.
proof fn lemma_row_map_update(cells: Seq<(String, CellValue)>, i: int, k: Seq<char>, v: CellValue)
    requires
        0 <= i < cells.len(),
        cells[i].0@ == k,
        forall|a: int, b: int| 0 <= a < b < cells.len() ==> cells[a].0@ != cells[b].0@,
    ensures
        row_map_of(cells.update(i, (cells[i].0, v))) == row_map_of(cells).insert(k, v),
    decreases cells.len(),
{
    let updated = cells.update(i, (cells[i].0, v));
    if i == cells.len() - 1 {
        assert(updated.drop_last() =~= cells.drop_last());
        assert(row_map_of(updated) =~= row_map_of(cells).insert(k, v));
    } else {
        assert(updated.drop_last() =~= cells.drop_last().update(i, (cells[i].0, v)));
        lemma_row_map_update(cells.drop_last(), i, k, v);
        // The last key differs from `k`, so the two inserts commute.
        assert(cells.last().0@ != k);
        assert(row_map_of(updated) =~= row_map_of(cells).insert(k, v));
    }
}

/// An entry's value is what the row's map holds under the entry's key,
/// provided no other entry shares that key.
proof fn lemma_row_map_found(cells: Seq<(String, CellValue)>, i: int, k: Seq<char>)
    requires
        0 <= i < cells.len(),
        cells[i].0@ == k,
        forall|a: int, b: int| 0 <= a < b < cells.len() ==> cells[a].0@ != cells[b].0@,
    ensures
        row_map_of(cells).contains_key(k),
        row_map_of(cells)[k] == cells[i].1,
    decreases cells.len(),
{
    if i == cells.len() - 1 {
    } else {
        assert(cells.drop_last()[i] == cells[i]);
        lemma_row_map_found(cells.drop_last(), i, k);
        assert(cells.last().0@ != k);
    }
}

/// A key under which no entry stands is absent from the row's map.
proof fn lemma_row_map_absent(cells: Seq<(String, CellValue)>, k: Seq<char>)
    requires
        forall|a: int| 0 <= a < cells.len() ==> cells[a].0@ != k,
    ensures
        !row_map_of(cells).contains_key(k),
    decreases cells.len(),
{
    if cells.len() > 0 {
        lemma_row_map_absent(cells.drop_last(), k);
    }
}

/// A set of rows returned from one successful statement together with their
/// column names.
#[derive(Clone, Debug, PartialEq)]
pub struct ResultSet {
    pub columns: Vec<String>,
    pub rows: Vec<Row>,
}

/// The mathematical content of a result set: the column-name sequence and
/// each row's map, in server order.
pub struct SpecResultSet {
    pub columns: Seq<String>,
    pub rows: Seq<Map<Seq<char>, CellValue>>,
}

impl View for ResultSet {
    type V = SpecResultSet;

    open spec fn view(&self) -> SpecResultSet {
        SpecResultSet {
            columns: self.columns@,
            rows: self.rows@.map_values(|r: Row| r@),
        }
    }
}

/// The outcome of one statement: either the database's error message for
/// that statement, or its decoded result set. Exactly one variant is ever
/// populated; a per-statement error is a successful decode, not a failure
/// of the driver.
#[derive(Clone, Debug, PartialEq)]
pub enum QueryResult {
    Error(String, Meta),
    Success(ResultSet, Meta),
}

/// The mathematical content of an outcome.
pub enum SpecQueryResult {
    Error(Seq<char>, Meta),
    Success(SpecResultSet, Meta),
}

impl View for QueryResult {
    type V = SpecQueryResult;

    open spec fn view(&self) -> SpecQueryResult {
        match self {
            QueryResult::Error(message, meta) => SpecQueryResult::Error(message@, *meta),
            QueryResult::Success(rs, meta) => SpecQueryResult::Success(rs@, *meta),
        }
    }
}

} // verus!
