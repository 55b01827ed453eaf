//! One fetched sheet: its schema (columns) and its row store, together
//! with the lookup operations and the row-merge mutator.
//!
//! The row store is a vector kept sorted by row id with no duplicate
//! ids, which models a map from row id to row with deterministic
//! ascending scan order. Its mathematical model is the `Map<u64, Row>`
//! produced by `rows_map`, and the merge operation is modelled by
//! `spec_merge`.
use vstd::prelude::*;
use crate::dto::CellValue;
use crate::dto::Column;
use crate::dto::Row;
use crate::dto::SheetHeader;
use crate::dto::spec_cell_lookup;
use crate::dto::spec_column_lookup;
use crate::ids::ColumnId;
use crate::ids::RowId;
use crate::ids::SheetId;

verus! {

/// The row ids strictly increase along the store: sorted, no duplicates.
pub open spec fn rows_sorted(rows: Seq<Row>) -> bool {
    forall|i: int, j: int| 0 <= i < j < rows.len() ==> rows[i].id.id < rows[j].id.id
}

/// No two distinct positions carry the same row id.
pub open spec fn ids_unique(rows: Seq<Row>) -> bool {
    forall|i: int, j: int|
        0 <= i < rows.len() && 0 <= j < rows.len() && i != j ==> rows[i].id.id != rows[j].id.id
}

/// The first row of `rows`, scanning left to right, whose id is `id`.
pub open spec fn spec_row_lookup(rows: Seq<Row>, id: u64) -> Option<Row>
    decreases rows.len(),
{
    if rows.len() == 0 {
        None
    } else if rows[0].id.id == id {
        Some(rows[0])
    } else {
        spec_row_lookup(rows.skip(1), id)
    }
}

/// The map `m` after replacing, for each row of `rows` in order, the
/// entry keyed by that row's own id: a later row wins over an earlier
/// one with the same id. This is the model of the merge operation.
pub open spec fn spec_merge(m: Map<u64, Row>, rows: Seq<Row>) -> Map<u64, Row>
    decreases rows.len(),
{
    if rows.len() == 0 {
        m
    } else {
        spec_merge(m.insert(rows[0].id.id, rows[0]), rows.skip(1))
    }
}

/// The map from row id to row that a row store holds.
pub open spec fn rows_map(rows: Seq<Row>) -> Map<u64, Row> {
    spec_merge(Map::empty(), rows)
}

/// The last row of `rows` whose id is `id`, the entry that survives a
/// merge of `rows`.
pub open spec fn spec_last_with(rows: Seq<Row>, id: u64) -> Option<Row>
    decreases rows.len(),
{
    if rows.len() == 0 {
        None
    } else {
        match spec_last_with(rows.skip(1), id) {
            Some(r) => Some(r),
            None => if rows[0].id.id == id {
                Some(rows[0])
            } else {
                None
            },
        }
    }
}

/// What one merge does, key by key: a key is present afterwards when it
/// was present before or some merged row carries it, and its entry is
/// the last merged row with that id, or the old entry when none has it.
pub proof fn lemma_merge_char(m: Map<u64, Row>, rows: Seq<Row>, k: u64)
    ensures
        spec_merge(m, rows).contains_key(k) <==> (m.contains_key(k) || spec_last_with(rows, k)
            is Some),
        spec_merge(m, rows).contains_key(k) ==> spec_merge(m, rows)[k] == (match spec_last_with(
            rows,
            k,
        ) {
            Some(r) => r,
            None => m[k],
        }),
    decreases rows.len(),
{
    if rows.len() > 0 {
        let m1 = m.insert(rows[0].id.id, rows[0]);
        lemma_merge_char(m1, rows.skip(1), k);
    }
}

/// Merging the same rows twice yields the same map as merging them
/// once: the merge is idempotent.
pub proof fn lemma_merge_idempotent(m: Map<u64, Row>, rows: Seq<Row>)
    ensures
        spec_merge(spec_merge(m, rows), rows) == spec_merge(m, rows),
{
    let m1 = spec_merge(m, rows);
    let m2 = spec_merge(m1, rows);
    assert forall|k: u64| #![auto] m2.contains_key(k) <==> m1.contains_key(k) by {
        lemma_merge_char(m, rows, k);
        lemma_merge_char(m1, rows, k);
    }
    assert forall|k: u64| m1.contains_key(k) implies #[trigger] m2[k] == m1[k] by {
        lemma_merge_char(m, rows, k);
        lemma_merge_char(m1, rows, k);
    }
    assert(m2 =~= m1);
}

/// In a store without duplicate ids, the first row with a given id is
/// also the last one.
proof fn lemma_first_is_last(rows: Seq<Row>, k: u64)
    requires
        ids_unique(rows),
    ensures
        spec_row_lookup(rows, k) == spec_last_with(rows, k),
    decreases rows.len(),
{
    if rows.len() > 0 {
        let rest = rows.skip(1);
        assert(ids_unique(rest)) by {
            assert(forall|i: int, j: int|
                0 <= i < rest.len() && 0 <= j < rest.len() && i != j ==> rest[i] == rows[i + 1]
                    && rest[j] == rows[j + 1]);
        }
        lemma_first_is_last(rest, k);
        if rows[0].id.id == k {
            assert(spec_last_with(rest, k) is None) by {
                lemma_last_with_found(rest, k);
                if spec_last_with(rest, k) is Some {
                    let i = choose|i: int| 0 <= i < rest.len() && rest[i].id.id == k;
                    assert(rest[i] == rows[i + 1]);
                }
            }
        }
    }
}

/// A last-with result exists exactly when some row carries the id.
proof fn lemma_last_with_found(rows: Seq<Row>, k: u64)
    ensures
        spec_last_with(rows, k) is Some <==> exists|i: int|
            0 <= i < rows.len() && rows[i].id.id == k,
    decreases rows.len(),
{
    if rows.len() > 0 {
        let rest = rows.skip(1);
        lemma_last_with_found(rest, k);
        if spec_last_with(rest, k) is Some {
            let i = choose|i: int| 0 <= i < rest.len() && rest[i].id.id == k;
            assert(rows[i + 1].id.id == k);
        } else if rows[0].id.id == k {
            assert(rows[0].id.id == k);
        } else {
            if exists|i: int| 0 <= i < rows.len() && rows[i].id.id == k {
                let i = choose|i: int| 0 <= i < rows.len() && rows[i].id.id == k;
                assert(i > 0);
                assert(rest[i - 1].id.id == k);
            }
        }
    }
}

/// The row store and its map model agree: under unique ids, the
/// first-match scan finds exactly the entry the map holds.
pub proof fn lemma_store_is_map(rows: Seq<Row>, k: u64)
    requires
        ids_unique(rows),
    ensures
        rows_map(rows).contains_key(k) <==> spec_row_lookup(rows, k) is Some,
        match spec_row_lookup(rows, k) {
            Some(r) => rows_map(rows).contains_key(k) && rows_map(rows)[k] == r,
            None => !rows_map(rows).contains_key(k),
        },
{
    lemma_merge_char(Map::empty(), rows, k);
    lemma_first_is_last(rows, k);
}

/// Sorted stores have unique ids.
pub proof fn lemma_sorted_unique(rows: Seq<Row>)
    requires
        rows_sorted(rows),
    ensures
        ids_unique(rows),
{
}

/// Replacing the row at a position by one with the same id changes the
/// first-match lookup at that id alone.
proof fn lemma_lookup_update(s: Seq<Row>, i: int, r: Row, x: u64)
    requires
        0 <= i < s.len(),
        ids_unique(s),
        s[i].id.id == r.id.id,
    ensures
        spec_row_lookup(s.update(i, r), x) == (if x == r.id.id {
            Some(r)
        } else {
            spec_row_lookup(s, x)
        }),
    decreases s.len(),
{
    let s2 = s.update(i, r);
    if i == 0 {
        assert(s2.skip(1) =~= s.skip(1));
    } else {
        assert(s2[0] == s[0]);
        if s[0].id.id != x {
            assert(s2.skip(1) =~= s.skip(1).update(i - 1, r));
            assert(ids_unique(s.skip(1))) by {
                assert(forall|a: int|
                    0 <= a < s.skip(1).len() ==> #[trigger] s.skip(1)[a] == s[a + 1]);
            }
            lemma_lookup_update(s.skip(1), i - 1, r, x);
        } else {
            assert(x != r.id.id);
        }
    }
}

/// Inserting a row with a fresh id changes the first-match lookup at
/// that id alone.
proof fn lemma_lookup_insert(s: Seq<Row>, i: int, r: Row, x: u64)
    requires
        0 <= i <= s.len(),
        forall|j: int| 0 <= j < s.len() ==> s[j].id.id != r.id.id,
    ensures
        spec_row_lookup(s.insert(i, r), x) == (if x == r.id.id {
            Some(r)
        } else {
            spec_row_lookup(s, x)
        }),
    decreases s.len(),
{
    let s2 = s.insert(i, r);
    s.insert_ensures(i, r);
    if i == 0 {
        assert(s2[0] == r);
        assert(s2.skip(1) =~= s);
    } else {
        assert(s2[0] == s[0]);
        if s[0].id.id != x {
            assert(s2.skip(1) =~= s.skip(1).insert(i - 1, r)) by {
                s.skip(1).insert_ensures(i - 1, r);
            }
            lemma_lookup_insert(s.skip(1), i - 1, r, x);
        }
    }
}

/// One sheet: identity, schema and row store. The schema is frozen
/// after the fetch that built the sheet; the row store is mutated only
/// by `update_rows`.
#[derive(Debug, PartialEq)]
pub struct Sheet {
    pub header: SheetHeader,
    pub columns: Vec<Column>,
    pub rows: Vec<Row>,
}

impl Sheet {
    /// The row store invariant: sorted by row id, no duplicates.
    pub open spec fn wf(&self) -> bool {
        rows_sorted(self.rows@)
    }

    /// The value of the cell at `column` in the row keyed `row`, when
    /// both exist.
    pub open spec fn spec_cell_value(&self, column: u64, row: u64) -> Option<CellValue> {
        match spec_row_lookup(self.rows@, row) {
            None => None,
            Some(r) => spec_cell_lookup(r.cells@, column),
        }
    }

    pub fn get_sheet_id(&self) -> (r: SheetId)
        ensures
            r == self.header.id,
    {
        self.header.get_sheet_id()
    }

    /// The id of the first column titled `title`, in schema order.
    pub fn get_column_id(&self, title: &str) -> (r: Option<ColumnId>)
        ensures
            r == spec_column_lookup(self.columns@, title@),
    {
        let wanted: String = title.to_owned();
        proof {
            assert(self.columns@.skip(0) =~= self.columns@);
        }
        let n = self.columns.len();
        let mut i: usize = 0;
        while i < n
            invariant
                n == self.columns@.len(),
                i <= n,
                wanted@ == title@,
                spec_column_lookup(self.columns@, title@) == spec_column_lookup(
                    self.columns@.skip(i as int),
                    title@,
                ),
            decreases n - i,
        {
            proof {
                assert(self.columns@.skip(i as int)[0] == self.columns@[i as int]);
                assert(self.columns@.skip(i as int).skip(1) =~= self.columns@.skip(i as int + 1));
            }
            if self.columns[i].title == wanted {
                return Some(self.columns[i].id);
            }
            i += 1;
        }
        proof {
            assert(self.columns@.skip(n as int) =~= Seq::<Column>::empty());
        }
        None
    }

    /// The id of the first row, in store order, that the predicate
    /// accepts; `None` when it accepts no row.
    pub fn find_row_id<F: Fn(&Row) -> bool>(&self, predicate: F) -> (r: Option<RowId>)
        requires
            forall|row: &Row| #[trigger] call_requires(predicate, (row,)),
        ensures
            match r {
                Some(id) => exists|i: int|
                    0 <= i < self.rows@.len() && #[trigger] call_ensures(
                        predicate,
                        (&self.rows@[i],),
                        true,
                    ) && id == self.rows@[i].id && forall|j: int|
                        0 <= j < i ==> call_ensures(predicate, (&self.rows@[j],), false),
                None => forall|i: int|
                    0 <= i < self.rows@.len() ==> call_ensures(predicate, (&self.rows@[i],), false),
            },
    {
        let n = self.rows.len();
        let mut i: usize = 0;
        while i < n
            invariant
                n == self.rows@.len(),
                i <= n,
                forall|row: &Row| #[trigger] call_requires(predicate, (row,)),
                forall|j: int| 0 <= j < i ==> call_ensures(predicate, (&self.rows@[j],), false),
            decreases n - i,
        {
            let hit = predicate(&self.rows[i]);
            if hit {
                return Some(self.rows[i].id);
            }
            i += 1;
        }
        None
    }

    /// The value of the cell at (`column_id`, `row_id`): the row is
    /// looked up by id, then the cell by column id within it; absence
    /// at either level yields `None`.
    pub fn get_cell_value(&self, column_id: &ColumnId, row_id: &RowId) -> (r: Option<&CellValue>)
        ensures
            match r {
                Some(v) => self.spec_cell_value(column_id.id, row_id.id) == Some(*v),
                None => self.spec_cell_value(column_id.id, row_id.id) is None,
            },
    {
        proof {
            assert(self.rows@.skip(0) =~= self.rows@);
        }
        let n = self.rows.len();
        let mut i: usize = 0;
        while i < n
            invariant
                n == self.rows@.len(),
                i <= n,
                spec_row_lookup(self.rows@, row_id.id) == spec_row_lookup(
                    self.rows@.skip(i as int),
                    row_id.id,
                ),
            decreases n - i,
        {
            proof {
                assert(self.rows@.skip(i as int)[0] == self.rows@[i as int]);
                assert(self.rows@.skip(i as int).skip(1) =~= self.rows@.skip(i as int + 1));
            }
            if self.rows[i].id.id == row_id.id {
                return crate::dto::cell_lookup(&self.rows[i].cells, column_id);
            }
            i += 1;
        }
        proof {
            assert(self.rows@.skip(n as int) =~= Seq::<Row>::empty());
        }
        None
    }

    /// Replace-or-insert one row, keyed by its own id, keeping the
    /// store sorted.
    fn merge_row(&mut self, row: Row)
        requires
            old(self).wf(),
        ensures
            final(self).wf(),
            final(self).header == old(self).header,
            final(self).columns == old(self).columns,
            rows_map(final(self).rows@) == rows_map(old(self).rows@).insert(row.id.id, row),
    {
        let ghost s = self.rows@;
        proof {
            lemma_sorted_unique(s);
        }
        let n = self.rows.len();
        let mut i: usize = 0;
        while i < n && self.rows.as_slice()[i].id.id < row.id.id
            invariant
                n == self.rows@.len(),
                i <= n,
                self == old(self),
                s == self.rows@,
                forall|j: int| 0 <= j < i ==> s[j].id.id < row.id.id,
            decreases n - i,
        {
            i += 1;
        }
        if i < n && self.rows.as_slice()[i].id.id == row.id.id {
            let ghost k = row.id.id;
            self.rows.set(i, row);
            proof {
                assert(self.rows@ == s.update(i as int, row));
                assert(rows_sorted(self.rows@)) by {
                    assert(forall|j: int|
                        0 <= j < s.len() && j != i ==> self.rows@[j] == s[j]);
                }
                lemma_sorted_unique(self.rows@);
                assert(rows_map(self.rows@) =~= rows_map(s).insert(k, row)) by {
                    assert forall|x: u64| #![auto]
                        rows_map(self.rows@).contains_key(x) <==> rows_map(s).insert(
                            k,
                            row,
                        ).contains_key(x) by {
                        lemma_store_is_map(self.rows@, x);
                        lemma_store_is_map(s, x);
                        lemma_lookup_update(s, i as int, row, x);
                    }
                    assert forall|x: u64| rows_map(self.rows@).contains_key(
                        x,
                    ) implies #[trigger] rows_map(self.rows@)[x] == rows_map(s).insert(
                        k,
                        row,
                    )[x] by {
                        lemma_store_is_map(self.rows@, x);
                        lemma_store_is_map(s, x);
                        lemma_lookup_update(s, i as int, row, x);
                    }
                }
            }
        } else {
            let ghost k = row.id.id;
            proof {
                assert(forall|j: int| 0 <= j < s.len() ==> s[j].id.id != k) by {
                    assert(forall|j: int| i <= j < s.len() ==> s[i as int].id.id <= s[j].id.id);
                }
            }
            self.rows.insert(i, row);
            proof {
                assert(self.rows@ == s.insert(i as int, row));
                s.insert_ensures(i as int, row);
                assert(rows_sorted(self.rows@)) by {
                    assert(forall|j: int| 0 <= j < i ==> self.rows@[j] == s[j]);
                    assert(self.rows@[i as int] == row);
                    assert(forall|j: int|
                        i <= j < s.len() ==> self.rows@[j + 1] == s[j]);
                }
                lemma_sorted_unique(self.rows@);
                assert(rows_map(self.rows@) =~= rows_map(s).insert(k, row)) by {
                    assert forall|x: u64| #![auto]
                        rows_map(self.rows@).contains_key(x) <==> rows_map(s).insert(
                            k,
                            row,
                        ).contains_key(x) by {
                        lemma_store_is_map(self.rows@, x);
                        lemma_store_is_map(s, x);
                        lemma_lookup_insert(s, i as int, row, x);
                    }
                    assert forall|x: u64| rows_map(self.rows@).contains_key(
                        x,
                    ) implies #[trigger] rows_map(self.rows@)[x] == rows_map(s).insert(
                        k,
                        row,
                    )[x] by {
                        lemma_store_is_map(self.rows@, x);
                        lemma_store_is_map(s, x);
                        lemma_lookup_insert(s, i as int, row, x);
                    }
                }
            }
        }
    }

    /// Merge server-confirmed rows into the store: each incoming row
    /// replaces (or inserts) the entry keyed by its own id, whole. This
    /// is the sheet's only mutator.
    pub fn update_rows(&mut self, rows: Vec<Row>)
        requires
            old(self).wf(),
        ensures
            final(self).wf(),
            final(self).header == old(self).header,
            final(self).columns == old(self).columns,
            rows_map(final(self).rows@) == spec_merge(rows_map(old(self).rows@), rows@),
    {
        let mut rows = rows;
        let ghost all: Seq<Row> = rows@;
        let ghost mut done: int = 0;
        proof {
            assert(all.skip(0) =~= all);
        }
        while rows.len() > 0
            invariant
                old(self).wf(),
                self.wf(),
                self.header == old(self).header,
                self.columns == old(self).columns,
                0 <= done <= all.len(),
                rows@ == all.skip(done),
                spec_merge(rows_map(self.rows@), all.skip(done)) == spec_merge(
                    rows_map(old(self).rows@),
                    all,
                ),
            decreases rows@.len(),
        {
            let ghost before = self.rows@;
            let row = rows.remove(0);
            proof {
                assert(all.skip(done)[0] == row);
                assert(rows@ =~= all.skip(done + 1)) by {
                    assert(all.skip(done).remove(0) =~= all.skip(done).skip(1));
                    assert(all.skip(done).skip(1) =~= all.skip(done + 1));
                }
            }
            self.merge_row(row);
            proof {
                assert(spec_merge(rows_map(before), all.skip(done)) == spec_merge(
                    rows_map(before).insert(row.id.id, row),
                    all.skip(done + 1),
                ));
                done = done + 1;
            }
        }
        proof {
            assert(all.skip(done) =~= Seq::<Row>::empty());
            assert(rows@.len() == 0);
            assert(all.skip(done).len() == all.len() - done);
        }
    }
}

} // verus!
