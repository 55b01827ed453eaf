//! The data model of one sheet: cell values, cells, columns, rows, the
//! sheet itself, the sheet-index headers, and the structured error
//! payload the service returns on a non-success status.
use vstd::prelude::*;
use crate::ids::ColumnId;
use crate::ids::RowId;
use crate::ids::SheetId;

verus! {

/// A JSON number as the service sends it: a non-negative integer, a
/// negative integer, or a double kept as its shortest JSON text (as
/// serde_json prints it). The text stands in for the floating-point
/// value itself, so that the model stays within exactly representable
/// data; it parses back to the same double, and equality is textual.
#[derive(Debug, PartialEq)]
pub enum JsonNumber {
    PosInt(u64),
    NegInt(i64),
    Double(String),
}

impl Clone for JsonNumber {
    fn clone(&self) -> (r: Self)
        ensures
            r == *self,
    {
        match self {
            JsonNumber::PosInt(u) => JsonNumber::PosInt(*u),
            JsonNumber::NegInt(i) => JsonNumber::NegInt(*i),
            JsonNumber::Double(s) => JsonNumber::Double(s.clone()),
        }
    }
}

/// The value of one cell: text, a number, a boolean, or empty.
/// `Empty` is the canonical value of a cell the server omits.
/// Equality is structural and variant-sensitive.
#[derive(Debug, PartialEq)]
pub enum CellValue {
    Text(String),
    Number(JsonNumber),
    Bool(bool),
    Empty,
}

impl CellValue {
    /// A narrowing view: the contained text when the variant is `Text`,
    /// and `None` otherwise. Never fails.
    pub fn as_text(&self) -> (r: Option<&str>)
        ensures
            match r {
                Some(t) => self matches CellValue::Text(s) && t@ == s@,
                None => !(self matches CellValue::Text(_)),
            },
    {
        match self {
            CellValue::Text(text) => Some(text.as_str()),
            _ => None,
        }
    }
}

impl Default for CellValue {
    /// The default cell value is the absent value.
    fn default() -> (r: CellValue)
        ensures
            r == CellValue::Empty,
    {
        CellValue::Empty
    }
}

impl From<String> for CellValue {
    fn from(string: String) -> (r: CellValue) {
        CellValue::Text(string)
    }
}

impl vstd::std_specs::convert::FromSpecImpl<String> for CellValue {
    open spec fn obeys_from_spec() -> bool {
        true
    }

    open spec fn from_spec(string: String) -> CellValue {
        CellValue::Text(string)
    }
}

impl<'a> From<&'a str> for CellValue {
    fn from(string: &'a str) -> (r: CellValue)
        ensures
            r matches CellValue::Text(s) && s@ == string@,
    {
        CellValue::Text(string.to_owned())
    }
}

impl<'a> vstd::std_specs::convert::FromSpecImpl<&'a str> for CellValue {
    open spec fn obeys_from_spec() -> bool {
        false
    }

    open spec fn from_spec(string: &'a str) -> CellValue {
        arbitrary()
    }
}

/// One cell: the value at the intersection of a column and the row
/// that carries it.
#[derive(Debug, PartialEq)]
pub struct Cell {
    pub column_id: ColumnId,
    pub value: CellValue,
}

impl Cell {
    pub fn new(column_id: ColumnId, value: CellValue) -> (r: Cell)
        ensures
            r == (Cell { column_id, value }),
    {
        Cell { column_id, value }
    }

    pub fn get_column_id(&self) -> (r: ColumnId)
        ensures
            r == self.column_id,
    {
        self.column_id
    }

    pub fn get_value(&self) -> (r: &CellValue)
        ensures
            r == &self.value,
    {
        &self.value
    }
}

/// One column of the sheet schema: its id and its display title.
#[derive(Debug, PartialEq)]
pub struct Column {
    pub id: ColumnId,
    pub title: String,
}

impl Column {
    pub fn get_column_id(&self) -> (r: ColumnId)
        ensures
            r == self.id,
    {
        self.id
    }

    pub fn get_title(&self) -> (r: &str)
        ensures
            r@ == self.title@,
    {
        self.title.as_str()
    }
}

/// The value of the first cell of `cells` that belongs to column
/// `column`, scanning left to right; `None` when no cell does.
pub open spec fn spec_cell_lookup(cells: Seq<Cell>, column: u64) -> Option<CellValue>
    decreases cells.len(),
{
    if cells.len() == 0 {
        None
    } else if cells[0].column_id.id == column {
        Some(cells[0].value)
    } else {
        spec_cell_lookup(cells.skip(1), column)
    }
}

/// One row: its id and its cells. A row holds at most one cell per
/// column; lookups take the first match by scan order. A row received
/// from a write confirmation may list only the cells that operation
/// touched (a partial row).
#[derive(Debug, PartialEq)]
pub struct Row {
    pub id: RowId,
    pub cells: Vec<Cell>,
}

impl Row {
    /// A single-cell partial row, as sent in a cell-update request.
    pub fn new(id: RowId, cell: Cell) -> (r: Row)
        ensures
            r.id == id,
            r.cells@ =~= seq![cell],
    {
        Row { id, cells: vec![cell] }
    }

    /// The value of this row's cell in column `column_id`, when there
    /// is one.
    pub fn get_cell_value(&self, column_id: &ColumnId) -> (r: Option<&CellValue>)
        ensures
            match r {
                Some(v) => spec_cell_lookup(self.cells@, column_id.id) == Some(*v),
                None => spec_cell_lookup(self.cells@, column_id.id) is None,
            },
    {
        cell_lookup(&self.cells, column_id)
    }

    pub fn get_row_id(&self) -> (r: RowId)
        ensures
            r == self.id,
    {
        self.id
    }
}

/// First-match scan over a cell list, the executable counterpart of
/// `spec_cell_lookup`.
pub fn cell_lookup<'a>(cells: &'a Vec<Cell>, column_id: &ColumnId) -> (r: Option<&'a CellValue>)
    ensures
        match r {
            Some(v) => spec_cell_lookup(cells@, column_id.id) == Some(*v),
            None => spec_cell_lookup(cells@, column_id.id) is None,
        },
{
    proof {
        assert(cells@.skip(0) =~= cells@);
    }
    let n = cells.len();
    let mut i: usize = 0;
    while i < n
        invariant
            n == cells@.len(),
            i <= n,
            spec_cell_lookup(cells@, column_id.id) == spec_cell_lookup(
                cells@.skip(i as int),
                column_id.id,
            ),
        decreases n - i,
    {
        proof {
            assert(cells@.skip(i as int)[0] == cells@[i as int]);
            assert(cells@.skip(i as int).skip(1) =~= cells@.skip(i as int + 1));
        }
        if cells[i].column_id.id == column_id.id {
            return Some(&cells[i].value);
        }
        i += 1;
    }
    proof {
        assert(cells@.skip(n as int) =~= Seq::<Cell>::empty());
    }
    None
}

/// The id of the first column of `columns` whose title reads `title`,
/// scanning in schema order; `None` when no title matches.
pub open spec fn spec_column_lookup(columns: Seq<Column>, title: Seq<char>) -> Option<ColumnId>
    decreases columns.len(),
{
    if columns.len() == 0 {
        None
    } else if columns[0].title@ == title {
        Some(columns[0].id)
    } else {
        spec_column_lookup(columns.skip(1), title)
    }
}

/// One entry of the sheet index: a sheet's id and its name.
#[derive(Debug, PartialEq)]
pub struct SheetHeader {
    pub id: SheetId,
    pub name: String,
}

impl SheetHeader {
    pub fn get_name(&self) -> (r: &str)
        ensures
            r@ == self.name@,
    {
        self.name.as_str()
    }

    pub fn get_sheet_id(&self) -> (r: SheetId)
        ensures
            r == self.id,
    {
        self.id
    }
}

/// The structured error payload the service returns with a non-success
/// HTTP status: a domain error code and a message.
#[derive(Debug, PartialEq)]
pub struct Error {
    pub error_code: u64,
    pub message: String,
}

impl Error {
    pub fn get_code(&self) -> (r: u64)
        ensures
            r == self.error_code,
    {
        self.error_code
    }

    pub fn into_message(self) -> (r: String)
        ensures
            r == self.message,
    {
        self.message
    }
}

} // verus!
