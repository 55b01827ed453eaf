//! Typed wrappers for the opaque numeric identifiers of the service:
//! sheets, columns and rows each get a distinct type so that one kind
//! of id cannot be passed where another is expected.
use vstd::prelude::*;

verus! {

/// Identifier of one sheet resource.
#[derive(Clone, Copy, Debug, PartialEq, Eq, Structural)]
pub struct SheetId {
    pub id: u64,
}

/// Identifier of one column of a sheet.
#[derive(Clone, Copy, Debug, PartialEq, Eq, Structural)]
pub struct ColumnId {
    pub id: u64,
}

/// Identifier of one row of a sheet. Row ids are totally ordered by
/// their numeric value; the row store keeps rows sorted by it.
#[derive(Clone, Copy, Debug, PartialEq, Eq, PartialOrd, Ord, Structural)]
pub struct RowId {
    pub id: u64,
}

impl From<u64> for SheetId {
    fn from(id: u64) -> (r: Self) {
        SheetId { id }
    }
}

impl vstd::std_specs::convert::FromSpecImpl<u64> for SheetId {
    open spec fn obeys_from_spec() -> bool {
        true
    }

    open spec fn from_spec(id: u64) -> Self {
        SheetId { id }
    }
}

impl From<u64> for ColumnId {
    fn from(id: u64) -> (r: Self) {
        ColumnId { id }
    }
}

impl vstd::std_specs::convert::FromSpecImpl<u64> for ColumnId {
    open spec fn obeys_from_spec() -> bool {
        true
    }

    open spec fn from_spec(id: u64) -> Self {
        ColumnId { id }
    }
}

impl From<u64> for RowId {
    fn from(id: u64) -> (r: Self) {
        RowId { id }
    }
}

impl vstd::std_specs::convert::FromSpecImpl<u64> for RowId {
    open spec fn obeys_from_spec() -> bool {
        true
    }

    open spec fn from_spec(id: u64) -> Self {
        RowId { id }
    }
}

} // verus!
