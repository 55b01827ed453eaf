//! Decoding the service's JSON response shapes into the data model,
//! and the shape of each decode failure's diagnostic.
//!
//! Every decoder is verified against a spec function that states, for
//! every tree, either the decoded value or the exact diagnostic text;
//! a diagnostic always names the offending field.
use vstd::prelude::*;
use crate::dto::Cell;
use crate::dto::CellValue;
use crate::dto::Column;
use crate::dto::JsonNumber;
use crate::dto::Row;
use crate::dto::SheetHeader;
use crate::ids::ColumnId;
use crate::ids::RowId;
use crate::ids::SheetId;
use crate::json::Json;
use crate::json::get_field;
use crate::json::spec_get;
use crate::sheet::Sheet;
use crate::sheet::rows_map;
use crate::sheet::rows_sorted;
use crate::sheet::spec_last_with;
use crate::sheet::spec_merge;
use crate::sheet::spec_row_lookup;
use crate::sheet::lemma_merge_char;
use crate::sheet::lemma_sorted_unique;
use crate::sheet::lemma_store_is_map;

verus! {

/// A required unsigned-integer field: its value, or a diagnostic for a
/// missing or differently shaped field.
pub open spec fn spec_u64_field(j: Json, key: Seq<char>, missing: Seq<char>, invalid: Seq<char>) -> Result<
    u64,
    Seq<char>,
> {
    match spec_get(j, key) {
        None => Err(missing),
        Some(Json::Num(JsonNumber::PosInt(u))) => Ok(u),
        Some(_) => Err(invalid),
    }
}

/// A required string field: its value, or a diagnostic.
pub open spec fn spec_str_field(j: Json, key: Seq<char>, missing: Seq<char>, invalid: Seq<char>) -> Result<
    String,
    Seq<char>,
> {
    match spec_get(j, key) {
        None => Err(missing),
        Some(Json::Str(s)) => Ok(s),
        Some(_) => Err(invalid),
    }
}

fn u64_field(j: &Json, key: &str, missing: &str, invalid: &str) -> (r: Result<u64, String>)
    ensures
        match (r, spec_u64_field(*j, key@, missing@, invalid@)) {
            (Ok(u), Ok(v)) => u == v,
            (Err(m), Err(d)) => m@ == d,
            _ => false,
        },
{
    match get_field(j, key) {
        None => Err(missing.to_owned()),
        Some(Json::Num(JsonNumber::PosInt(u))) => Ok(*u),
        Some(_) => Err(invalid.to_owned()),
    }
}

fn str_field(j: &Json, key: &str, missing: &str, invalid: &str) -> (r: Result<String, String>)
    ensures
        match (r, spec_str_field(*j, key@, missing@, invalid@)) {
            (Ok(s), Ok(v)) => s == v,
            (Err(m), Err(d)) => m@ == d,
            _ => false,
        },
{
    match get_field(j, key) {
        None => Err(missing.to_owned()),
        Some(Json::Str(s)) => Ok(s.clone()),
        Some(_) => Err(invalid.to_owned()),
    }
}

/// One sheet-index entry: `{"id": u64, "name": string}`.
pub open spec fn spec_decode_header(j: Json) -> Result<SheetHeader, Seq<char>> {
    match spec_u64_field(j, "id"@, "missing field `id`"@, "invalid field `id`"@) {
        Err(d) => Err(d),
        Ok(u) => match spec_str_field(j, "name"@, "missing field `name`"@, "invalid field `name`"@) {
            Err(d) => Err(d),
            Ok(name) => Ok(SheetHeader { id: SheetId { id: u }, name }),
        },
    }
}

pub fn decode_header(j: &Json) -> (r: Result<SheetHeader, String>)
    ensures
        match (r, spec_decode_header(*j)) {
            (Ok(h), Ok(v)) => h == v,
            (Err(m), Err(d)) => m@ == d,
            _ => false,
        },
{
    let u = match u64_field(j, "id", "missing field `id`", "invalid field `id`") {
        Ok(u) => u,
        Err(m) => {
            return Err(m);
        },
    };
    let name = match str_field(j, "name", "missing field `name`", "invalid field `name`") {
        Ok(s) => s,
        Err(m) => {
            return Err(m);
        },
    };
    Ok(SheetHeader { id: SheetId { id: u }, name })
}

/// One schema column: `{"id": u64, "title": string}`.
pub open spec fn spec_decode_column(j: Json) -> Result<Column, Seq<char>> {
    match spec_u64_field(j, "id"@, "missing field `id`"@, "invalid field `id`"@) {
        Err(d) => Err(d),
        Ok(u) => match spec_str_field(
            j,
            "title"@,
            "missing field `title`"@,
            "invalid field `title`"@,
        ) {
            Err(d) => Err(d),
            Ok(title) => Ok(Column { id: ColumnId { id: u }, title }),
        },
    }
}

pub fn decode_column(j: &Json) -> (r: Result<Column, String>)
    ensures
        match (r, spec_decode_column(*j)) {
            (Ok(c), Ok(v)) => c == v,
            (Err(m), Err(d)) => m@ == d,
            _ => false,
        },
{
    let u = match u64_field(j, "id", "missing field `id`", "invalid field `id`") {
        Ok(u) => u,
        Err(m) => {
            return Err(m);
        },
    };
    let title = match str_field(j, "title", "missing field `title`", "invalid field `title`") {
        Ok(s) => s,
        Err(m) => {
            return Err(m);
        },
    };
    Ok(Column { id: ColumnId { id: u }, title })
}

/// One cell: `{"columnId": u64, "value": text | number | bool | null}`,
/// the value field optional. An absent or null value is the empty
/// value; an array or object value is rejected.
pub open spec fn spec_decode_cell(j: Json) -> Result<Cell, Seq<char>> {
    match spec_u64_field(
        j,
        "columnId"@,
        "missing field `columnId`"@,
        "invalid field `columnId`"@,
    ) {
        Err(d) => Err(d),
        Ok(u) => match spec_get(j, "value"@) {
            None => Ok(Cell { column_id: ColumnId { id: u }, value: CellValue::Empty }),
            Some(Json::Null) => Ok(Cell { column_id: ColumnId { id: u }, value: CellValue::Empty }),
            Some(Json::Str(s)) => Ok(
                Cell { column_id: ColumnId { id: u }, value: CellValue::Text(s) },
            ),
            Some(Json::Num(n)) => Ok(
                Cell { column_id: ColumnId { id: u }, value: CellValue::Number(n) },
            ),
            Some(Json::Bool(b)) => Ok(
                Cell { column_id: ColumnId { id: u }, value: CellValue::Bool(b) },
            ),
            Some(_) => Err("invalid field `value`"@),
        },
    }
}

pub fn decode_cell(j: &Json) -> (r: Result<Cell, String>)
    ensures
        match (r, spec_decode_cell(*j)) {
            (Ok(c), Ok(v)) => c == v,
            (Err(m), Err(d)) => m@ == d,
            _ => false,
        },
{
    let u = match u64_field(j, "columnId", "missing field `columnId`", "invalid field `columnId`") {
        Ok(u) => u,
        Err(m) => {
            return Err(m);
        },
    };
    let value = match get_field(j, "value") {
        None => CellValue::Empty,
        Some(Json::Null) => CellValue::Empty,
        Some(Json::Str(s)) => CellValue::Text(s.clone()),
        Some(Json::Num(n)) => CellValue::Number(n.clone()),
        Some(Json::Bool(b)) => CellValue::Bool(*b),
        Some(_) => {
            return Err("invalid field `value`".to_owned());
        },
    };
    Ok(Cell { column_id: ColumnId { id: u }, value })
}

/// A list of cells, in order; the first failing element's diagnostic
/// aborts the list.
pub open spec fn spec_decode_cells(items: Seq<Json>) -> Result<Seq<Cell>, Seq<char>>
    decreases items.len(),
{
    if items.len() == 0 {
        Ok(Seq::empty())
    } else {
        match spec_decode_cell(items[0]) {
            Err(d) => Err(d),
            Ok(c) => match spec_decode_cells(items.skip(1)) {
                Err(d) => Err(d),
                Ok(rest) => Ok(seq![c] + rest),
            },
        }
    }
}

pub fn decode_cells(items: &Vec<Json>) -> (r: Result<Vec<Cell>, String>)
    ensures
        match (r, spec_decode_cells(items@)) {
            (Ok(cs), Ok(v)) => cs@ == v,
            (Err(m), Err(d)) => m@ == d,
            _ => false,
        },
{
    let mut out: Vec<Cell> = Vec::new();
    proof {
        assert(items@.skip(0) =~= items@);
    }
    let n = items.len();
    let mut i: usize = 0;
    while i < n
        invariant
            n == items@.len(),
            i <= n,
            match spec_decode_cells(items@.skip(i as int)) {
                Ok(rest) => spec_decode_cells(items@) == Ok::<Seq<Cell>, Seq<char>>(out@ + rest),
                Err(d) => spec_decode_cells(items@) == Err::<Seq<Cell>, Seq<char>>(d),
            },
        decreases n - i,
    {
        proof {
            assert(items@.skip(i as int)[0] == items@[i as int]);
            assert(items@.skip(i as int).skip(1) =~= items@.skip(i as int + 1));
        }
        match decode_cell(&items[i]) {
            Err(m) => {
                return Err(m);
            },
            Ok(c) => {
                let ghost prev = out@;
                out.push(c);
                proof {
                    let sd = spec_decode_cells(items@.skip(i as int + 1));
                    if sd is Ok {
                        let rest = sd->Ok_0;
                        assert(prev + (seq![c] + rest) =~= out@ + rest);
                    }
                }
            },
        }
        i += 1;
    }
    proof {
        assert(items@.skip(n as int) =~= Seq::<Json>::empty());
        assert(out@ + Seq::<Cell>::empty() =~= out@);
    }
    Ok(out)
}

/// A list of sheet-index entries, order preserved.
pub open spec fn spec_decode_headers(items: Seq<Json>) -> Result<Seq<SheetHeader>, Seq<char>>
    decreases items.len(),
{
    if items.len() == 0 {
        Ok(Seq::empty())
    } else {
        match spec_decode_header(items[0]) {
            Err(d) => Err(d),
            Ok(h) => match spec_decode_headers(items.skip(1)) {
                Err(d) => Err(d),
                Ok(rest) => Ok(seq![h] + rest),
            },
        }
    }
}

pub fn decode_headers(items: &Vec<Json>) -> (r: Result<Vec<SheetHeader>, String>)
    ensures
        match (r, spec_decode_headers(items@)) {
            (Ok(hs), Ok(v)) => hs@ == v,
            (Err(m), Err(d)) => m@ == d,
            _ => false,
        },
{
    let mut out: Vec<SheetHeader> = Vec::new();
    proof {
        assert(items@.skip(0) =~= items@);
    }
    let n = items.len();
    let mut i: usize = 0;
    while i < n
        invariant
            n == items@.len(),
            i <= n,
            match spec_decode_headers(items@.skip(i as int)) {
                Ok(rest) => spec_decode_headers(items@) == Ok::<Seq<SheetHeader>, Seq<char>>(out@ + rest),
                Err(d) => spec_decode_headers(items@) == Err::<Seq<SheetHeader>, Seq<char>>(d),
            },
        decreases n - i,
    {
        proof {
            assert(items@.skip(i as int)[0] == items@[i as int]);
            assert(items@.skip(i as int).skip(1) =~= items@.skip(i as int + 1));
        }
        match decode_header(&items[i]) {
            Err(m) => {
                return Err(m);
            },
            Ok(h) => {
                let ghost prev = out@;
                out.push(h);
                proof {
                    let sd = spec_decode_headers(items@.skip(i as int + 1));
                    if sd is Ok {
                        let rest = sd->Ok_0;
                        assert(prev + (seq![h] + rest) =~= out@ + rest);
                    }
                }
            },
        }
        i += 1;
    }
    proof {
        assert(items@.skip(n as int) =~= Seq::<Json>::empty());
        assert(out@ + Seq::<SheetHeader>::empty() =~= out@);
    }
    Ok(out)
}

/// A list of schema columns, order preserved.
pub open spec fn spec_decode_columns(items: Seq<Json>) -> Result<Seq<Column>, Seq<char>>
    decreases items.len(),
{
    if items.len() == 0 {
        Ok(Seq::empty())
    } else {
        match spec_decode_column(items[0]) {
            Err(d) => Err(d),
            Ok(c) => match spec_decode_columns(items.skip(1)) {
                Err(d) => Err(d),
                Ok(rest) => Ok(seq![c] + rest),
            },
        }
    }
}

pub fn decode_columns(items: &Vec<Json>) -> (r: Result<Vec<Column>, String>)
    ensures
        match (r, spec_decode_columns(items@)) {
            (Ok(cs), Ok(v)) => cs@ == v,
            (Err(m), Err(d)) => m@ == d,
            _ => false,
        },
{
    let mut out: Vec<Column> = Vec::new();
    proof {
        assert(items@.skip(0) =~= items@);
    }
    let n = items.len();
    let mut i: usize = 0;
    while i < n
        invariant
            n == items@.len(),
            i <= n,
            match spec_decode_columns(items@.skip(i as int)) {
                Ok(rest) => spec_decode_columns(items@) == Ok::<Seq<Column>, Seq<char>>(out@ + rest),
                Err(d) => spec_decode_columns(items@) == Err::<Seq<Column>, Seq<char>>(d),
            },
        decreases n - i,
    {
        proof {
            assert(items@.skip(i as int)[0] == items@[i as int]);
            assert(items@.skip(i as int).skip(1) =~= items@.skip(i as int + 1));
        }
        match decode_column(&items[i]) {
            Err(m) => {
                return Err(m);
            },
            Ok(c) => {
                let ghost prev = out@;
                out.push(c);
                proof {
                    let sd = spec_decode_columns(items@.skip(i as int + 1));
                    if sd is Ok {
                        let rest = sd->Ok_0;
                        assert(prev + (seq![c] + rest) =~= out@ + rest);
                    }
                }
            },
        }
        i += 1;
    }
    proof {
        assert(items@.skip(n as int) =~= Seq::<Json>::empty());
        assert(out@ + Seq::<Column>::empty() =~= out@);
    }
    Ok(out)
}

/// One row as decoded data: its id and its cells.
/// `{"id": u64, "cells": [cell, ...]}`.
pub open spec fn spec_decode_row(j: Json) -> Result<(RowId, Seq<Cell>), Seq<char>> {
    match spec_u64_field(j, "id"@, "missing field `id`"@, "invalid field `id`"@) {
        Err(d) => Err(d),
        Ok(u) => match spec_get(j, "cells"@) {
            None => Err("missing field `cells`"@),
            Some(Json::Arr(items)) => match spec_decode_cells(items@) {
                Err(d) => Err(d),
                Ok(cs) => Ok((RowId { id: u }, cs)),
            },
            Some(_) => Err("invalid field `cells`"@),
        },
    }
}

pub fn decode_row(j: &Json) -> (r: Result<Row, String>)
    ensures
        match (r, spec_decode_row(*j)) {
            (Ok(row), Ok(v)) => row.id == v.0 && row.cells@ == v.1,
            (Err(m), Err(d)) => m@ == d,
            _ => false,
        },
{
    let u = match u64_field(j, "id", "missing field `id`", "invalid field `id`") {
        Ok(u) => u,
        Err(m) => {
            return Err(m);
        },
    };
    match get_field(j, "cells") {
        None => Err("missing field `cells`".to_owned()),
        Some(Json::Arr(items)) => match decode_cells(items) {
            Err(m) => Err(m),
            Ok(cells) => Ok(Row { id: RowId { id: u }, cells }),
        },
        Some(_) => Err("invalid field `cells`".to_owned()),
    }
}

/// The id-and-cells pairs a row store carries, in store order.
pub open spec fn rows_pairs(rows: Seq<Row>) -> Seq<(RowId, Seq<Cell>)> {
    rows.map_values(|r: Row| (r.id, r.cells@))
}

/// A list of rows, order preserved, each element a decoded row.
pub open spec fn spec_decode_rows(items: Seq<Json>) -> Result<Seq<(RowId, Seq<Cell>)>, Seq<char>>
    decreases items.len(),
{
    if items.len() == 0 {
        Ok(Seq::empty())
    } else {
        match spec_decode_row(items[0]) {
            Err(d) => Err(d),
            Ok(p) => match spec_decode_rows(items.skip(1)) {
                Err(d) => Err(d),
                Ok(rest) => Ok(seq![p] + rest),
            },
        }
    }
}

pub fn decode_rows(items: &Vec<Json>) -> (r: Result<Vec<Row>, String>)
    ensures
        match (r, spec_decode_rows(items@)) {
            (Ok(rows), Ok(v)) => rows_pairs(rows@) == v,
            (Err(m), Err(d)) => m@ == d,
            _ => false,
        },
{
    let mut out: Vec<Row> = Vec::new();
    proof {
        assert(items@.skip(0) =~= items@);
        assert(rows_pairs(out@) =~= Seq::<(RowId, Seq<Cell>)>::empty());
    }
    let n = items.len();
    let mut i: usize = 0;
    while i < n
        invariant
            n == items@.len(),
            i <= n,
            match spec_decode_rows(items@.skip(i as int)) {
                Ok(rest) => spec_decode_rows(items@) == Ok::<Seq<(RowId, Seq<Cell>)>, Seq<char>>(rows_pairs(out@) + rest),
                Err(d) => spec_decode_rows(items@) == Err::<Seq<(RowId, Seq<Cell>)>, Seq<char>>(d),
            },
        decreases n - i,
    {
        proof {
            assert(items@.skip(i as int)[0] == items@[i as int]);
            assert(items@.skip(i as int).skip(1) =~= items@.skip(i as int + 1));
        }
        match decode_row(&items[i]) {
            Err(m) => {
                return Err(m);
            },
            Ok(row) => {
                let ghost prev = out@;
                let ghost p = (row.id, row.cells@);
                out.push(row);
                proof {
                    assert(rows_pairs(out@) =~= rows_pairs(prev) + seq![p]);
                    let sd = spec_decode_rows(items@.skip(i as int + 1));
                    if sd is Ok {
                        let rest = sd->Ok_0;
                        assert(rows_pairs(prev) + (seq![p] + rest) =~= rows_pairs(out@) + rest);
                    }
                }
            },
        }
        i += 1;
    }
    proof {
        assert(items@.skip(n as int) =~= Seq::<Json>::empty());
        assert(rows_pairs(out@) + Seq::<(RowId, Seq<Cell>)>::empty() =~= rows_pairs(out@));
    }
    Ok(out)
}

/// A decoded index preserves its entries: when every entry decodes,
/// the result has exactly one header per entry, in input order, each
/// the decode of its own entry (so with that entry's id and name).
pub proof fn lemma_headers_preserve_entries(items: Seq<Json>)
    ensures
        spec_decode_headers(items) matches Ok(hs) ==> hs.len() == items.len() && forall|i: int|
            0 <= i < items.len() ==> spec_decode_header(#[trigger] items[i]) == Ok::<
                SheetHeader,
                Seq<char>,
            >(hs[i]),
    decreases items.len(),
{
    if items.len() > 0 {
        lemma_headers_preserve_entries(items.skip(1));
        if spec_decode_headers(items) is Ok {
            let hs = spec_decode_headers(items)->Ok_0;
            let rest = spec_decode_headers(items.skip(1))->Ok_0;
            assert(hs == seq![spec_decode_header(items[0])->Ok_0] + rest);
            assert(forall|i: int|
                0 < i < items.len() ==> #[trigger] items[i] == items.skip(1)[i - 1]);
        }
    }
}

/// The sheet index envelope: `{"data": [header, ...]}`.
pub open spec fn spec_decode_index(j: Json) -> Result<Seq<SheetHeader>, Seq<char>> {
    match spec_get(j, "data"@) {
        None => Err("missing field `data`"@),
        Some(Json::Arr(items)) => spec_decode_headers(items@),
        Some(_) => Err("invalid field `data`"@),
    }
}

pub fn decode_index(j: &Json) -> (r: Result<Vec<SheetHeader>, String>)
    ensures
        match (r, spec_decode_index(*j)) {
            (Ok(hs), Ok(v)) => hs@ == v,
            (Err(m), Err(d)) => m@ == d,
            _ => false,
        },
{
    match get_field(j, "data") {
        None => Err("missing field `data`".to_owned()),
        Some(Json::Arr(items)) => decode_headers(items),
        Some(_) => Err("invalid field `data`".to_owned()),
    }
}

/// The row-update envelope: `{"result": [row, ...]}`.
pub open spec fn spec_decode_result_rows(j: Json) -> Result<Seq<(RowId, Seq<Cell>)>, Seq<char>> {
    match spec_get(j, "result"@) {
        None => Err("missing field `result`"@),
        Some(Json::Arr(items)) => spec_decode_rows(items@),
        Some(_) => Err("invalid field `result`"@),
    }
}

pub fn decode_result_rows(j: &Json) -> (r: Result<Vec<Row>, String>)
    ensures
        match (r, spec_decode_result_rows(*j)) {
            (Ok(rows), Ok(v)) => rows_pairs(rows@) == v,
            (Err(m), Err(d)) => m@ == d,
            _ => false,
        },
{
    match get_field(j, "result") {
        None => Err("missing field `result`".to_owned()),
        Some(Json::Arr(items)) => decode_rows(items),
        Some(_) => Err("invalid field `result`".to_owned()),
    }
}

/// The structured error payload: `{"errorCode": u64, "message": string}`.
pub open spec fn spec_decode_api_error(j: Json) -> Result<crate::dto::Error, Seq<char>> {
    match spec_u64_field(
        j,
        "errorCode"@,
        "missing field `errorCode`"@,
        "invalid field `errorCode`"@,
    ) {
        Err(d) => Err(d),
        Ok(code) => match spec_str_field(
            j,
            "message"@,
            "missing field `message`"@,
            "invalid field `message`"@,
        ) {
            Err(d) => Err(d),
            Ok(message) => Ok(crate::dto::Error { error_code: code, message }),
        },
    }
}

pub fn decode_api_error(j: &Json) -> (r: Result<crate::dto::Error, String>)
    ensures
        match (r, spec_decode_api_error(*j)) {
            (Ok(e), Ok(v)) => e == v,
            (Err(m), Err(d)) => m@ == d,
            _ => false,
        },
{
    let code = match u64_field(j, "errorCode", "missing field `errorCode`", "invalid field `errorCode`") {
        Ok(u) => u,
        Err(m) => {
            return Err(m);
        },
    };
    let message = match str_field(j, "message", "missing field `message`", "invalid field `message`") {
        Ok(s) => s,
        Err(m) => {
            return Err(m);
        },
    };
    Ok(crate::dto::Error { error_code: code, message })
}

/// What a decoded sheet holds, at specification level.
pub struct SheetData {
    pub id: u64,
    pub name: String,
    pub columns: Seq<Column>,
    pub rows: Seq<(RowId, Seq<Cell>)>,
}

/// A full sheet: flattened header fields, the schema columns and the
/// row list. `{"id": u64, "name": string, "columns": [...], "rows": [...]}`.
pub open spec fn spec_decode_sheet(j: Json) -> Result<SheetData, Seq<char>> {
    match spec_u64_field(j, "id"@, "missing field `id`"@, "invalid field `id`"@) {
        Err(d) => Err(d),
        Ok(u) => match spec_str_field(j, "name"@, "missing field `name`"@, "invalid field `name`"@) {
            Err(d) => Err(d),
            Ok(name) => match spec_get(j, "columns"@) {
                None => Err("missing field `columns`"@),
                Some(Json::Arr(cols)) => match spec_decode_columns(cols@) {
                    Err(d) => Err(d),
                    Ok(columns) => match spec_get(j, "rows"@) {
                        None => Err("missing field `rows`"@),
                        Some(Json::Arr(rws)) => match spec_decode_rows(rws@) {
                            Err(d) => Err(d),
                            Ok(rows) => Ok(SheetData { id: u, name, columns, rows }),
                        },
                        Some(_) => Err("invalid field `rows`"@),
                    },
                },
                Some(_) => Err("invalid field `columns`"@),
            },
        },
    }
}

/// The last pair of `pairs` keyed `k`: the entry that survives merging
/// the pairs, in order, into a row store.
pub open spec fn spec_last_pair(pairs: Seq<(RowId, Seq<Cell>)>, k: u64) -> Option<
    (RowId, Seq<Cell>),
>
    decreases pairs.len(),
{
    if pairs.len() == 0 {
        None
    } else {
        match spec_last_pair(pairs.skip(1), k) {
            Some(p) => Some(p),
            None => if pairs[0].0.id == k {
                Some(pairs[0])
            } else {
                None
            },
        }
    }
}

/// The row store holds exactly the merge of the decoded row pairs:
/// for every id, the stored row is the last decoded row with that id.
pub open spec fn rows_correspond(pairs: Seq<(RowId, Seq<Cell>)>, store: Seq<Row>) -> bool {
    forall|k: u64|
        match #[trigger] spec_last_pair(pairs, k) {
            Some(p) => spec_row_lookup(store, k) matches Some(r) && r.id == p.0 && r.cells@ == p.1,
            None => spec_row_lookup(store, k) is None,
        }
}

/// The survivor among rows and the survivor among their pairs agree.
pub proof fn lemma_last_with_pairs(rows: Seq<Row>, k: u64)
    ensures
        match spec_last_with(rows, k) {
            Some(r) => spec_last_pair(rows_pairs(rows), k) == Some((r.id, r.cells@)),
            None => spec_last_pair(rows_pairs(rows), k) is None,
        },
    decreases rows.len(),
{
    if rows.len() > 0 {
        assert(rows_pairs(rows).skip(1) =~= rows_pairs(rows.skip(1)));
        lemma_last_with_pairs(rows.skip(1), k);
        assert(rows_pairs(rows)[0] == (rows[0].id, rows[0].cells@));
    }
}

pub fn decode_sheet(j: &Json) -> (r: Result<Sheet, String>)
    ensures
        match (r, spec_decode_sheet(*j)) {
            (Ok(s), Ok(v)) => s.header.id.id == v.id && s.header.name == v.name && s.columns@
                == v.columns && s.wf() && rows_correspond(v.rows, s.rows@),
            (Err(m), Err(d)) => m@ == d,
            _ => false,
        },
{
    let u = match u64_field(j, "id", "missing field `id`", "invalid field `id`") {
        Ok(u) => u,
        Err(m) => {
            return Err(m);
        },
    };
    let name = match str_field(j, "name", "missing field `name`", "invalid field `name`") {
        Ok(s) => s,
        Err(m) => {
            return Err(m);
        },
    };
    let columns = match get_field(j, "columns") {
        None => {
            return Err("missing field `columns`".to_owned());
        },
        Some(Json::Arr(cols)) => match decode_columns(cols) {
            Err(m) => {
                return Err(m);
            },
            Ok(columns) => columns,
        },
        Some(_) => {
            return Err("invalid field `columns`".to_owned());
        },
    };
    let rows = match get_field(j, "rows") {
        None => {
            return Err("missing field `rows`".to_owned());
        },
        Some(Json::Arr(rws)) => match decode_rows(rws) {
            Err(m) => {
                return Err(m);
            },
            Ok(rows) => rows,
        },
        Some(_) => {
            return Err("invalid field `rows`".to_owned());
        },
    };
    let ghost decoded = rows@;
    let mut sheet = Sheet {
        header: SheetHeader { id: SheetId { id: u }, name },
        columns,
        rows: Vec::new(),
    };
    proof {
        assert(rows_sorted(sheet.rows@));
    }
    sheet.update_rows(rows);
    proof {
        let ghost v = spec_decode_sheet(*j)->Ok_0;
        assert(rows_map(sheet.rows@) == spec_merge(rows_map(Seq::<Row>::empty()), decoded));
        assert(rows_map(Seq::<Row>::empty()) =~= Map::<u64, Row>::empty());
        assert(rows_map(sheet.rows@) == spec_merge(Map::<u64, Row>::empty(), decoded));
        lemma_sorted_unique(sheet.rows@);
        assert forall|k: u64|
            match #[trigger] spec_last_pair(v.rows, k) {
                Some(p) => spec_row_lookup(sheet.rows@, k) matches Some(r) && r.id == p.0
                    && r.cells@ == p.1,
                None => spec_row_lookup(sheet.rows@, k) is None,
            } by {
            lemma_merge_char(Map::<u64, Row>::empty(), decoded, k);
            lemma_last_with_pairs(decoded, k);
            lemma_store_is_map(sheet.rows@, k);
            assert(rows_pairs(decoded) == v.rows);
        }
    }
    Ok(sheet)
}

} // verus!
