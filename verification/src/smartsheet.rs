//! The session facade: one transport client bound to one fetched
//! sheet.
//!
//! A session only exists in the bound state. Binding happens in two
//! decision steps around the transport: resolve the wanted name
//! against the fetched index (failing with the invalid-name error and
//! asking for nothing more), then hold the sheet fetched by the
//! resolved id. A write builds a single-cell partial row, sends it,
//! and folds the server's confirmed rows back into the sheet; on any
//! failure the sheet is left untouched.
use vstd::prelude::*;
use crate::client::Client;
use crate::client::HttpRequest;
use crate::client::Outcome;
use crate::client::is_error_response;
use crate::client::spec_status_success;
use crate::decode::lemma_last_with_pairs;
use crate::decode::rows_pairs;
use crate::decode::spec_decode_result_rows;
use crate::decode::spec_last_pair;
use crate::dto::Cell;
use crate::dto::CellValue;
use crate::dto::Row;
use crate::dto::SheetHeader;
use crate::dto::spec_column_lookup;
use crate::error::Error;
use crate::ids::ColumnId;
use crate::ids::RowId;
use crate::ids::SheetId;
use crate::json::spec_parse_json;
use crate::sheet::Sheet;
use crate::sheet::lemma_merge_char;
use crate::sheet::lemma_sorted_unique;
use crate::sheet::lemma_store_is_map;
use crate::sheet::rows_map;
use crate::sheet::spec_merge;
use crate::sheet::spec_row_lookup;

verus! {

/// The id of the first index entry named `name`, in index order.
pub open spec fn spec_header_lookup(headers: Seq<SheetHeader>, name: Seq<char>) -> Option<SheetId>
    decreases headers.len(),
{
    if headers.len() == 0 {
        None
    } else if headers[0].name@ == name {
        Some(headers[0].id)
    } else {
        spec_header_lookup(headers.skip(1), name)
    }
}

/// The new row store is the old one with the confirmed rows merged in:
/// for every id, the stored row is the last confirmed row with that
/// id, and an id no confirmed row carries is left as it was.
pub open spec fn rows_merged(
    old_rows: Seq<Row>,
    pairs: Seq<(RowId, Seq<Cell>)>,
    new_rows: Seq<Row>,
) -> bool {
    forall|k: u64|
        match #[trigger] spec_last_pair(pairs, k) {
            Some(p) => spec_row_lookup(new_rows, k) matches Some(r) && r.id == p.0 && r.cells@
                == p.1,
            None => spec_row_lookup(new_rows, k) == spec_row_lookup(old_rows, k),
        }
}

/// How a row-update outcome is folded into a sheet's row store: only a
/// successfully decoded confirmation changes the store, by merge; every
/// failure leaves it exactly as it was and is classified as the
/// transport layer classifies it.
pub open spec fn is_update_applied(
    old_rows: Seq<Row>,
    outcome: Outcome,
    r: Result<(), Error>,
    new_rows: Seq<Row>,
) -> bool {
    match outcome {
        Err(d) => r == Err::<(), Error>(Error::Network(d)) && new_rows == old_rows,
        Ok(p) => if spec_status_success(p.0) {
            match spec_parse_json(p.1@) {
                Err(d) => r == Err::<(), Error>(Error::InvalidJson(d)) && new_rows == old_rows,
                Ok(j) => match spec_decode_result_rows(j) {
                    Err(d) => (r matches Err(er) && er matches Error::InvalidJson(m) && m@ == d)
                        && new_rows == old_rows,
                    Ok(pairs) => r == Ok::<(), Error>(()) && rows_merged(
                        old_rows,
                        pairs,
                        new_rows,
                    ),
                },
            }
        } else {
            is_error_response(spec_parse_json(p.1@), r) && new_rows == old_rows
        },
    }
}

/// One bound session: a transport client and the sheet it fetched.
#[derive(Debug)]
pub struct Smartsheet {
    pub client: Client,
    pub sheet: Sheet,
}

impl Smartsheet {
    /// The session's invariant: its sheet's row store is well formed.
    pub open spec fn wf(&self) -> bool {
        self.sheet.wf()
    }

    /// The first fetch step: resolve the wanted sheet name against the
    /// fetched index. No match is the invalid-name failure, carrying
    /// the name that was searched; nothing further is asked of the
    /// transport in that case.
    pub fn resolve_sheet_id(headers: &Vec<SheetHeader>, sheet_name: &str) -> (r: Result<
        SheetId,
        Error,
    >)
        ensures
            match spec_header_lookup(headers@, sheet_name@) {
                Some(id) => r == Ok::<SheetId, Error>(id),
                None => r matches Err(e) && e matches Error::InvalidSheetName(n) && n@
                    == sheet_name@,
            },
    {
        let wanted: String = sheet_name.to_owned();
        proof {
            assert(headers@.skip(0) =~= headers@);
        }
        let n = headers.len();
        let mut i: usize = 0;
        while i < n
            invariant
                n == headers@.len(),
                i <= n,
                wanted@ == sheet_name@,
                spec_header_lookup(headers@, sheet_name@) == spec_header_lookup(
                    headers@.skip(i as int),
                    sheet_name@,
                ),
            decreases n - i,
        {
            proof {
                assert(headers@.skip(i as int)[0] == headers@[i as int]);
                assert(headers@.skip(i as int).skip(1) =~= headers@.skip(i as int + 1));
            }
            if headers[i].name == wanted {
                return Ok(headers[i].id);
            }
            i += 1;
        }
        proof {
            assert(headers@.skip(n as int) =~= Seq::<SheetHeader>::empty());
        }
        Err(Error::InvalidSheetName(wanted))
    }

    /// The second fetch step: hold the fetched sheet together with a
    /// clone of the client that fetched it.
    pub fn bind(client: &Client, sheet: Sheet) -> (r: Smartsheet)
        requires
            sheet.wf(),
        ensures
            r.client == *client,
            r.sheet == sheet,
            r.wf(),
    {
        Smartsheet { client: client.clone(), sheet }
    }

    /// The id of the first column of the sheet's schema titled
    /// `title`.
    pub fn get_column_id(&self, title: &str) -> (r: Option<ColumnId>)
        ensures
            r == spec_column_lookup(self.sheet.columns@, title@),
    {
        self.sheet.get_column_id(title)
    }

    /// The id of the first row, in store order, that the predicate
    /// accepts.
    pub fn find_row_id<F: Fn(&Row) -> bool>(&self, predicate: F) -> (r: Option<RowId>)
        requires
            forall|row: &Row| #[trigger] call_requires(predicate, (row,)),
        ensures
            match r {
                Some(id) => exists|i: int|
                    0 <= i < self.sheet.rows@.len() && #[trigger] call_ensures(
                        predicate,
                        (&self.sheet.rows@[i],),
                        true,
                    ) && id == self.sheet.rows@[i].id && forall|j: int|
                        0 <= j < i ==> call_ensures(predicate, (&self.sheet.rows@[j],), false),
                None => forall|i: int|
                    0 <= i < self.sheet.rows@.len() ==> call_ensures(
                        predicate,
                        (&self.sheet.rows@[i],),
                        false,
                    ),
            },
    {
        self.sheet.find_row_id(predicate)
    }

    /// The locally cached value of the cell at (`column_id`,
    /// `row_id`).
    pub fn get_cell_value(&self, column_id: &ColumnId, row_id: &RowId) -> (r: Option<&CellValue>)
        ensures
            match r {
                Some(v) => self.sheet.spec_cell_value(column_id.id, row_id.id) == Some(*v),
                None => self.sheet.spec_cell_value(column_id.id, row_id.id) is None,
            },
    {
        self.sheet.get_cell_value(column_id, row_id)
    }

    /// The single-cell partial row a cell write sends.
    pub fn make_update_row(column_id: &ColumnId, row_id: &RowId, cell_value: CellValue) -> (r: Row)
        ensures
            r.id == *row_id,
            r.cells@ =~= seq![Cell { column_id: *column_id, value: cell_value }],
    {
        Row::new(row_id.clone(), Cell::new(column_id.clone(), cell_value))
    }

    /// The first write step: the request that pushes one cell value,
    /// aimed at this session's own sheet.
    pub fn push_request(&self, row: &Row) -> (r: HttpRequest)
        ensures
            r.method == crate::client::Method::Put,
            r.url@ == self.client.url@ + "/sheets/"@ + crate::client::spec_dec(
                self.sheet.header.id.id,
            ) + "/rows"@,
            r.token@ == self.client.token@,
            r.body matches Some(b) && exists|j: crate::json::Json|
                #[trigger] crate::client::is_encoded_row(j, row.id, row.cells@) && b@
                    == crate::json::spec_json_text(j),
    {
        let sheet_id = self.sheet.get_sheet_id();
        self.client.update_row_request(&sheet_id, row)
    }

    /// The second write step: fold the transport's outcome back into
    /// the held sheet. Only a successfully decoded confirmation merges
    /// rows; every failure is propagated unchanged and leaves the
    /// sheet untouched.
    pub fn apply_update_outcome(&mut self, outcome: Outcome) -> (r: Result<(), Error>)
        requires
            old(self).wf(),
        ensures
            final(self).wf(),
            final(self).client == old(self).client,
            final(self).sheet.header == old(self).sheet.header,
            final(self).sheet.columns == old(self).sheet.columns,
            is_update_applied(old(self).sheet.rows@, outcome, r, final(self).sheet.rows@),
    {
        let rows = match Client::handle_update_response(outcome) {
            Err(e) => {
                return Err(e);
            },
            Ok(rows) => rows,
        };
        let ghost old_rows = self.sheet.rows@;
        let ghost decoded = rows@;
        self.sheet.update_rows(rows);
        proof {
            lemma_sorted_unique(old_rows);
            lemma_sorted_unique(self.sheet.rows@);
            let pairs = rows_pairs(decoded);
            assert forall|k: u64|
                match #[trigger] spec_last_pair(pairs, k) {
                    Some(p) => spec_row_lookup(self.sheet.rows@, k) matches Some(r) && r.id == p.0
                        && r.cells@ == p.1,
                    None => spec_row_lookup(self.sheet.rows@, k) == spec_row_lookup(old_rows, k),
                } by {
                lemma_merge_char(rows_map(old_rows), decoded, k);
                lemma_last_with_pairs(decoded, k);
                lemma_store_is_map(self.sheet.rows@, k);
                lemma_store_is_map(old_rows, k);
            }
        }
        Ok(())
    }
}

} // verus!

