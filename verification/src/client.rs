//! The transport client: immutable configuration (base URL and bearer
//! token), the request each operation sends, and the classification of
//! each response into a payload or the error taxonomy.
//!
//! The network send itself is outside the library; a caller performs
//! the built `HttpRequest` and hands the outcome — either a status and
//! body, or a transport failure detail — back to the matching
//! response handler.
use vstd::prelude::*;
use crate::decode::decode_api_error;
use crate::decode::decode_index;
use crate::decode::decode_result_rows;
use crate::decode::decode_sheet;
use crate::decode::rows_correspond;
use crate::decode::rows_pairs;
use crate::decode::spec_decode_api_error;
use crate::decode::spec_decode_index;
use crate::decode::spec_decode_result_rows;
use crate::decode::spec_decode_sheet;
use crate::dto::Cell;
use crate::dto::CellValue;
use crate::dto::JsonNumber;
use crate::dto::Row;
use crate::dto::SheetHeader;
use crate::error::Error;
use crate::ids::SheetId;
use crate::json::Json;
use crate::json::json_to_string;
use crate::json::parse_json;
use crate::json::spec_json_text;
use crate::json::spec_parse_json;
use crate::sheet::Sheet;

verus! {

/// The service's default base URL.
pub const DEFAULT_URL: &'static str = "https://api.smartsheet.com/2.0";

/// The HTTP method of a request.
#[derive(Clone, Copy, Debug, PartialEq, Eq, Structural)]
pub enum Method {
    Get,
    Post,
    Put,
}

/// One request for the transport to perform: method, full URL, the
/// bearer token to attach, and an optional JSON body.
#[derive(Debug)]
pub struct HttpRequest {
    pub method: Method,
    pub url: String,
    pub token: String,
    pub body: Option<String>,
}

/// What the transport hands back: a status code with the body text,
/// or the detail of a transport failure that yielded no response.
pub type Outcome = Result<(u16, String), String>;

/// The transport client: an immutable base URL and bearer token.
#[derive(Debug)]
pub struct Client {
    pub url: String,
    pub token: String,
}

impl Clone for Client {
    fn clone(&self) -> (r: Self)
        ensures
            r == *self,
    {
        Client { url: self.url.clone(), token: self.token.clone() }
    }
}

/// The decimal digits of `n`, most significant first.
pub open spec fn spec_dec(n: u64) -> Seq<char>
    decreases n,
{
    if n < 10 {
        spec_digit(n)
    } else {
        spec_dec(n / 10) + spec_digit(n % 10)
    }
}

/// One decimal digit as text.
pub open spec fn spec_digit(d: u64) -> Seq<char> {
    if d == 0 {
        "0"@
    } else if d == 1 {
        "1"@
    } else if d == 2 {
        "2"@
    } else if d == 3 {
        "3"@
    } else if d == 4 {
        "4"@
    } else if d == 5 {
        "5"@
    } else if d == 6 {
        "6"@
    } else if d == 7 {
        "7"@
    } else if d == 8 {
        "8"@
    } else {
        "9"@
    }
}

fn digit_str(d: u64) -> (r: &'static str)
    requires
        d < 10,
    ensures
        r@ == spec_digit(d),
{
    if d == 0 {
        "0"
    } else if d == 1 {
        "1"
    } else if d == 2 {
        "2"
    } else if d == 3 {
        "3"
    } else if d == 4 {
        "4"
    } else if d == 5 {
        "5"
    } else if d == 6 {
        "6"
    } else if d == 7 {
        "7"
    } else if d == 8 {
        "8"
    } else {
        "9"
    }
}

/// `n` written in decimal.
pub fn u64_to_dec(n: u64) -> (r: String)
    ensures
        r@ == spec_dec(n),
    decreases n,
{
    if n < 10 {
        digit_str(n).to_owned()
    } else {
        let mut s = u64_to_dec(n / 10);
        s.append(digit_str(n % 10));
        s
    }
}

/// An HTTP status that counts as success.
pub open spec fn spec_status_success(status: u16) -> bool {
    200 <= status < 300
}

/// How a response body is read on a non-success status: the structured
/// error payload becomes the service's own error; a body that fails to
/// parse or decode becomes an invalid-JSON error.
pub open spec fn is_error_response<T>(parsed: Result<Json, String>, r: Result<T, Error>) -> bool {
    match parsed {
        Err(d) => r == Err::<T, Error>(Error::InvalidJson(d)),
        Ok(j) => match spec_decode_api_error(j) {
            Ok(e) => r == Err::<T, Error>(
                Error::SmartsheetOther { code: e.error_code, message: e.message },
            ),
            Err(d) => r matches Err(er) && er matches Error::InvalidJson(m) && m@ == d,
        },
    }
}

/// How a whole outcome is classified down to a parsed JSON payload:
/// no response is a network error; a non-success status is read as the
/// error payload; a success status must parse.
pub open spec fn is_json_handled(outcome: Outcome, r: Result<Json, Error>) -> bool {
    match outcome {
        Err(d) => r == Err::<Json, Error>(Error::Network(d)),
        Ok(p) => if spec_status_success(p.0) {
            match spec_parse_json(p.1@) {
                Ok(j) => r == Ok::<Json, Error>(j),
                Err(d) => r == Err::<Json, Error>(Error::InvalidJson(d)),
            }
        } else {
            is_error_response(spec_parse_json(p.1@), r)
        },
    }
}

impl Client {
    /// A client against the service's default base URL.
    pub fn new(token: &str) -> (r: Self)
        ensures
            r.url@ == DEFAULT_URL@,
            r.token@ == token@,
    {
        Self::new_with_url(DEFAULT_URL, token)
    }

    /// A client against an explicit base URL.
    pub fn new_with_url(url: &str, token: &str) -> (r: Self)
        ensures
            r.url@ == url@,
            r.token@ == token@,
    {
        Client { url: url.to_owned(), token: token.to_owned() }
    }

    /// The request that lists every sheet: GET the index endpoint with
    /// the flag that disables pagination.
    pub fn list_sheets_request(&self) -> (r: HttpRequest)
        ensures
            r.method == Method::Get,
            r.url@ == self.url@ + "/sheets?includeAll=true"@,
            r.token@ == self.token@,
            r.body is None,
    {
        let mut url = self.url.clone();
        url.append("/sheets?includeAll=true");
        HttpRequest { method: Method::Get, url, token: self.token.clone(), body: None }
    }

    /// The request that fetches one sheet whole: GET the sheet by id.
    pub fn fetch_sheet_request(&self, id: &SheetId) -> (r: HttpRequest)
        ensures
            r.method == Method::Get,
            r.url@ == self.url@ + "/sheets/"@ + spec_dec(id.id),
            r.token@ == self.token@,
            r.body is None,
    {
        let mut url = self.url.clone();
        url.append("/sheets/");
        url.append(u64_to_dec(id.id).as_str());
        HttpRequest { method: Method::Get, url, token: self.token.clone(), body: None }
    }

    /// The request that updates one row: PUT the encoded partial row
    /// to the sheet's rows endpoint.
    pub fn update_row_request(&self, sheet_id: &SheetId, row: &Row) -> (r: HttpRequest)
        ensures
            r.method == Method::Put,
            r.url@ == self.url@ + "/sheets/"@ + spec_dec(sheet_id.id) + "/rows"@,
            r.token@ == self.token@,
            r.body matches Some(b) && exists|j: Json|
                #[trigger] is_encoded_row(j, row.id, row.cells@) && b@ == spec_json_text(j),
    {
        let mut url = self.url.clone();
        url.append("/sheets/");
        url.append(u64_to_dec(sheet_id.id).as_str());
        url.append("/rows");
        let encoded = encode_row(row);
        let body = json_to_string(&encoded);
        proof {
            assert(is_encoded_row(encoded, row.id, row.cells@) && body@ == spec_json_text(
                encoded,
            ));
        }
        HttpRequest { method: Method::Put, url, token: self.token.clone(), body: Some(body) }
    }

    /// The request of the generic GET escape hatch: the base URL, a
    /// separator, and the caller's path.
    pub fn get_json_request(&self, urn: &str) -> (r: HttpRequest)
        ensures
            r.method == Method::Get,
            r.url@ == self.url@ + "/"@ + urn@,
            r.token@ == self.token@,
            r.body is None,
    {
        let mut url = self.url.clone();
        url.append("/");
        url.append(urn);
        HttpRequest { method: Method::Get, url, token: self.token.clone(), body: None }
    }

    /// The request of the generic POST escape hatch, carrying a JSON
    /// body.
    pub fn post_json_request(&self, urn: &str, body: &Json) -> (r: HttpRequest)
        ensures
            r.method == Method::Post,
            r.url@ == self.url@ + "/"@ + urn@,
            r.token@ == self.token@,
            r.body matches Some(b) && b@ == spec_json_text(*body),
    {
        let mut url = self.url.clone();
        url.append("/");
        url.append(urn);
        let text = json_to_string(body);
        HttpRequest { method: Method::Post, url, token: self.token.clone(), body: Some(text) }
    }

    /// Classifies an outcome down to its parsed JSON payload, mapping
    /// every failure into the error taxonomy.
    pub fn handle_json_response(outcome: Outcome) -> (r: Result<Json, Error>)
        ensures
            is_json_handled(outcome, r),
    {
        match outcome {
            Err(d) => Err(Error::Network(d)),
            Ok((status, body)) => {
                let parsed = parse_json(body.as_str());
                if 200 <= status && status < 300 {
                    match parsed {
                        Ok(j) => Ok(j),
                        Err(d) => Err(Error::InvalidJson(d)),
                    }
                } else {
                    match parsed {
                        Err(d) => Err(Error::InvalidJson(d)),
                        Ok(j) => match decode_api_error(&j) {
                            Ok(e) => Err(
                                Error::SmartsheetOther { code: e.error_code, message: e.message },
                            ),
                            Err(m) => Err(Error::InvalidJson(m)),
                        },
                    }
                }
            },
        }
    }

    /// Reads a list-sheets outcome: every header of the index, in
    /// order, or the classified failure.
    pub fn handle_index_response(outcome: Outcome) -> (r: Result<Vec<SheetHeader>, Error>)
        ensures
            match outcome {
                Err(d) => r == Err::<Vec<SheetHeader>, Error>(Error::Network(d)),
                Ok(p) => if spec_status_success(p.0) {
                    match spec_parse_json(p.1@) {
                        Err(d) => r == Err::<Vec<SheetHeader>, Error>(Error::InvalidJson(d)),
                        Ok(j) => match spec_decode_index(j) {
                            Ok(hs) => r matches Ok(v) && v@ == hs,
                            Err(d) => r matches Err(er) && er matches Error::InvalidJson(m) && m@
                                == d,
                        },
                    }
                } else {
                    is_error_response(spec_parse_json(p.1@), r)
                },
            },
    {
        match Self::handle_json_response(outcome) {
            Err(e) => Err(e),
            Ok(j) => match decode_index(&j) {
                Ok(hs) => Ok(hs),
                Err(m) => Err(Error::InvalidJson(m)),
            },
        }
    }

    /// Reads a fetch-sheet outcome: the decoded sheet, well formed and
    /// corresponding to the response's schema and rows, or the
    /// classified failure.
    pub fn handle_sheet_response(outcome: Outcome) -> (r: Result<Sheet, Error>)
        ensures
            match outcome {
                Err(d) => r == Err::<Sheet, Error>(Error::Network(d)),
                Ok(p) => if spec_status_success(p.0) {
                    match spec_parse_json(p.1@) {
                        Err(d) => r == Err::<Sheet, Error>(Error::InvalidJson(d)),
                        Ok(j) => match spec_decode_sheet(j) {
                            Ok(v) => r matches Ok(s) && s.header.id.id == v.id && s.header.name
                                == v.name && s.columns@ == v.columns && s.wf() && rows_correspond(
                                v.rows,
                                s.rows@,
                            ),
                            Err(d) => r matches Err(er) && er matches Error::InvalidJson(m) && m@
                                == d,
                        },
                    }
                } else {
                    is_error_response(spec_parse_json(p.1@), r)
                },
            },
    {
        match Self::handle_json_response(outcome) {
            Err(e) => Err(e),
            Ok(j) => match decode_sheet(&j) {
                Ok(s) => Ok(s),
                Err(m) => Err(Error::InvalidJson(m)),
            },
        }
    }

    /// Reads a row-update outcome: the confirmed rows the server
    /// echoed, in order, or the classified failure.
    pub fn handle_update_response(outcome: Outcome) -> (r: Result<Vec<Row>, Error>)
        ensures
            match outcome {
                Err(d) => r == Err::<Vec<Row>, Error>(Error::Network(d)),
                Ok(p) => if spec_status_success(p.0) {
                    match spec_parse_json(p.1@) {
                        Err(d) => r == Err::<Vec<Row>, Error>(Error::InvalidJson(d)),
                        Ok(j) => match spec_decode_result_rows(j) {
                            Ok(pairs) => r matches Ok(rows) && rows_pairs(rows@) == pairs,
                            Err(d) => r matches Err(er) && er matches Error::InvalidJson(m) && m@
                                == d,
                        },
                    }
                } else {
                    is_error_response(spec_parse_json(p.1@), r)
                },
            },
    {
        match Self::handle_json_response(outcome) {
            Err(e) => Err(e),
            Ok(j) => match decode_result_rows(&j) {
                Ok(rows) => Ok(rows),
                Err(m) => Err(Error::InvalidJson(m)),
            },
        }
    }
}

/// `j` is the JSON encoding of a cell value: text, number and boolean
/// as their native JSON forms, the empty value as null.
pub open spec fn is_encoded_value(j: Json, v: CellValue) -> bool {
    match v {
        CellValue::Text(s) => j == Json::Str(s),
        CellValue::Number(n) => j == Json::Num(n),
        CellValue::Bool(b) => j == Json::Bool(b),
        CellValue::Empty => j == Json::Null,
    }
}

/// `j` is the JSON encoding of one cell: `{"columnId": ..., "value": ...}`.
pub open spec fn is_encoded_cell(j: Json, c: Cell) -> bool {
    j matches Json::Obj(fields) && fields@.len() == 2 && fields@[0].0@ == "columnId"@
        && fields@[0].1 == Json::Num(JsonNumber::PosInt(c.column_id.id)) && fields@[1].0@
        == "value"@ && is_encoded_value(fields@[1].1, c.value)
}

/// `j` is the JSON encoding of one partial row:
/// `{"id": ..., "cells": [...]}` with the cells in order.
pub open spec fn is_encoded_row(j: Json, id: crate::ids::RowId, cells: Seq<Cell>) -> bool {
    j matches Json::Obj(fields) && fields@.len() == 2 && fields@[0].0@ == "id"@ && fields@[0].1
        == Json::Num(JsonNumber::PosInt(id.id)) && fields@[1].0@ == "cells"@ && (fields@[1].1
        matches Json::Arr(items) && items@.len() == cells.len() && forall|k: int|
        0 <= k < cells.len() ==> is_encoded_cell(#[trigger] items@[k], cells[k]))
}

/// An encoded cell rereads as itself: decoding the JSON encoding of a
/// cell yields exactly that cell.
pub proof fn lemma_encoded_cell_decodes(j: Json, c: Cell)
    requires
        is_encoded_cell(j, c),
    ensures
        crate::decode::spec_decode_cell(j) == Ok::<Cell, Seq<char>>(c),
{
    reveal_strlit("columnId");
    reveal_strlit("value");
    let fields = j->Obj_0;
    assert(crate::json::spec_field(fields@, "columnId"@) == Some(fields@[0].1));
    assert("columnId"@.len() == 8 && "value"@.len() == 5);
    assert(fields@.skip(1)[0] == fields@[1]);
    assert(crate::json::spec_field(fields@.skip(1), "value"@) == Some(fields@[1].1));
    assert(crate::json::spec_field(fields@, "value"@) == Some(fields@[1].1));
    assert(c == (Cell { column_id: c.column_id, value: c.value }));
}

/// An encoded cell list rereads as itself, element by element.
pub proof fn lemma_encoded_cells_decode(items: Seq<Json>, cells: Seq<Cell>)
    requires
        items.len() == cells.len(),
        forall|k: int| 0 <= k < cells.len() ==> is_encoded_cell(#[trigger] items[k], cells[k]),
    ensures
        crate::decode::spec_decode_cells(items) == Ok::<Seq<Cell>, Seq<char>>(cells),
    decreases items.len(),
{
    if items.len() == 0 {
        assert(cells =~= Seq::<Cell>::empty());
    } else {
        lemma_encoded_cell_decodes(items[0], cells[0]);
        assert(forall|k: int|
            0 <= k < cells.skip(1).len() ==> is_encoded_cell(
                #[trigger] items.skip(1)[k],
                cells.skip(1)[k],
            ));
        lemma_encoded_cells_decode(items.skip(1), cells.skip(1));
        assert(seq![cells[0]] + cells.skip(1) =~= cells);
    }
}

/// The update request's body rereads as the partial row it was built
/// from: decoding the JSON encoding of a row yields exactly that
/// row's id and cells.
pub proof fn lemma_encoded_row_decodes(j: Json, id: crate::ids::RowId, cells: Seq<Cell>)
    requires
        is_encoded_row(j, id, cells),
    ensures
        crate::decode::spec_decode_row(j) == Ok::<(crate::ids::RowId, Seq<Cell>), Seq<char>>(
            (id, cells),
        ),
{
    reveal_strlit("id");
    reveal_strlit("cells");
    let fields = j->Obj_0;
    assert(crate::json::spec_field(fields@, "id"@) == Some(fields@[0].1));
    assert("id"@.len() == 2 && "cells"@.len() == 5);
    assert(fields@.skip(1)[0] == fields@[1]);
    assert(crate::json::spec_field(fields@.skip(1), "cells"@) == Some(fields@[1].1));
    assert(crate::json::spec_field(fields@, "cells"@) == Some(fields@[1].1));
    let items = fields@[1].1->Arr_0;
    lemma_encoded_cells_decode(items@, cells);
    assert(id == (crate::ids::RowId { id: id.id }));
}

/// The JSON encoding of one cell value.
pub fn encode_value(v: &CellValue) -> (r: Json)
    ensures
        is_encoded_value(r, *v),
{
    match v {
        CellValue::Text(s) => Json::Str(s.clone()),
        CellValue::Number(n) => Json::Num(n.clone()),
        CellValue::Bool(b) => Json::Bool(*b),
        CellValue::Empty => Json::Null,
    }
}

/// The JSON encoding of one cell.
pub fn encode_cell(c: &Cell) -> (r: Json)
    ensures
        is_encoded_cell(r, *c),
{
    let mut fields: Vec<(String, Json)> = Vec::new();
    fields.push(("columnId".to_owned(), Json::Num(JsonNumber::PosInt(c.column_id.id))));
    fields.push(("value".to_owned(), encode_value(&c.value)));
    Json::Obj(fields)
}

/// The JSON encoding of one partial row, as the update request sends
/// it.
pub fn encode_row(row: &Row) -> (r: Json)
    ensures
        is_encoded_row(r, row.id, row.cells@),
{
    let mut items: Vec<Json> = Vec::new();
    let n = row.cells.len();
    let mut i: usize = 0;
    while i < n
        invariant
            n == row.cells@.len(),
            i <= n,
            items@.len() == i,
            forall|k: int| 0 <= k < i ==> is_encoded_cell(#[trigger] items@[k], row.cells@[k]),
        decreases n - i,
    {
        items.push(encode_cell(&row.cells[i]));
        i += 1;
    }
    let mut fields: Vec<(String, Json)> = Vec::new();
    fields.push(("id".to_owned(), Json::Num(JsonNumber::PosInt(row.id.id))));
    fields.push(("cells".to_owned(), Json::Arr(items)));
    Json::Obj(fields)
}

} // verus!
