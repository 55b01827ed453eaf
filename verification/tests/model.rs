use smartsheet::dto::JsonNumber;
use smartsheet::CellValue;
use smartsheet::Client;
use smartsheet::ColumnId;
use smartsheet::RowId;
use smartsheet::SheetId;
use smartsheet::Smartsheet;

fn index_body() -> String {
    r#"{
        "data": [
            {
                "id": 11,
                "name": "my_sheet"
            }
        ]
    }"#
    .to_string()
}

fn sheet_body() -> String {
    r#"{
        "id": 11,
        "name": "my_sheet",
        "columns": [
            { "id": 21, "title": "my_column" },
            { "id": 22, "title": "other_column" }
        ],
        "rows": [
            {
                "id": 31,
                "cells": [
                    { "columnId": 21, "value": "data_21_31" },
                    { "columnId": 22, "value": "data_22_31" }
                ]
            },
            {
                "id": 32,
                "cells": [
                    { "columnId": 21, "value": "data_21_32" }
                ]
            }
        ]
    }"#
    .to_string()
}

fn update_body() -> String {
    r#"{
        "result": [
            {
                "id": 31,
                "cells": [
                    { "columnId": 21, "value": "new_data" },
                    { "columnId": 22, "value": "data_22_31" }
                ]
            }
        ]
    }"#
    .to_string()
}

fn create_smartsheet() -> Smartsheet {
    let client = Client::new_with_url("http://127.0.0.1:1234", "TEST_TOKEN");
    let headers = Client::handle_index_response(Ok((200, index_body()))).unwrap();
    let sheet_id = Smartsheet::resolve_sheet_id(&headers, "my_sheet").unwrap();
    assert_eq!(SheetId::from(11), sheet_id);
    let sheet = Client::handle_sheet_response(Ok((200, sheet_body()))).unwrap();
    Smartsheet::bind(&client, sheet)
}

fn assert_cell_value(expected_str: &str, smartsheet: &Smartsheet, column_id: u64, row_id: u64) {
    let expected = &CellValue::from(expected_str);
    let actual = smartsheet
        .get_cell_value(&ColumnId::from(column_id), &RowId::from(row_id))
        .unwrap_or_else(|| panic!("Cell not found for column {} and row {}", column_id, row_id));
    assert_eq!(expected, actual, "Invalid cell value for column {} and row {}", column_id, row_id);
}

#[test]
fn then_returns_smartsheet() {
    let smartsheet = create_smartsheet();

    assert_eq!(SheetId::from(11), smartsheet.sheet.get_sheet_id());
    assert_eq!("my_sheet", smartsheet.sheet.header.get_name());
}

#[test]
fn smartsheet_then_returns_error() {
    let headers = Client::handle_index_response(Ok((200, index_body()))).unwrap();

    let result = Smartsheet::resolve_sheet_id(&headers, "nonexistent");

    let actual = result.unwrap_err();
    let expected = smartsheet::Error::InvalidSheetName("nonexistent".to_string());
    assert_eq!(expected, actual);
}

#[test]
fn smartsheet_then_returns_id() {
    let smartsheet = create_smartsheet();

    let result = smartsheet.get_column_id("my_column");

    let expected = ColumnId::from(21);
    assert_eq!(expected, result.unwrap());
}

#[test]
fn smartsheet_then_returns_none() {
    let smartsheet = create_smartsheet();

    let result = smartsheet.get_column_id("nonexistent");

    assert!(result.is_none());
}

#[test]
fn then_returns_id() {
    let smartsheet = create_smartsheet();
    let column_id = &ColumnId::from(21);
    let searched = &CellValue::from("data_21_31");

    let result = smartsheet.find_row_id(|row| row.get_cell_value(column_id) == Some(searched));

    let expected = RowId::from(31);
    assert_eq!(expected, result.unwrap());
}

#[test]
fn then_returns_none() {
    let smartsheet = create_smartsheet();
    let column_id = &ColumnId::from(21);
    let searched = &CellValue::from("nonexistent");

    let result = smartsheet.find_row_id(|row| row.get_cell_value(column_id) == Some(searched));

    assert!(result.is_none());
}

#[test]
fn find_row_id_returns_first_match_in_store_order() {
    let smartsheet = create_smartsheet();

    let result = smartsheet.find_row_id(|_| true);

    assert_eq!(RowId::from(31), result.unwrap());
}

#[test]
fn cell_lookup_distinguishes_absent_cells() {
    let client = Client::new_with_url("http://127.0.0.1:1234", "TEST_TOKEN");
    let body = r#"{
        "id": 11,
        "name": "my_sheet",
        "columns": [
            { "id": 21, "title": "A" },
            { "id": 22, "title": "B" }
        ],
        "rows": [
            {
                "id": 31,
                "cells": [
                    { "columnId": 21, "value": "x" },
                    { "columnId": 22, "value": "y" }
                ]
            },
            {
                "id": 32,
                "cells": [
                    { "columnId": 21, "value": "z" }
                ]
            }
        ]
    }"#
    .to_string();
    let sheet = Client::handle_sheet_response(Ok((200, body))).unwrap();
    let smartsheet = Smartsheet::bind(&client, sheet);

    assert_eq!(Some(ColumnId::from(21)), smartsheet.get_column_id("A"));
    assert_eq!(
        Some(&CellValue::Text("z".to_string())),
        smartsheet.get_cell_value(&ColumnId::from(21), &RowId::from(32))
    );
    assert_eq!(None, smartsheet.get_cell_value(&ColumnId::from(22), &RowId::from(32)));
}

#[test]
fn updates_sheet() {
    let mut smartsheet = create_smartsheet();
    let column_id = &ColumnId::from(21);
    let row_id = &RowId::from(31);
    let cell_value = CellValue::from("new_data");

    let row = Smartsheet::make_update_row(column_id, row_id, cell_value);
    let request = smartsheet.push_request(&row);
    assert_eq!("http://127.0.0.1:1234/sheets/11/rows", request.url);
    assert_eq!("TEST_TOKEN", request.token);
    let sent: serde_json::Value = serde_json::from_str(&request.body.unwrap()).unwrap();
    let wanted: serde_json::Value = serde_json::from_str(
        r#"{
            "id": 31,
            "cells": [
                { "columnId": 21, "value": "new_data" }
            ]
        }"#,
    )
    .unwrap();
    assert_eq!(wanted, sent);

    let result = smartsheet.apply_update_outcome(Ok((200, update_body())));

    assert!(result.is_ok());
    assert_cell_value("new_data", &smartsheet, 21, 31);
    assert_cell_value("data_22_31", &smartsheet, 22, 31);
    assert_cell_value("data_21_32", &smartsheet, 21, 32);
}

#[test]
fn merge_twice_is_merge_once() {
    let mut once = create_smartsheet();
    let mut twice = create_smartsheet();

    once.apply_update_outcome(Ok((200, update_body()))).unwrap();
    twice.apply_update_outcome(Ok((200, update_body()))).unwrap();
    twice.apply_update_outcome(Ok((200, update_body()))).unwrap();

    assert_eq!(once.sheet, twice.sheet);
}

#[test]
fn failed_update_leaves_sheet_untouched() {
    let mut smartsheet = create_smartsheet();
    let before = Client::handle_sheet_response(Ok((200, sheet_body()))).unwrap();

    let result = smartsheet.apply_update_outcome(Err("connection refused".to_string()));

    assert!(matches!(result.unwrap_err(), smartsheet::Error::Network(_)));
    assert_eq!(before, smartsheet.sheet);
}

#[test]
fn rejected_update_keeps_sheet_and_reports_remote_error() {
    let mut smartsheet = create_smartsheet();
    let before = Client::handle_sheet_response(Ok((200, sheet_body()))).unwrap();
    let error_body = r#"{ "errorCode": 4004, "message": "Test error" }"#.to_string();

    let result = smartsheet.apply_update_outcome(Ok((500, error_body)));

    let expected = smartsheet::Error::SmartsheetOther { code: 4004, message: "Test error".to_string() };
    assert_eq!(expected, result.unwrap_err());
    assert_eq!(before, smartsheet.sheet);
}

#[test]
fn number_cells_keep_their_json_form() {
    let client = Client::new_with_url("http://127.0.0.1:1234", "TEST_TOKEN");
    let body = r#"{
        "id": 11,
        "name": "numbers",
        "columns": [
            { "id": 21, "title": "n" }
        ],
        "rows": [
            { "id": 31, "cells": [ { "columnId": 21, "value": 4004 } ] },
            { "id": 32, "cells": [ { "columnId": 21, "value": -5 } ] },
            { "id": 33, "cells": [ { "columnId": 21, "value": 4004.5 } ] },
            { "id": 34, "cells": [ { "columnId": 21, "value": true } ] },
            { "id": 35, "cells": [ { "columnId": 21, "value": null } ] },
            { "id": 36, "cells": [ { "columnId": 21 } ] }
        ]
    }"#
    .to_string();
    let sheet = Client::handle_sheet_response(Ok((200, body))).unwrap();
    let smartsheet = Smartsheet::bind(&client, sheet);
    let c = &ColumnId::from(21);

    assert_eq!(
        Some(&CellValue::Number(JsonNumber::PosInt(4004))),
        smartsheet.get_cell_value(c, &RowId::from(31))
    );
    assert_eq!(
        Some(&CellValue::Number(JsonNumber::NegInt(-5))),
        smartsheet.get_cell_value(c, &RowId::from(32))
    );
    assert_eq!(
        Some(&CellValue::Number(JsonNumber::Double("4004.5".to_string()))),
        smartsheet.get_cell_value(c, &RowId::from(33))
    );
    assert_eq!(Some(&CellValue::Bool(true)), smartsheet.get_cell_value(c, &RowId::from(34)));
    assert_eq!(Some(&CellValue::Empty), smartsheet.get_cell_value(c, &RowId::from(35)));
    assert_eq!(Some(&CellValue::Empty), smartsheet.get_cell_value(c, &RowId::from(36)));
}

#[test]
fn as_text_narrows_only_text() {
    assert_eq!(Some("abc"), CellValue::from("abc").as_text());
    assert_eq!(None, CellValue::Bool(true).as_text());
    assert_eq!(None, CellValue::Empty.as_text());
    let defaulted: CellValue = Default::default();
    assert_eq!(CellValue::Empty, defaulted);
}
