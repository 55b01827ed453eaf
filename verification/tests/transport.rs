use smartsheet::client::Method;
use smartsheet::dto::JsonNumber;
use smartsheet::json::Json;
use smartsheet::CellValue;
use smartsheet::Client;
use smartsheet::ColumnId;
use smartsheet::Error;
use smartsheet::RowId;
use smartsheet::SheetId;
use smartsheet::Smartsheet;

fn index_body(entries: &str) -> String {
    format!(r#"{{ "data": [ {} ] }}"#, entries)
}

#[test]
fn returns_all_sheets() {
    let client = Client::new_with_url("http://127.0.0.1:1234", "TEST_TOKEN");
    let request = client.list_sheets_request();
    assert_eq!(Method::Get, request.method);
    assert_eq!("http://127.0.0.1:1234/sheets?includeAll=true", request.url);
    assert_eq!("TEST_TOKEN", request.token);
    assert!(request.body.is_none());

    let body = index_body(
        r#"{ "id": 11, "name": "my_sheet" }, { "id": 12, "name": "my_other_sheet" }"#,
    );
    let result = Client::handle_index_response(Ok((200, body)));

    let actual = result.unwrap();
    assert_eq!(2, actual.len());
    assert_eq!("my_sheet", actual[0].get_name());
    assert_eq!(SheetId::from(11), actual[0].get_sheet_id());
    assert_eq!("my_other_sheet", actual[1].get_name());
    assert_eq!(SheetId::from(12), actual[1].get_sheet_id());
}

#[test]
fn then_returns_dto() {
    let body = index_body(r#"{ "id": 123, "name": "my_sheet" }"#);

    let result = Client::handle_index_response(Ok((200, body)));

    assert!(result.is_ok());
}

#[test]
fn client_then_returns_error() {
    let body = r#"{
        "errorCode": 4004,
        "message": "Test error"
    }"#
    .to_string();

    let result = Client::handle_index_response(Ok((500, body)));

    let actual = result.unwrap_err();
    let expected = Error::SmartsheetOther { code: 4004, message: "Test error".to_string() };
    assert_eq!(expected, actual);
}

#[test]
fn client_invalid_json_diagnostic() {
    let body = r#"{
        "Unexpected": "data"
    }"#
    .to_string();

    let result = Client::handle_index_response(Ok((200, body)));

    let actual = result.unwrap_err();
    let expected = Error::InvalidJson("missing field `data`".to_string());
    assert_eq!(expected, actual);
}

#[test]
fn client_network_error() {
    let result = Client::handle_index_response(Err("connection refused".to_string()));

    match result.unwrap_err() {
        Error::Network(detail) => assert_eq!("connection refused", detail),
        other => panic!("Invalid error: '{:?}'", other),
    }
}

#[test]
fn unparsable_body_is_invalid_json() {
    let result = Client::handle_index_response(Ok((200, "not json at all".to_string())));

    assert!(matches!(result.unwrap_err(), Error::InvalidJson(_)));
}

#[test]
fn error_body_that_does_not_decode_is_invalid_json() {
    let result = Client::handle_index_response(Ok((500, r#"{ "message": "oops" }"#.to_string())));

    let actual = result.unwrap_err();
    let expected = Error::InvalidJson("missing field `errorCode`".to_string());
    assert_eq!(expected, actual);
}

#[test]
fn sheet_missing_field_is_invalid_json() {
    let body = r#"{
        "id": 11,
        "name": "my_sheet",
        "rows": []
    }"#
    .to_string();

    let result = Client::handle_sheet_response(Ok((200, body)));

    let actual = result.unwrap_err();
    let expected = Error::InvalidJson("missing field `columns`".to_string());
    assert_eq!(expected, actual);
}

#[test]
fn row_missing_cells_is_invalid_json() {
    let body = r#"{
        "id": 11,
        "name": "my_sheet",
        "columns": [],
        "rows": [ { "id": 31 } ]
    }"#
    .to_string();

    let result = Client::handle_sheet_response(Ok((200, body)));

    let actual = result.unwrap_err();
    let expected = Error::InvalidJson("missing field `cells`".to_string());
    assert_eq!(expected, actual);
}

#[test]
fn get_json_returns_payload() {
    let client = Client::new_with_url("http://127.0.0.1:1234", "TEST_TOKEN");
    let request = client.get_json_request("new_route");
    assert_eq!(Method::Get, request.method);
    assert_eq!("http://127.0.0.1:1234/new_route", request.url);
    assert_eq!("TEST_TOKEN", request.token);
    assert!(request.body.is_none());

    let result = Client::handle_json_response(Ok((200, r#"{ "result": null }"#.to_string())));

    let expected = Json::Obj(vec![("result".to_string(), Json::Null)]);
    assert_eq!(expected, result.unwrap());
}

#[test]
fn post_json_request_carries_body() {
    let client = Client::new_with_url("http://127.0.0.1:1234", "TEST_TOKEN");
    let body = Json::Obj(vec![("key".to_string(), Json::Str("value".to_string()))]);

    let request = client.post_json_request("new_route", &body);

    assert_eq!(Method::Post, request.method);
    assert_eq!("http://127.0.0.1:1234/new_route", request.url);
    let sent: serde_json::Value = serde_json::from_str(&request.body.unwrap()).unwrap();
    let wanted: serde_json::Value = serde_json::from_str(r#"{ "key": "value" }"#).unwrap();
    assert_eq!(wanted, sent);
}

#[test]
fn fetch_sheet_request_writes_id_in_decimal() {
    let client = Client::new_with_url("http://127.0.0.1:1234", "TEST_TOKEN");

    let request = client.fetch_sheet_request(&SheetId::from(11));
    assert_eq!("http://127.0.0.1:1234/sheets/11", request.url);

    let request = client.fetch_sheet_request(&SheetId::from(9876543210));
    assert_eq!("http://127.0.0.1:1234/sheets/9876543210", request.url);

    let request = client.fetch_sheet_request(&SheetId::from(0));
    assert_eq!("http://127.0.0.1:1234/sheets/0", request.url);
}

#[test]
fn default_url_is_the_service() {
    let client = Client::new("TOKEN");

    assert_eq!("https://api.smartsheet.com/2.0", client.url);
    assert_eq!("TOKEN", client.token);
}

#[test]
fn update_request_encodes_every_value_kind() {
    let client = Client::new_with_url("http://127.0.0.1:1234", "TEST_TOKEN");
    let sheet_id = SheetId::from(11);
    let mut row = Smartsheet::make_update_row(
        &ColumnId::from(21),
        &RowId::from(31),
        CellValue::Number(JsonNumber::Double("4004.5".to_string())),
    );
    row.cells.push(smartsheet::dto::Cell::new(ColumnId::from(22), CellValue::Bool(false)));
    row.cells.push(smartsheet::dto::Cell::new(ColumnId::from(23), CellValue::Empty));

    let request = client.update_row_request(&sheet_id, &row);

    assert_eq!("http://127.0.0.1:1234/sheets/11/rows", request.url);
    let sent: serde_json::Value = serde_json::from_str(&request.body.unwrap()).unwrap();
    let wanted: serde_json::Value = serde_json::from_str(
        r#"{
            "id": 31,
            "cells": [
                { "columnId": 21, "value": 4004.5 },
                { "columnId": 22, "value": false },
                { "columnId": 23, "value": null }
            ]
        }"#,
    )
    .unwrap();
    assert_eq!(wanted, sent);
}

#[test]
fn api_error_accessors_expose_payload() {
    let json = smartsheet::json::parse_json(r#"{ "errorCode": 7, "message": "m" }"#).unwrap();
    let error = smartsheet::decode::decode_api_error(&json).unwrap();

    assert_eq!(7, error.get_code());
    assert_eq!("m", error.into_message());
}

#[test]
fn other_error_carries_detail() {
    let error = Error::other("local failure");

    assert_eq!(Error::Other("local failure".to_string()), error);
}
