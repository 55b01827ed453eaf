//! A typed client library for a spreadsheet-as-a-service REST API:
//! typed identifiers, an in-memory sheet model with cell lookup and
//! row-merge, an error taxonomy, and the request-building and
//! response-classification halves of the HTTP transport. The network
//! send itself stays outside the library: a caller performs each built
//! `HttpRequest` and hands the outcome to the matching handler.

pub mod client;
pub mod decode;
pub mod dto;
pub mod error;
mod ids;
pub mod json;
pub mod sheet;
pub mod smartsheet;

pub use client::Client;
pub use dto::CellValue;
pub use dto::Row;
pub use error::Error;
pub use ids::ColumnId;
pub use ids::RowId;
pub use ids::SheetId;
pub use smartsheet::Smartsheet;
