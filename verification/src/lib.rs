//! Request and response shapes for an HTTP front end over a document
//! database, together with the conversions from the driver's result types
//! into the response records.
//!
//! The records themselves are plain data; the substance of the crate is in
//! [`models::InsertManyResponse::from_result`], which recovers the submission
//! order of generated identifiers from the driver's unordered index map, and
//! in the filter defaulting of the find requests, where an omitted filter
//! stands for the empty, match-all filter.

pub mod driver;
pub mod models;
pub mod order;
