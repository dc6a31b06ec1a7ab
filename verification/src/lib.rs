//! Track search for a music catalogue: building the search request, mapping
//! the decoded response onto tracks, flattening tracks into rows of a local
//! table and back, and laying out the report.
//!
//! Everything here works on plain values. Sending the request, reading the
//! response, and talking to the database are left to the caller.

pub mod client;
pub mod json;
pub mod mapper;
pub mod model;
pub mod names;
pub mod query;
pub mod report;
pub mod store;
