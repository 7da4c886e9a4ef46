//! Field-aware search core for personal-identity records.
//!
//! The crate covers the query language and the query-construction logic of an
//! identity-record search service: parsing compact `field:value` query
//! strings, normalizing clause values, building index queries as a closed
//! tagged type, expanding phone-number lookups across the implicit identity
//! graph, and deduplicating retrieved records.  Executing the resulting
//! queries against an index engine is the caller's business; everything the
//! engine does not own is specified and verified here.

pub mod builder;
pub mod chars;
pub mod fanout;
pub mod fields;
pub mod normalize;
pub mod orchestrate;
pub mod parse;
pub mod record;
pub mod request;
