//! A verified streaming transformer for a protein-sequence archive.
//!
//! The archive arrives as one long markup document, entry after entry. An
//! unverified shell tokenizes the document and feeds the events to this
//! library, which accumulates one entry's working set at a time, normalizes
//! repeated property values into dense per-entry surrogate keys, reassembles
//! multi-fragment domain matches, and emits tab-separated rows for a fixed
//! set of relational tables.

pub mod driver;
pub mod handlers;
pub mod model;
pub mod properties;
pub mod text;
pub mod writer;
