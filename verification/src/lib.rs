//! Book metadata from the OpenLibrary catalog: identifier normalisation,
//! record extraction, merging, de-duplication, lookup planning and output
//! mapping, each with its contract.
//!
//! - `text`: character classes and operations on sequences of characters
//! - `normalize`: catalog identifiers, ISBNs, years, slugs and relation keys
//! - `urls`: the catalog's addresses and percent-encoding
//! - `record`: the response shapes and the book record
//! - `extract`: from a response to a book record
//! - `merge`: a work and its edition as one record
//! - `dedup`: the first of each key stays
//! - `lookup`: what to fetch for a query, and what to make of the answers
//! - `convert`: from a book record to what is published
//! - `external_ids`: the namespaced forms of identifiers

pub mod convert;
pub mod dedup;
mod external_ids;
pub mod extract;
pub mod lookup;
pub mod merge;
pub mod normalize;
pub mod record;
pub mod text;
pub mod urls;
