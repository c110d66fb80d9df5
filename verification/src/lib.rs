//! Finds museums with an art-related web presence in a stream of tagged
//! geographic records.
//!
//! The crate holds the decisions of the extraction pipeline: which records are
//! admitted, how their tags are classified, when the probe of a record's web
//! pages is settled, what the writer task does with each message, and how the
//! failures of a run are tallied.

pub mod contains_osm;
pub mod museum;
pub mod pipeline;
pub mod prober;
pub mod sink;
pub mod tags;
pub mod text;
