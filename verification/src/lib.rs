//! Verified decision logic of the Altium library tools: the readers of a
//! request's arguments, the vocabularies and field readers that turn a JSON
//! tool request into library records (pins, schematic graphics, pads, vias,
//! polygon-connect overrides, texts, component bodies, regions), the reading
//! of a whole symbol or footprint object that refuses it for the first
//! record its reader or the caller's check refuses, the search and dry-run
//! preview helpers, the report summaries and style statistics, and the
//! character canvas the render tools draw on.
//! Fractional geometry and file access stay with the caller.
use vstd::prelude::*;

pub mod accepted;
pub mod bodies;
pub mod canvas;
pub mod connect;
pub mod fields;
pub mod footprint;
pub mod json;
pub mod pads;
pub mod primitives;
pub mod query;
pub mod records;
pub mod render;
pub mod requests;
pub mod report;
pub mod shapes;
pub mod style;
pub mod symbol;
pub mod text;
pub mod texts;
pub mod vias;
pub mod vocab;

verus! {

/// The tool server. The library holds the decisions its handlers share
/// (shape and enum vocabularies, record readers, search patterns, previews
/// and statistics) as associated functions; the handlers themselves, which
/// read files and answer requests, stand outside the library.
pub struct McpServer;

} // verus!
