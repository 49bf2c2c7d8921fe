//! Classification of the contents of a source-code repository: per-file type tallies,
//! framework detection and a best-guess overall project type.
//!
//! The library takes every decision of an analysis and leaves to its caller the work
//! that reaches outside: sending requests, decoding documents, printing.
//!
//! - `locator` finds the owner and the name of a repository in an address.
//! - `tree` holds the listing of a repository and the entries that the analysis works on.
//! - `fetch` plans the requests for the contents of the files and collects what came back.
//! - `rules` holds the rule table for file typing, `signals` the fixed tables by which
//!   frameworks and project types are told.
//! - `analysis` classifies single files and folds the classifications into a report,
//!   with the per-type counts of `tally` and the description that `combine` gives.
//! - `pipeline` strings these together: one step of an analysis for each thing that the
//!   caller reports.
//! - `render` lays out the tree for printing.
//! - `text` holds what the others say of text and the tests that decide it; the tests
//!   work on the bytes of the text, by the facts of `encoding`.

pub mod analysis;
pub mod combine;
pub mod encoding;
pub mod fetch;
pub mod locator;
pub mod pipeline;
pub mod render;
pub mod rules;
pub mod signals;
pub mod tally;
pub mod text;
pub mod tree;
