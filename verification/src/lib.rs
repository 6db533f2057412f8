//! A library for fetching bibliographic references from the zbMATH search
//! site: it builds search URLs, extracts article records from result-page
//! markup, and resolves which article the user means (exact title match or
//! interactive choice), handing the chosen record's citation URL back to the
//! caller for retrieval.

use vstd::prelude::*;

pub mod pipeline;
pub mod scrape;
pub mod select;
pub mod source;
pub mod text;

verus! {

/// Configuration for one run of the pipeline, as assembled by the
/// command-line layer: the (lowercased) search phrase, the mode flags,
/// and the optional input and output file paths.
pub struct Config {
    pub search_phrase: String,

    // Flags:
    pub read_from_file: bool,
    pub exact_title: bool,
    pub save_locally: bool,
    pub search_loosely: bool,
    pub init_seg: bool,
    pub seg: bool,

    // File paths
    pub output_file: Option<String>,
    pub input_file: Option<String>,
}

} // verus!
