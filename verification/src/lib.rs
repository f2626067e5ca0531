//! A small text-search library: it decides which lines of a text match a
//! query, collects the matching lines of a file with their 1-based line
//! numbers, and renders the collected results as human-readable text.
use vstd::prelude::*;

pub mod config;
pub mod matcher;
pub mod render;
pub mod scanner;

pub use matcher::CaseMode;
pub use matcher::line_matches;
pub use render::format_results;
pub use scanner::record_file;
pub use scanner::scan;
pub use scanner::scan_file;
pub use scanner::search;
pub use scanner::search_case_insensitive;

verus! {

/// All matching lines of one file, keyed by the file's path.
#[derive(Debug, PartialEq)]
pub struct GrepResult {
    pub filename: String,
    pub occourences: Vec<GrepOccourence>,
}

/// One matching line: its 1-based line number and its full text.
#[derive(Debug, PartialEq)]
pub struct GrepOccourence {
    pub line_number: u32,
    pub content: String,
}

impl GrepResult {
    pub fn new(filename: String, occourences: Vec<GrepOccourence>) -> (r: Self)
        ensures
            r.filename == filename,
            r.occourences == occourences,
    {
        Self { filename, occourences }
    }
}

impl GrepOccourence {
    pub fn new(line_number: u32, content: String) -> (r: Self)
        ensures
            r.line_number == line_number,
            r.content == content,
    {
        Self { line_number, content }
    }
}

} // verus!
