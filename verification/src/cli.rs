//! What a run is asked to do, as the command line says it.

use vstd::prelude::*;

verus! {

/// The settings of a run.
#[derive(Debug, Clone, PartialEq, Eq)]
pub struct Args {
    /// What to do.
    pub command: Commands,
    /// The file that the result is written to, if any.
    pub output_file: Option<String>,
    /// Where the first repository's listing is found.
    pub alt_url: String,
    /// Where the second repository's listing is found.
    pub second_url: String,
    /// The file that holds the mapping between the names.
    pub mapping_file: String,
    /// Whether nothing is to be printed.
    pub silent: bool,
}

/// The three things that a run can do.
#[derive(Debug, Clone, PartialEq, Eq)]
pub enum Commands {
    /// Compare the packages and show a table.
    Compare {
        /// Show only the pairs in which the first repository has the newer version.
        alt_newer: bool,
        /// Show only the pairs in which the second repository has the newer version.
        second_newer: bool,
    },
    /// Save the two listings as they were received.
    Fetch {
        /// The directory to save them in.
        dest_dir: String,
    },
    /// Compare the packages and show the counts.
    Stats {
        /// Show the counts as a list.
        detailed: bool,
    },
}

} // verus!
