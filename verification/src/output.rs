//! What a comparison or its statistics look like when they are shown, and
//! where they go: to a file, to the screen, or to both. Nothing is written
//! here; the caller gets what to write.

use crate::cli::Args;
use crate::comparator::{
    included, outcomes_of, records_for, tally, text_view, PackageComparator, PackageInfoView,
    VersionComparisonResult,
};
use crate::package_map::PackageMap;
use crate::report::{file_table, screen_table, table_view, title, Cell, TableFormatter};
use crate::stats::{stats_text, StatsFormatter};
use vstd::prelude::*;

verus! {

/// A comparison as it is shown.
pub struct ComparisonDisplay {
    /// The line above the table.
    pub header: Cell,
    /// The file to write to, where one was asked for, and the table for it.
    pub file: Option<(String, Vec<Vec<Cell>>)>,
    /// The table for the screen, unless the run is silent.
    pub console: Option<Vec<Vec<Cell>>>,
}

/// The statistics as they are shown.
pub struct StatsDisplay {
    /// The text.
    pub text: String,
    /// The file to write the text to, where one was asked for.
    pub file: Option<String>,
    /// Whether the text is printed.
    pub console: bool,
}

/// The records of a comparison that the two filters ask for.
pub open spec fn listed(
    alt_packages: Map<Seq<char>, Seq<char>>,
    second_packages: Map<Seq<char>, Seq<char>>,
    package_mapping: Map<Seq<char>, Seq<char>>,
    names: Seq<Seq<char>>,
    alt_newer: bool,
    second_newer: bool,
) -> Seq<(PackageInfoView, VersionComparisonResult)> {
    records_for(alt_packages, second_packages, package_mapping, names).filter(
        included(alt_newer, second_newer),
    )
}

/// Compares the packages and lays the result out: a table for the file, where
/// the settings name one, and a table for the screen, unless they ask for
/// silence.
pub fn display_comparison(
    alt_packages: PackageMap,
    second_packages: PackageMap,
    package_mapping: PackageMap,
    alt_newer: bool,
    second_newer: bool,
    args: &Args,
) -> (out: ComparisonDisplay)
    ensures
        out.header@ == title(),
        out.file is Some <==> args.output_file is Some,
        out.file matches Some((path, table)) ==> path@ == args.output_file->0@ && table_view(
            table@,
        ) == file_table(
            listed(
                alt_packages@,
                second_packages@,
                package_mapping@,
                package_mapping.names(),
                alt_newer,
                second_newer,
            ),
        ),
        out.console is Some <==> !args.silent,
        out.console matches Some(table) ==> table_view(table@) == screen_table(
            listed(
                alt_packages@,
                second_packages@,
                package_mapping@,
                package_mapping.names(),
                alt_newer,
                second_newer,
            ),
        ),
{
    let comparator = PackageComparator::new(alt_packages, second_packages, package_mapping);
    let packages_with_comparison = comparator.get_all_packages(alt_newer, second_newer);
    let file = match &args.output_file {
        Some(path) => Some(
            (
                path.clone(),
                TableFormatter::create_formatted_table_for_file(&packages_with_comparison),
            ),
        ),
        None => None,
    };
    let console = if !args.silent {
        Some(TableFormatter::create_formatted_table_for_terminal(&packages_with_comparison))
    } else {
        None
    };
    ComparisonDisplay { header: TableFormatter::title(), file, console }
}

/// Compares the packages and lays the counts out as text, for the file that
/// the settings name and for the screen, unless they ask for silence.
pub fn display_stats(
    alt_packages: PackageMap,
    second_packages: PackageMap,
    package_mapping: PackageMap,
    detailed: bool,
    args: &Args,
) -> (out: StatsDisplay)
    ensures
        out.text@ == stats_text(
            tally(
                outcomes_of(
                    records_for(
                        alt_packages@,
                        second_packages@,
                        package_mapping@,
                        package_mapping.names(),
                    ),
                ),
            ),
            detailed,
        ),
        text_view(out.file) == text_view(args.output_file),
        out.console == !args.silent,
{
    let comparator = PackageComparator::new(alt_packages, second_packages, package_mapping);
    let stats = comparator.calculate_stats();
    let text = StatsFormatter::format_stats(&stats, detailed);
    let file = match &args.output_file {
        Some(path) => Some(path.clone()),
        None => None,
    };
    StatsDisplay { text, file, console: !args.silent }
}

} // verus!
