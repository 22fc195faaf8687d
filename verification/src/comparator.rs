//! The comparison itself: for each pair of names that the mapping holds, the
//! versions that the two repositories list, and which of them is the newer.

use crate::package_map::PackageMap;
use crate::version::{
    parses_as_version, precedence_of, version_parses, version_precedence, Precedence,
};
use vstd::prelude::*;
use vstd::string::StringExecFns;

verus! {

/// What the comparison of one pair comes to.
#[derive(Debug, Clone, Copy, PartialEq, Eq, Structural)]
pub enum VersionComparisonResult {
    /// Both versions can be ordered, and the first repository has the newer.
    AltNewer,
    /// Both versions can be ordered, and the second repository has the newer.
    SecondNewer,
    /// Both versions can be ordered, and neither is newer.
    Equal,
    /// Only the second repository has a version that can be ordered.
    AltMissing,
    /// Only the first repository has a version that can be ordered.
    SecondMissing,
    /// Neither repository has a version that can be ordered.
    BothMissing,
}

/// The four counts of the statistics.
#[derive(Debug, Clone, Copy, PartialEq, Eq, Structural)]
pub enum Bucket {
    AltNewer,
    SecondNewer,
    Equal,
    Missing,
}

/// How many pairs came to what: the three ways in which a version is missing
/// are counted as one.
#[derive(Debug, Clone, Copy, PartialEq, Eq)]
pub struct PackageStats {
    pub alt_newer: usize,
    pub second_newer: usize,
    pub equal: usize,
    pub missing: usize,
}

/// One pair of the mapping with the versions found for it. A repository that
/// does not list the package has no version.
#[derive(Debug, Clone, PartialEq, Eq)]
pub struct PackageInfo {
    pub name: String,
    pub alt_version: Option<String>,
    pub second_version: Option<String>,
}

/// What a `PackageInfo` holds, as values.
pub struct PackageInfoView {
    pub name: Seq<char>,
    pub alt_version: Option<Seq<char>>,
    pub second_version: Option<Seq<char>>,
}

impl View for PackageInfo {
    type V = PackageInfoView;

    open spec fn view(&self) -> PackageInfoView {
        PackageInfoView {
            name: self.name@,
            alt_version: text_view(self.alt_version),
            second_version: text_view(self.second_version),
        }
    }
}

/// The two repositories' listings and the mapping between their names.
pub struct PackageComparator {
    pub alt_packages: PackageMap,
    pub second_packages: PackageMap,
    pub package_mapping: PackageMap,
}

/// The characters of a text that may be missing.
pub open spec fn text_view(text: Option<String>) -> Option<Seq<char>> {
    match text {
        Some(t) => Some(t@),
        None => None,
    }
}

/// What is shown in place of a version that a repository does not list.
pub open spec fn not_found() -> Seq<char> {
    "Not found"@
}

/// A version as it is shown.
pub open spec fn shown_version(version: Option<Seq<char>>) -> Seq<char> {
    match version {
        Some(v) => v,
        None => not_found(),
    }
}

/// The name under which a pair is shown: the one name where both repositories
/// use the same, else both with a slash between.
pub open spec fn display_name(alt_name: Seq<char>, second_name: Seq<char>) -> Seq<char> {
    if alt_name == second_name {
        alt_name
    } else {
        alt_name + " / "@ + second_name
    }
}

/// What stands in a table under a name, if anything.
pub open spec fn lookup(table: Map<Seq<char>, Seq<char>>, name: Seq<char>) -> Option<Seq<char>> {
    if table.contains_key(name) {
        Some(table[name])
    } else {
        None
    }
}

/// The pair of two names with the versions that the listings hold for them.
pub open spec fn info_of(
    alt_packages: Map<Seq<char>, Seq<char>>,
    second_packages: Map<Seq<char>, Seq<char>>,
    alt_name: Seq<char>,
    second_name: Seq<char>,
) -> PackageInfoView {
    PackageInfoView {
        name: display_name(alt_name, second_name),
        alt_version: lookup(alt_packages, alt_name),
        second_version: lookup(second_packages, second_name),
    }
}

/// Whether a version is there and can be ordered.
pub open spec fn is_ordered(version: Option<Seq<char>>) -> bool {
    version matches Some(v) && version_parses(v)
}

/// The outcome for two versions of which it is known whether each can be
/// ordered and, where both can, how the first stands to the second.
pub open spec fn classification(
    alt_ordered: bool,
    second_ordered: bool,
    precedence: Option<Precedence>,
) -> VersionComparisonResult {
    if alt_ordered && second_ordered {
        match precedence {
            Some(Precedence::Higher) => VersionComparisonResult::AltNewer,
            Some(Precedence::Lower) => VersionComparisonResult::SecondNewer,
            _ => VersionComparisonResult::Equal,
        }
    } else if second_ordered {
        VersionComparisonResult::AltMissing
    } else if alt_ordered {
        VersionComparisonResult::SecondMissing
    } else {
        VersionComparisonResult::BothMissing
    }
}

/// The outcome for the versions of one pair.
pub open spec fn outcome(
    alt_version: Option<Seq<char>>,
    second_version: Option<Seq<char>>,
) -> VersionComparisonResult {
    classification(
        is_ordered(alt_version),
        is_ordered(second_version),
        match (alt_version, second_version) {
            (Some(a), Some(b)) => version_precedence(a, b),
            _ => None,
        },
    )
}

/// Whether a pair with this outcome is listed under the two filters. Without a
/// filter every pair is. One filter alone asks for the pairs in which its own
/// side is the newer. Both together ask for the pairs with equal versions.
pub open spec fn is_included(
    comparison: VersionComparisonResult,
    alt_newer: bool,
    second_newer: bool,
) -> bool {
    if alt_newer && second_newer {
        comparison == VersionComparisonResult::Equal
    } else if alt_newer {
        comparison == VersionComparisonResult::AltNewer
    } else if second_newer {
        comparison == VersionComparisonResult::SecondNewer
    } else {
        true
    }
}

/// `is_included` as it is laid on a record.
pub open spec fn included(alt_newer: bool, second_newer: bool) -> spec_fn(
    (PackageInfoView, VersionComparisonResult),
) -> bool {
    |record: (PackageInfoView, VersionComparisonResult)|
        is_included(record.1, alt_newer, second_newer)
}

/// The record for one name of the mapping: the pair and its outcome.
pub open spec fn record_for(
    alt_packages: Map<Seq<char>, Seq<char>>,
    second_packages: Map<Seq<char>, Seq<char>>,
    package_mapping: Map<Seq<char>, Seq<char>>,
    alt_name: Seq<char>,
) -> (PackageInfoView, VersionComparisonResult) {
    let info = info_of(alt_packages, second_packages, alt_name, package_mapping[alt_name]);
    (info, outcome(info.alt_version, info.second_version))
}

/// The records for a row of names of the mapping, in the order of the names.
pub open spec fn records_for(
    alt_packages: Map<Seq<char>, Seq<char>>,
    second_packages: Map<Seq<char>, Seq<char>>,
    package_mapping: Map<Seq<char>, Seq<char>>,
    names: Seq<Seq<char>>,
) -> Seq<(PackageInfoView, VersionComparisonResult)> {
    Seq::new(
        names.len(),
        |i: int| record_for(alt_packages, second_packages, package_mapping, names[i]),
    )
}

/// What a row of records holds, as values.
pub open spec fn record_views(records: Seq<(PackageInfo, VersionComparisonResult)>) -> Seq<
    (PackageInfoView, VersionComparisonResult),
> {
    Seq::new(records.len(), |i: int| (records[i].0@, records[i].1))
}

/// The outcomes of a row of records.
pub open spec fn outcomes_of(records: Seq<(PackageInfoView, VersionComparisonResult)>) -> Seq<
    VersionComparisonResult,
> {
    Seq::new(records.len(), |i: int| records[i].1)
}

/// The count under which an outcome falls.
pub open spec fn bucket_of(comparison: VersionComparisonResult) -> Bucket {
    match comparison {
        VersionComparisonResult::AltNewer => Bucket::AltNewer,
        VersionComparisonResult::SecondNewer => Bucket::SecondNewer,
        VersionComparisonResult::Equal => Bucket::Equal,
        _ => Bucket::Missing,
    }
}

/// How many of the outcomes fall under a count.
pub open spec fn count(outcomes: Seq<VersionComparisonResult>, bucket: Bucket) -> nat
    decreases outcomes.len(),
{
    if outcomes.len() == 0 {
        0
    } else if bucket_of(outcomes.last()) == bucket {
        count(outcomes.drop_last(), bucket) + 1
    } else {
        count(outcomes.drop_last(), bucket)
    }
}

/// The statistics of a row of outcomes.
pub open spec fn tally(outcomes: Seq<VersionComparisonResult>) -> PackageStats {
    PackageStats {
        alt_newer: count(outcomes, Bucket::AltNewer) as usize,
        second_newer: count(outcomes, Bucket::SecondNewer) as usize,
        equal: count(outcomes, Bucket::Equal) as usize,
        missing: count(outcomes, Bucket::Missing) as usize,
    }
}

/// Each outcome falls under one count: the four counts add up to the number of
/// outcomes.
pub proof fn lemma_counts_total(outcomes: Seq<VersionComparisonResult>)
    ensures
        count(outcomes, Bucket::AltNewer) + count(outcomes, Bucket::SecondNewer) + count(
            outcomes,
            Bucket::Equal,
        ) + count(outcomes, Bucket::Missing) == outcomes.len(),
    decreases outcomes.len(),
{
    if outcomes.len() > 0 {
        lemma_counts_total(outcomes.drop_last());
    }
}

/// Without a filter no record is left out.
pub proof fn lemma_unfiltered(records: Seq<(PackageInfoView, VersionComparisonResult)>)
    ensures
        records.filter(included(false, false)) == records,
    decreases records.len(),
{
    reveal(Seq::filter);
    if records.len() > 0 {
        lemma_unfiltered(records.drop_last());
    }
}

/// Whether two texts are the same.
pub fn same_text(a: &str, b: &str) -> (same: bool)
    ensures
        same == (a@ == b@),
{
    let a = a.to_owned();
    let b = b.to_owned();
    a == b
}

/// Computes `display_name`.
pub fn format_package_name(alt_name: &str, second_name: &str) -> (name: String)
    ensures
        name@ == display_name(alt_name@, second_name@),
{
    if same_text(alt_name, second_name) {
        alt_name.to_owned()
    } else {
        let mut name = alt_name.to_owned();
        name.append(" / ");
        name.append(second_name);
        name
    }
}

/// Computes `classification`.
pub fn classify(alt_ordered: bool, second_ordered: bool, precedence: Option<Precedence>) -> (r:
    VersionComparisonResult)
    ensures
        r == classification(alt_ordered, second_ordered, precedence),
{
    if alt_ordered && second_ordered {
        match precedence {
            Some(Precedence::Higher) => VersionComparisonResult::AltNewer,
            Some(Precedence::Lower) => VersionComparisonResult::SecondNewer,
            _ => VersionComparisonResult::Equal,
        }
    } else if second_ordered {
        VersionComparisonResult::AltMissing
    } else if alt_ordered {
        VersionComparisonResult::SecondMissing
    } else {
        VersionComparisonResult::BothMissing
    }
}

impl PackageInfo {
    /// The first repository's version as it is shown.
    pub fn alt_version_text(&self) -> (text: String)
        ensures
            text@ == shown_version(self@.alt_version),
    {
        match &self.alt_version {
            Some(v) => v.clone(),
            None => "Not found".to_owned(),
        }
    }

    /// The second repository's version as it is shown.
    pub fn second_version_text(&self) -> (text: String)
        ensures
            text@ == shown_version(self@.second_version),
    {
        match &self.second_version {
            Some(v) => v.clone(),
            None => "Not found".to_owned(),
        }
    }
}

impl Default for PackageStats {
    /// The statistics of no pairs.
    fn default() -> (stats: Self)
        ensures
            stats.alt_newer == 0,
            stats.second_newer == 0,
            stats.equal == 0,
            stats.missing == 0,
    {
        PackageStats { alt_newer: 0, second_newer: 0, equal: 0, missing: 0 }
    }
}

impl PackageStats {
    /// The number of pairs counted.
    pub open spec fn total(&self) -> int {
        self.alt_newer + self.second_newer + self.equal + self.missing
    }
}

impl PackageComparator {
    /// Takes the two listings and the mapping.
    pub fn new(
        alt_packages: PackageMap,
        second_packages: PackageMap,
        package_mapping: PackageMap,
    ) -> (comparator: Self)
        ensures
            comparator.alt_packages == alt_packages,
            comparator.second_packages == second_packages,
            comparator.package_mapping == package_mapping,
    {
        Self { alt_packages, second_packages, package_mapping }
    }

    /// The records for all pairs of the mapping, in the order in which the
    /// mapping holds them.
    pub open spec fn records(&self) -> Seq<(PackageInfoView, VersionComparisonResult)> {
        records_for(
            self.alt_packages@,
            self.second_packages@,
            self.package_mapping@,
            self.package_mapping.names(),
        )
    }

    /// Looks the two names up, each in its listing.
    pub fn get_package_info(&self, alt_name: &str, second_name: &str) -> (info: PackageInfo)
        ensures
            info@ == info_of(self.alt_packages@, self.second_packages@, alt_name@, second_name@),
    {
        let alt_version = match self.alt_packages.get(alt_name) {
            Some(v) => Some(v.clone()),
            None => None,
        };
        let second_version = match self.second_packages.get(second_name) {
            Some(v) => Some(v.clone()),
            None => None,
        };
        PackageInfo { name: format_package_name(alt_name, second_name), alt_version, second_version }
    }

    /// Decides which of a pair's two versions is the newer.
    pub fn compare_versions(&self, package: &PackageInfo) -> (r: VersionComparisonResult)
        ensures
            r == outcome(package@.alt_version, package@.second_version),
    {
        match (&package.alt_version, &package.second_version) {
            (Some(a), Some(b)) => {
                match precedence_of(a.as_str(), b.as_str()) {
                    Some(p) => classify(true, true, Some(p)),
                    None => classify(
                        parses_as_version(a.as_str()),
                        parses_as_version(b.as_str()),
                        None,
                    ),
                }
            },
            (Some(a), None) => classify(parses_as_version(a.as_str()), false, None),
            (None, Some(b)) => classify(false, parses_as_version(b.as_str()), None),
            (None, None) => classify(false, false, None),
        }
    }

    /// Computes `is_included`.
    pub fn should_include_package(
        &self,
        comparison: &VersionComparisonResult,
        alt_newer: bool,
        second_newer: bool,
    ) -> (r: bool)
        ensures
            r == is_included(*comparison, alt_newer, second_newer),
    {
        if alt_newer && second_newer {
            matches!(comparison, VersionComparisonResult::Equal)
        } else if alt_newer {
            matches!(comparison, VersionComparisonResult::AltNewer)
        } else if second_newer {
            matches!(comparison, VersionComparisonResult::SecondNewer)
        } else {
            true
        }
    }

    /// Compares all pairs of the mapping and lists those that the filters ask
    /// for, in the order in which the mapping holds them. Without a filter
    /// there is one record for each pair.
    pub fn get_all_packages(&self, alt_newer: bool, second_newer: bool) -> (result: Vec<
        (PackageInfo, VersionComparisonResult),
    >)
        ensures
            record_views(result@) == self.records().filter(included(alt_newer, second_newer)),
            !alt_newer && !second_newer ==> result@.len() == self.package_mapping@.len(),
    {
        let mut result: Vec<(PackageInfo, VersionComparisonResult)> = Vec::new();
        let n = self.package_mapping.len();
        let ghost records = self.records();
        let ghost wanted = included(alt_newer, second_newer);
        proof {
            reveal(Seq::filter);
        }
        let mut i: usize = 0;
        while i < n
            invariant
                i <= n,
                n == self.package_mapping.names().len(),
                records == self.records(),
                wanted == included(alt_newer, second_newer),
                record_views(result@) == records.take(i as int).filter(wanted),
            decreases n - i,
        {
            let (alt_name, second_name) = self.package_mapping.entry(i);
            let package = self.get_package_info(alt_name.as_str(), second_name.as_str());
            let comparison = self.compare_versions(&package);
            proof {
                assert(records.take(i + 1) =~= records.take(i as int).push(records[i as int]));
                records.take(i as int).lemma_filter_push(records[i as int], wanted);
            }
            if self.should_include_package(&comparison, alt_newer, second_newer) {
                result.push((package, comparison));
            }
            i += 1;
        }
        proof {
            assert(records.take(n as int) =~= records);
            lemma_unfiltered(records);
        }
        result
    }

    /// Compares all pairs of the mapping and counts the outcomes. Each pair is
    /// counted once.
    pub fn calculate_stats(&self) -> (stats: PackageStats)
        ensures
            stats == tally(outcomes_of(self.records())),
            stats.alt_newer == count(outcomes_of(self.records()), Bucket::AltNewer),
            stats.second_newer == count(outcomes_of(self.records()), Bucket::SecondNewer),
            stats.equal == count(outcomes_of(self.records()), Bucket::Equal),
            stats.missing == count(outcomes_of(self.records()), Bucket::Missing),
            stats.total() == self.package_mapping@.len(),
    {
        let mut stats = PackageStats::default();
        let n = self.package_mapping.len();
        let ghost outcomes = outcomes_of(self.records());
        let mut i: usize = 0;
        while i < n
            invariant
                i <= n,
                n == self.package_mapping.names().len(),
                outcomes == outcomes_of(self.records()),
                stats.alt_newer == count(outcomes.take(i as int), Bucket::AltNewer),
                stats.second_newer == count(outcomes.take(i as int), Bucket::SecondNewer),
                stats.equal == count(outcomes.take(i as int), Bucket::Equal),
                stats.missing == count(outcomes.take(i as int), Bucket::Missing),
                stats.total() == i,
            decreases n - i,
        {
            let (alt_name, second_name) = self.package_mapping.entry(i);
            let package = self.get_package_info(alt_name.as_str(), second_name.as_str());
            let comparison = self.compare_versions(&package);
            proof {
                assert(outcomes.take(i + 1).drop_last() =~= outcomes.take(i as int));
            }
            match comparison {
                VersionComparisonResult::AltNewer => {
                    stats.alt_newer += 1;
                },
                VersionComparisonResult::SecondNewer => {
                    stats.second_newer += 1;
                },
                VersionComparisonResult::Equal => {
                    stats.equal += 1;
                },
                _ => {
                    stats.missing += 1;
                },
            }
            i += 1;
        }
        proof {
            assert(outcomes.take(n as int) =~= outcomes);
        }
        stats
    }
}

} // verus!
