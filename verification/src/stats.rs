//! The statistics as a line of text, or as a list.

use crate::comparator::PackageStats;
use crate::text::push_char;
use vstd::prelude::*;
use vstd::string::StringExecFns;

verus! {

/// The writer of statistics.
pub struct StatsFormatter;

/// The character for a digit.
pub open spec fn digit(d: int) -> char {
    if d == 0 {
        '0'
    } else if d == 1 {
        '1'
    } else if d == 2 {
        '2'
    } else if d == 3 {
        '3'
    } else if d == 4 {
        '4'
    } else if d == 5 {
        '5'
    } else if d == 6 {
        '6'
    } else if d == 7 {
        '7'
    } else if d == 8 {
        '8'
    } else {
        '9'
    }
}

/// A number in decimal digits, without leading zeros.
pub open spec fn decimal(n: nat) -> Seq<char>
    decreases n,
{
    if n < 10 {
        seq![digit(n as int)]
    } else {
        decimal(n / 10).push(digit((n % 10) as int))
    }
}

/// The statistics as text: the four counts, each after its label, as a list
/// under a heading where the detailed form is asked for, else on one line.
pub open spec fn stats_text(stats: PackageStats, detailed: bool) -> Seq<char> {
    if detailed {
        "Package Statistics:\n- ALT newer: "@ + decimal(stats.alt_newer as nat)
            + "\n- Second newer: "@ + decimal(stats.second_newer as nat) + "\n- Equal: "@
            + decimal(stats.equal as nat) + "\n- Missing: "@ + decimal(stats.missing as nat)
    } else {
        "ALT newer: "@ + decimal(stats.alt_newer as nat) + ", Second newer: "@ + decimal(
            stats.second_newer as nat,
        ) + ", Equal: "@ + decimal(stats.equal as nat) + ", Missing: "@ + decimal(
            stats.missing as nat,
        )
    }
}

/// Computes `digit`.
pub fn digit_char(d: usize) -> (c: char)
    requires
        d < 10,
    ensures
        c == digit(d as int),
{
    if d == 0 {
        '0'
    } else if d == 1 {
        '1'
    } else if d == 2 {
        '2'
    } else if d == 3 {
        '3'
    } else if d == 4 {
        '4'
    } else if d == 5 {
        '5'
    } else if d == 6 {
        '6'
    } else if d == 7 {
        '7'
    } else if d == 8 {
        '8'
    } else {
        '9'
    }
}

/// Writes a number in decimal digits behind what `out` holds.
pub fn push_decimal(out: &mut String, n: usize)
    ensures
        final(out)@ == old(out)@ + decimal(n as nat),
    decreases n,
{
    if n >= 10 {
        push_decimal(out, n / 10);
    }
    push_char(out, digit_char(n % 10));
}

impl StatsFormatter {
    /// Computes `stats_text`.
    pub fn format_stats(stats: &PackageStats, detailed: bool) -> (text: String)
        ensures
            text@ == stats_text(*stats, detailed),
    {
        let mut text = String::new();
        if detailed {
            text.append("Package Statistics:\n- ALT newer: ");
            push_decimal(&mut text, stats.alt_newer);
            text.append("\n- Second newer: ");
            push_decimal(&mut text, stats.second_newer);
            text.append("\n- Equal: ");
            push_decimal(&mut text, stats.equal);
            text.append("\n- Missing: ");
            push_decimal(&mut text, stats.missing);
        } else {
            text.append("ALT newer: ");
            push_decimal(&mut text, stats.alt_newer);
            text.append(", Second newer: ");
            push_decimal(&mut text, stats.second_newer);
            text.append(", Equal: ");
            push_decimal(&mut text, stats.equal);
            text.append(", Missing: ");
            push_decimal(&mut text, stats.missing);
        }
        text
    }
}

} // verus!
