//! The comparison as a table: which texts stand in which cells, and how each
//! cell is painted. A table is held as rows of cells; to write it out in
//! colour is left to whoever shows it.

use crate::comparator::{
    record_views, shown_version, PackageInfo, PackageInfoView, VersionComparisonResult,
};
use crate::text::to_string;
use vstd::prelude::*;

verus! {

/// The colours of the tables.
#[derive(Debug, Clone, Copy, PartialEq, Eq, Structural)]
pub enum Paint {
    Red,
    Green,
    Yellow,
    Blue,
    Magenta,
    Cyan,
    White,
}

/// One cell of a table: a text, the colour in which it is written, and
/// whether it is written in bold.
#[derive(Debug, Clone, PartialEq, Eq)]
pub struct Cell {
    pub text: String,
    pub paint: Paint,
    pub bold: bool,
}

/// What a `Cell` holds, as values.
pub struct CellView {
    pub text: Seq<char>,
    pub paint: Paint,
    pub bold: bool,
}

impl View for Cell {
    type V = CellView;

    open spec fn view(&self) -> CellView {
        CellView { text: self.text@, paint: self.paint, bold: self.bold }
    }
}

/// The maker of tables.
pub struct TableFormatter;

/// A cell that is not bold.
pub open spec fn plain(text: Seq<char>, paint: Paint) -> CellView {
    CellView { text, paint, bold: false }
}

/// A bold cell.
pub open spec fn bold(text: Seq<char>, paint: Paint) -> CellView {
    CellView { text, paint, bold: true }
}

/// The line above a comparison.
pub open spec fn title() -> CellView {
    bold("\nALT vs Second Repo Package Comparison\n"@, Paint::Blue)
}

/// The row of headings.
pub open spec fn header_row() -> Seq<CellView> {
    seq![
        bold("Package (ALT/Second)"@, Paint::Cyan),
        bold("ALT Version"@, Paint::Green),
        bold("Second Version"@, Paint::Magenta),
    ]
}

/// The colours of a pair's two versions in a table on the screen: green for
/// the newer version or the only one, red for the older one and for a missing
/// one; white where the two are equal; magenta for the second where only the
/// first is missing.
pub open spec fn screen_paints(comparison: VersionComparisonResult) -> (Paint, Paint) {
    match comparison {
        VersionComparisonResult::AltNewer => (Paint::Green, Paint::Red),
        VersionComparisonResult::SecondNewer => (Paint::Red, Paint::Green),
        VersionComparisonResult::Equal => (Paint::White, Paint::White),
        VersionComparisonResult::AltMissing => (Paint::Red, Paint::Magenta),
        VersionComparisonResult::SecondMissing => (Paint::Green, Paint::Red),
        VersionComparisonResult::BothMissing => (Paint::Red, Paint::Red),
    }
}

/// The colours of a pair's two versions in a table that is written to a file:
/// those of the screen, but where both versions are missing the first is
/// green.
pub open spec fn file_paints(comparison: VersionComparisonResult) -> (Paint, Paint) {
    match comparison {
        VersionComparisonResult::SecondNewer => (Paint::Red, Paint::Green),
        VersionComparisonResult::AltNewer => (Paint::Green, Paint::Red),
        VersionComparisonResult::Equal => (Paint::White, Paint::White),
        VersionComparisonResult::AltMissing => (Paint::Red, Paint::Magenta),
        VersionComparisonResult::SecondMissing | VersionComparisonResult::BothMissing => (
            Paint::Green,
            Paint::Red,
        ),
    }
}

/// The row of a pair: its name in yellow, then its two versions as they are
/// shown, in the two colours given.
pub open spec fn row_of(package: PackageInfoView, paints: (Paint, Paint)) -> Seq<CellView> {
    seq![
        plain(package.name, Paint::Yellow),
        plain(shown_version(package.alt_version), paints.0),
        plain(shown_version(package.second_version), paints.1),
    ]
}

/// The table for the screen: the headings, then a row for each record.
pub open spec fn screen_table(records: Seq<(PackageInfoView, VersionComparisonResult)>) -> Seq<
    Seq<CellView>,
> {
    seq![header_row()] + Seq::new(
        records.len(),
        |i: int| row_of(records[i].0, screen_paints(records[i].1)),
    )
}

/// The table for a file: the headings, then a row for each record.
pub open spec fn file_table(records: Seq<(PackageInfoView, VersionComparisonResult)>) -> Seq<
    Seq<CellView>,
> {
    seq![header_row()] + Seq::new(
        records.len(),
        |i: int| row_of(records[i].0, file_paints(records[i].1)),
    )
}

/// What a row holds, as values.
pub open spec fn row_view(row: Vec<Cell>) -> Seq<CellView> {
    Seq::new(row@.len(), |i: int| row@[i]@)
}

/// What a table holds, as values.
pub open spec fn table_view(table: Seq<Vec<Cell>>) -> Seq<Seq<CellView>> {
    Seq::new(table.len(), |i: int| row_view(table[i]))
}

/// The letter that a table on the screen has for a colour.
pub open spec fn paint_letter(paint: Paint) -> char {
    match paint {
        Paint::Red => 'r',
        Paint::Green => 'g',
        Paint::Yellow => 'y',
        Paint::Blue => 'b',
        Paint::Magenta => 'm',
        Paint::Cyan => 'c',
        Paint::White => 'w',
    }
}

/// The style of a cell in the letters of a table on the screen: `b` where it
/// is bold, then `F` and the letter of its colour.
pub open spec fn style_letters(bold: bool, paint: Paint) -> Seq<char> {
    if bold {
        seq!['b', 'F', paint_letter(paint)]
    } else {
        seq!['F', paint_letter(paint)]
    }
}

impl Cell {
    /// A cell that is not bold.
    pub fn plain(text: String, paint: Paint) -> (cell: Cell)
        ensures
            cell@ == self::plain(text@, paint),
    {
        Cell { text, paint, bold: false }
    }

    /// A bold cell.
    pub fn bold(text: &str, paint: Paint) -> (cell: Cell)
        ensures
            cell@ == self::bold(text@, paint),
    {
        Cell { text: text.to_owned(), paint, bold: true }
    }

    /// Computes `style_letters` for the cell.
    pub fn style_spec(&self) -> (spec: String)
        ensures
            spec@ == style_letters(self.bold, self.paint),
    {
        let letter = match self.paint {
            Paint::Red => 'r',
            Paint::Green => 'g',
            Paint::Yellow => 'y',
            Paint::Blue => 'b',
            Paint::Magenta => 'm',
            Paint::Cyan => 'c',
            Paint::White => 'w',
        };
        let mut spec: Vec<char> = Vec::new();
        if self.bold {
            spec.push('b');
        }
        spec.push('F');
        spec.push(letter);
        to_string(spec.as_slice())
    }
}

/// Computes `screen_paints`.
pub fn paints_for_screen(comparison: &VersionComparisonResult) -> (paints: (Paint, Paint))
    ensures
        paints == screen_paints(*comparison),
{
    match comparison {
        VersionComparisonResult::AltNewer => (Paint::Green, Paint::Red),
        VersionComparisonResult::SecondNewer => (Paint::Red, Paint::Green),
        VersionComparisonResult::Equal => (Paint::White, Paint::White),
        VersionComparisonResult::AltMissing => (Paint::Red, Paint::Magenta),
        VersionComparisonResult::SecondMissing => (Paint::Green, Paint::Red),
        VersionComparisonResult::BothMissing => (Paint::Red, Paint::Red),
    }
}

impl TableFormatter {
    /// The line above a comparison.
    pub fn title() -> (cell: Cell)
        ensures
            cell@ == title(),
    {
        Cell::bold("\nALT vs Second Repo Package Comparison\n", Paint::Blue)
    }

    /// The row of headings.
    pub fn create_header_row() -> (row: Vec<Cell>)
        ensures
            row_view(row) == header_row(),
    {
        let mut row: Vec<Cell> = Vec::new();
        row.push(Cell::bold("Package (ALT/Second)", Paint::Cyan));
        row.push(Cell::bold("ALT Version", Paint::Green));
        row.push(Cell::bold("Second Version", Paint::Magenta));
        row
    }

    /// The two versions of a pair as they are shown, in the colours that a
    /// table in a file has for them.
    pub fn get_colored_versions(
        package: &PackageInfo,
        comparison: &VersionComparisonResult,
    ) -> (cells: (Cell, Cell))
        ensures
            cells.0@ == plain(shown_version(package@.alt_version), file_paints(*comparison).0),
            cells.1@ == plain(shown_version(package@.second_version), file_paints(*comparison).1),
    {
        let alt = package.alt_version_text();
        let second = package.second_version_text();
        match comparison {
            VersionComparisonResult::SecondNewer => (
                Cell::plain(alt, Paint::Red),
                Cell::plain(second, Paint::Green),
            ),
            VersionComparisonResult::AltNewer => (
                Cell::plain(alt, Paint::Green),
                Cell::plain(second, Paint::Red),
            ),
            VersionComparisonResult::Equal => (
                Cell::plain(alt, Paint::White),
                Cell::plain(second, Paint::White),
            ),
            VersionComparisonResult::AltMissing => (
                Cell::plain(alt, Paint::Red),
                Cell::plain(second, Paint::Magenta),
            ),
            VersionComparisonResult::SecondMissing | VersionComparisonResult::BothMissing => (
                Cell::plain(alt, Paint::Green),
                Cell::plain(second, Paint::Red),
            ),
        }
    }

    /// The row of a pair in a table on the screen.
    pub fn create_data_row(package: &PackageInfo, comparison: &VersionComparisonResult) -> (row:
        Vec<Cell>)
        ensures
            row_view(row) == row_of(package@, screen_paints(*comparison)),
    {
        let (alt_paint, second_paint) = paints_for_screen(comparison);
        let mut row: Vec<Cell> = Vec::new();
        row.push(Cell::plain(package.name.clone(), Paint::Yellow));
        row.push(Cell::plain(package.alt_version_text(), alt_paint));
        row.push(Cell::plain(package.second_version_text(), second_paint));
        row
    }

    /// The row of a pair in a table that is written to a file.
    pub fn create_file_row(package: &PackageInfo, comparison: &VersionComparisonResult) -> (row:
        Vec<Cell>)
        ensures
            row_view(row) == row_of(package@, file_paints(*comparison)),
    {
        let (alt, second) = Self::get_colored_versions(package, comparison);
        let mut row: Vec<Cell> = Vec::new();
        row.push(Cell::plain(package.name.clone(), Paint::Yellow));
        row.push(alt);
        row.push(second);
        row
    }

    /// The table for the screen.
    pub fn create_table(packages_with_comparison: &Vec<(PackageInfo, VersionComparisonResult)>) -> (table:
        Vec<Vec<Cell>>)
        ensures
            table_view(table@) == screen_table(record_views(packages_with_comparison@)),
    {
        let ghost records = record_views(packages_with_comparison@);
        let mut table: Vec<Vec<Cell>> = Vec::new();
        table.push(Self::create_header_row());
        let mut i: usize = 0;
        while i < packages_with_comparison.len()
            invariant
                i <= packages_with_comparison.len(),
                records == record_views(packages_with_comparison@),
                table@.len() == i + 1,
                row_view(table@[0]) == header_row(),
                forall|k: int|
                    1 <= k <= i ==> row_view(#[trigger] table@[k]) == row_of(
                        records[k - 1].0,
                        screen_paints(records[k - 1].1),
                    ),
            decreases packages_with_comparison.len() - i,
        {
            let record = &packages_with_comparison[i];
            table.push(Self::create_data_row(&record.0, &record.1));
            i += 1;
        }
        table
    }

    /// The table for the screen.
    pub fn create_formatted_table_for_terminal(
        packages_with_comparison: &Vec<(PackageInfo, VersionComparisonResult)>,
    ) -> (table: Vec<Vec<Cell>>)
        ensures
            table_view(table@) == screen_table(record_views(packages_with_comparison@)),
    {
        Self::create_table(packages_with_comparison)
    }

    /// The table for a file.
    pub fn create_formatted_table_for_file(
        packages_with_comparison: &Vec<(PackageInfo, VersionComparisonResult)>,
    ) -> (table: Vec<Vec<Cell>>)
        ensures
            table_view(table@) == file_table(record_views(packages_with_comparison@)),
    {
        let ghost records = record_views(packages_with_comparison@);
        let mut table: Vec<Vec<Cell>> = Vec::new();
        table.push(Self::create_header_row());
        let mut i: usize = 0;
        while i < packages_with_comparison.len()
            invariant
                i <= packages_with_comparison.len(),
                records == record_views(packages_with_comparison@),
                table@.len() == i + 1,
                row_view(table@[0]) == header_row(),
                forall|k: int|
                    1 <= k <= i ==> row_view(#[trigger] table@[k]) == row_of(
                        records[k - 1].0,
                        file_paints(records[k - 1].1),
                    ),
            decreases packages_with_comparison.len() - i,
        {
            let record = &packages_with_comparison[i];
            table.push(Self::create_file_row(&record.0, &record.1));
            i += 1;
        }
        table
    }
}

} // verus!
