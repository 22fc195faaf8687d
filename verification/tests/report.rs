use alt_cmp::cli::{Args, Commands};
use alt_cmp::comparator::{PackageInfo, VersionComparisonResult};
use alt_cmp::output::{display_comparison, display_stats};
use alt_cmp::package_map::PackageMap;
use alt_cmp::report::{paints_for_screen, Cell, Paint, TableFormatter};

fn map_of(entries: &[(&str, &str)]) -> PackageMap {
    let mut map = PackageMap::new();
    for (name, text) in entries {
        map.insert(name.to_string(), text.to_string());
    }
    map
}

fn args(output_file: Option<&str>, silent: bool) -> Args {
    Args {
        command: Commands::Compare { alt_newer: false, second_newer: false },
        output_file: output_file.map(|f| f.to_string()),
        alt_url: "http://host/bin.list.xz".to_string(),
        second_url: "http://host/Packages".to_string(),
        mapping_file: "package_mapping.txt".to_string(),
        silent,
    }
}

fn cell(text: &str, paint: Paint, bold: bool) -> Cell {
    Cell { text: text.to_string(), paint, bold }
}

fn header() -> Vec<Cell> {
    vec![
        cell("Package (ALT/Second)", Paint::Cyan, true),
        cell("ALT Version", Paint::Green, true),
        cell("Second Version", Paint::Magenta, true),
    ]
}

fn package(alt_version: Option<&str>, second_version: Option<&str>) -> PackageInfo {
    PackageInfo {
        name: "a / b".to_string(),
        alt_version: alt_version.map(|v| v.to_string()),
        second_version: second_version.map(|v| v.to_string()),
    }
}

const ALL: [VersionComparisonResult; 6] = [
    VersionComparisonResult::AltNewer,
    VersionComparisonResult::SecondNewer,
    VersionComparisonResult::Equal,
    VersionComparisonResult::AltMissing,
    VersionComparisonResult::SecondMissing,
    VersionComparisonResult::BothMissing,
];

#[test]
fn header_row_and_title() {
    assert_eq!(TableFormatter::create_header_row(), header());
    assert_eq!(
        TableFormatter::title(),
        cell("\nALT vs Second Repo Package Comparison\n", Paint::Blue, true)
    );
}

#[test]
fn colours_on_the_screen() {
    let expected = [
        (Paint::Green, Paint::Red),
        (Paint::Red, Paint::Green),
        (Paint::White, Paint::White),
        (Paint::Red, Paint::Magenta),
        (Paint::Green, Paint::Red),
        (Paint::Red, Paint::Red),
    ];
    for (outcome, paints) in ALL.iter().zip(expected) {
        assert_eq!(paints_for_screen(outcome), paints);
        let row = TableFormatter::create_data_row(&package(Some("1"), Some("2")), outcome);
        assert_eq!(
            row,
            vec![
                cell("a / b", Paint::Yellow, false),
                cell("1", paints.0, false),
                cell("2", paints.1, false),
            ]
        );
    }
}

#[test]
fn colours_in_a_file() {
    let expected = [
        (Paint::Green, Paint::Red),
        (Paint::Red, Paint::Green),
        (Paint::White, Paint::White),
        (Paint::Red, Paint::Magenta),
        (Paint::Green, Paint::Red),
        (Paint::Green, Paint::Red),
    ];
    for (outcome, paints) in ALL.iter().zip(expected) {
        let cells = TableFormatter::get_colored_versions(&package(None, Some("2")), outcome);
        assert_eq!(cells, (cell("Not found", paints.0, false), cell("2", paints.1, false)));
        let row = TableFormatter::create_file_row(&package(Some("1"), None), outcome);
        assert_eq!(
            row,
            vec![
                cell("a / b", Paint::Yellow, false),
                cell("1", paints.0, false),
                cell("Not found", paints.1, false),
            ]
        );
    }
}

#[test]
fn style_letters_of_cells() {
    fn spec(paint: Paint, bold: bool) -> String {
        cell("x", paint, bold).style_spec()
    }
    assert_eq!(spec(Paint::Cyan, true), "bFc");
    assert_eq!(spec(Paint::Green, true), "bFg");
    assert_eq!(spec(Paint::Magenta, true), "bFm");
    assert_eq!(spec(Paint::Yellow, false), "Fy");
    assert_eq!(spec(Paint::Red, false), "Fr");
    assert_eq!(spec(Paint::White, false), "Fw");
    assert_eq!(spec(Paint::Blue, false), "Fb");
}

#[test]
fn tables_have_the_headings_and_a_row_for_each_record() {
    let records = vec![
        (package(Some("2"), Some("1")), VersionComparisonResult::AltNewer),
        (package(None, None), VersionComparisonResult::BothMissing),
    ];
    let screen = TableFormatter::create_table(&records);
    assert_eq!(screen, TableFormatter::create_formatted_table_for_terminal(&records));
    assert_eq!(
        screen,
        vec![
            header(),
            vec![
                cell("a / b", Paint::Yellow, false),
                cell("2", Paint::Green, false),
                cell("1", Paint::Red, false),
            ],
            vec![
                cell("a / b", Paint::Yellow, false),
                cell("Not found", Paint::Red, false),
                cell("Not found", Paint::Red, false),
            ],
        ]
    );
    let file = TableFormatter::create_formatted_table_for_file(&records);
    assert_eq!(file[..2], screen[..2]);
    assert_eq!(
        file[2],
        vec![
            cell("a / b", Paint::Yellow, false),
            cell("Not found", Paint::Green, false),
            cell("Not found", Paint::Red, false),
        ]
    );
    assert_eq!(TableFormatter::create_table(&Vec::new()), vec![header()]);
}

fn listings() -> (PackageMap, PackageMap, PackageMap) {
    (
        map_of(&[("a", "2.0"), ("b", "1.0")]),
        map_of(&[("a", "1.0"), ("b", "1.0")]),
        map_of(&[("a", "a"), ("b", "b"), ("c", "d")]),
    )
}

#[test]
fn comparison_goes_to_the_screen_unless_silent() {
    let (alt, second, mapping) = listings();
    let shown = display_comparison(alt, second, mapping, false, false, &args(None, false));
    assert_eq!(shown.header, TableFormatter::title());
    assert!(shown.file.is_none());
    let table = shown.console.unwrap();
    assert_eq!(table.len(), 4);
    assert_eq!(table[0], header());
    assert_eq!(table[1][0].text, "a");
    assert_eq!(table[1][1], cell("2.0", Paint::Green, false));
    assert_eq!(table[2][1], cell("1.0", Paint::White, false));
    assert_eq!(table[3][0].text, "c / d");
    assert_eq!(table[3][2], cell("Not found", Paint::Red, false));

    let (alt, second, mapping) = listings();
    let silent = display_comparison(alt, second, mapping, false, false, &args(None, true));
    assert!(silent.console.is_none());
    assert!(silent.file.is_none());
}

#[test]
fn comparison_goes_to_the_file_that_is_named() {
    let (alt, second, mapping) = listings();
    let shown = display_comparison(alt, second, mapping, true, false, &args(Some("out.txt"), true));
    assert!(shown.console.is_none());
    let (path, table) = shown.file.unwrap();
    assert_eq!(path, "out.txt");
    assert_eq!(
        table,
        vec![
            header(),
            vec![
                cell("a", Paint::Yellow, false),
                cell("2.0", Paint::Green, false),
                cell("1.0", Paint::Red, false),
            ],
        ]
    );
}

#[test]
fn statistics_go_where_the_settings_say() {
    let (alt, second, mapping) = listings();
    let shown = display_stats(alt, second, mapping, false, &args(Some("stats.txt"), false));
    assert_eq!(shown.text, "ALT newer: 1, Second newer: 0, Equal: 1, Missing: 1");
    assert_eq!(shown.file, Some("stats.txt".to_string()));
    assert!(shown.console);

    let (alt, second, mapping) = listings();
    let shown = display_stats(alt, second, mapping, true, &args(None, true));
    assert_eq!(
        shown.text,
        "Package Statistics:\n- ALT newer: 1\n- Second newer: 0\n- Equal: 1\n- Missing: 1"
    );
    assert_eq!(shown.file, None);
    assert!(!shown.console);
}
