use alt_cmp::altlinux::{normalize_version, AltLinuxParser};
use alt_cmp::package_map::PackageMap;
use alt_cmp::parser::PackageParser;
use std::collections::HashMap;

fn table(map: &PackageMap) -> HashMap<String, String> {
    map.pairs().into_iter().collect()
}

#[test]
fn altlinux_test_parse_valid_data() {
    let input = "package1 1.2.3-alt1\n\
                 package2 2:4.5.6-alt2\n\
                 package3 0.1-alt3\n";

    let result = AltLinuxParser::parse(input).unwrap();
    let mut expected = HashMap::new();
    expected.insert("package1".to_string(), "1.2.3".to_string());
    expected.insert("package2".to_string(), "4.5.6".to_string());
    expected.insert("package3".to_string(), "0.1".to_string());

    assert_eq!(table(&result), expected);
}

#[test]
fn altlinux_test_parse_empty_data() {
    let input = "";
    let result = AltLinuxParser::parse(input).unwrap();
    let expected: HashMap<String, String> = HashMap::new();

    assert_eq!(table(&result), expected);
}

#[test]
fn test_parse_invalid_line() {
    let input = "package1 1.2.3-alt1\n\
                 invalid_line\n\
                 package2 2:4.5.6-alt2\n";

    let result = AltLinuxParser::parse(input).unwrap();
    let mut expected = HashMap::new();
    expected.insert("package1".to_string(), "1.2.3".to_string());
    expected.insert("package2".to_string(), "4.5.6".to_string());

    assert_eq!(table(&result), expected);
}

#[test]
fn test_parse_version_with_colon() {
    let input = "package1 1:2:3.4.5-alt1";
    let result = AltLinuxParser::parse(input).unwrap();
    let mut expected = HashMap::new();
    expected.insert("package1".to_string(), "2:3.4.5".to_string());

    assert_eq!(table(&result), expected);
}

#[test]
fn test_parse_single_part_line() {
    let input = "package1\n\
                 package2 2.3.4-alt1\n";

    let result = AltLinuxParser::parse(input).unwrap();
    let mut expected = HashMap::new();
    expected.insert("package2".to_string(), "2.3.4".to_string());

    assert_eq!(table(&result), expected);
}

#[test]
fn test_parse_no_alt_suffix() {
    let input = "package1 1.2.3";
    let result = AltLinuxParser::parse(input).unwrap();
    let mut expected = HashMap::new();
    expected.insert("package1".to_string(), "1.2.3".to_string());

    assert_eq!(table(&result), expected);
}

#[test]
fn normalize_strips_epoch_and_release() {
    assert_eq!(normalize_version("2:4.5.6-alt2"), "4.5.6");
    assert_eq!(normalize_version("1.2.3-alt1"), "1.2.3");
    assert_eq!(normalize_version("1.2.3"), "1.2.3");
}

#[test]
fn normalize_of_empty_is_empty() {
    assert_eq!(normalize_version(""), "");
}

#[test]
fn normalize_cuts_the_epoch_at_the_first_colon() {
    assert_eq!(normalize_version("1:2:3.4.5-alt1"), "2:3.4.5");
    assert_eq!(normalize_version("7:"), "");
    assert_eq!(normalize_version(":"), "");
    assert_eq!(normalize_version("::"), ":");
    assert_eq!(normalize_version(":1.0"), "1.0");
    assert_eq!(normalize_version("1.0-alt1:2.0"), "2.0");
    assert_eq!(normalize_version("1:alt2:3-4"), "4");
}

#[test]
fn normalize_drops_every_release_part() {
    assert_eq!(normalize_version("1.0-alt1-alt2"), "1.0");
    assert_eq!(normalize_version("alt1-1.0"), "1.0");
    assert_eq!(normalize_version("1.0-alt1-2"), "1.0-2");
    assert_eq!(normalize_version("1.0-altered"), "1.0");
    assert_eq!(normalize_version("alt"), "");
    assert_eq!(normalize_version("alt1-alt2"), "");
}

#[test]
fn normalize_keeps_other_parts_and_their_dashes() {
    assert_eq!(normalize_version("1.0-2-3"), "1.0-2-3");
    assert_eq!(normalize_version("1.0--2"), "1.0--2");
    assert_eq!(normalize_version("-alt1"), "");
    assert_eq!(normalize_version("1.0-"), "1.0-");
    assert_eq!(normalize_version("1.0-al"), "1.0-al");
    assert_eq!(normalize_version("1.0-Alt1"), "1.0-Alt1");
    assert_eq!(normalize_version("-alt1-"), "-");
}

#[test]
fn normalize_twice_is_normalize_once() {
    for raw in [
        "2:4.5.6-alt2",
        "1:2.3.4.5-alt1",
        "1.0-alt1-2",
        "alt1",
        "",
        "-alt1-",
        "1.0--2",
        "a-b:c-alt-d",
    ] {
        let once = normalize_version(raw);
        assert_eq!(normalize_version(&once), once);
    }
}

#[test]
fn altlinux_later_line_replaces_earlier() {
    let input = "pkg 1.0-alt1\nother 3.0-alt1\npkg 2.0-alt1\n";
    let result = AltLinuxParser::parse(input).unwrap();
    assert_eq!(result.len(), 2);
    assert_eq!(result.get("pkg"), Some(&"2.0".to_string()));
    assert_eq!(result.get("other"), Some(&"3.0".to_string()));
    assert_eq!(result.get("missing"), None);
}

#[test]
fn altlinux_fields_are_cut_at_any_whitespace() {
    let input = "  pkg1\t1.0-alt1   rest of line\r\n\u{a0}pkg2\u{3000}2.0-alt1\n\n   \npkg3 3.0-alt1\r";
    let result = AltLinuxParser::parse(input).unwrap();
    let mut expected = HashMap::new();
    expected.insert("pkg1".to_string(), "1.0".to_string());
    expected.insert("pkg2".to_string(), "2.0".to_string());
    expected.insert("pkg3".to_string(), "3.0".to_string());
    assert_eq!(table(&result), expected);
}

#[test]
fn altlinux_table_is_no_larger_than_the_lines() {
    for input in ["", "a 1\n", "a 1\na 2\nb\n", "x\ny\nz", "a 1\nb 2\nc 3"] {
        let result = AltLinuxParser::parse(input).unwrap();
        assert!(result.len() <= input.lines().count());
    }
}

#[test]
fn normalize_again_cuts_the_next_epoch() {
    let once = normalize_version("1:2:3");
    assert_eq!(once, "2:3");
    let twice = normalize_version(&once);
    assert_eq!(twice, "3");
    assert_eq!(normalize_version(&twice), twice);
}
