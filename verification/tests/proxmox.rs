use alt_cmp::package_map::PackageMap;
use alt_cmp::parser::PackageParser;
use alt_cmp::proxmox::{clean_version_string, value_of, ProxmoxParser};
use regex::Regex;
use std::collections::HashMap;

fn table(map: &PackageMap) -> HashMap<String, String> {
    map.pairs().into_iter().collect()
}

#[test]
fn proxmox_test_parse_valid_data() {
    let input = "Package: test-package\n\
                 Version: 1.2.3-4\n\
                 Package: another-package\n\
                 Version: 2.3.4+git123\n";

    let result = ProxmoxParser::parse(input).unwrap();
    let mut expected = HashMap::new();
    expected.insert("test-package".to_string(), "1.2.3".to_string());
    expected.insert("another-package".to_string(), "2.3.4".to_string());

    assert_eq!(table(&result), expected);
}

#[test]
fn proxmox_test_parse_empty_data() {
    let input = "";
    let result = ProxmoxParser::parse(input).unwrap();
    let expected: HashMap<String, String> = HashMap::new();

    assert_eq!(table(&result), expected);
}

#[test]
fn test_parse_missing_version() {
    let input = "Package: test-package\n\
                 Package: another-package\n";

    let result = ProxmoxParser::parse(input).unwrap();
    let expected: HashMap<String, String> = HashMap::new();

    assert_eq!(table(&result), expected);
}

#[test]
fn test_parse_invalid_regex() {
    let input = "Not a package format\nInvalid line\n";
    let result = ProxmoxParser::parse(input).unwrap();
    let expected: HashMap<String, String> = HashMap::new();

    assert_eq!(table(&result), expected);
}

#[test]
fn test_clean_version_simple() {
    let version = "1.2.3";
    let result = clean_version_string(version);
    assert_eq!(result, "1.2.3");
}

#[test]
fn test_clean_version_with_dash() {
    let version = "1.2.3-4";
    let result = clean_version_string(version);
    assert_eq!(result, "1.2.3");
}

#[test]
fn test_clean_version_with_plus() {
    let version = "1.2.3+git123";
    let result = clean_version_string(version);
    assert_eq!(result, "1.2.3");
}

#[test]
fn test_clean_version_with_both() {
    let version = "1.2.3-4+git123";
    let result = clean_version_string(version);
    assert_eq!(result, "1.2.3");
}

#[test]
fn test_clean_version_empty() {
    let version = "";
    let result = clean_version_string(version);
    assert_eq!(result, "");
}

#[test]
fn clean_version_cuts_at_the_first_of_either_sign() {
    assert_eq!(clean_version_string("1.2.3+git123-4"), "1.2.3");
    assert_eq!(clean_version_string("-1"), "");
    assert_eq!(clean_version_string("+x"), "");
    assert_eq!(clean_version_string("1-2-3"), "1");
    assert_eq!(clean_version_string("1+2+3"), "1");
}

#[test]
fn clean_twice_is_clean_once() {
    for raw in ["1.2.3-4+git123", "1.2.3+git123", "1.2.3", "", "-", "+", "a+b-c"] {
        let once = clean_version_string(raw);
        assert_eq!(clean_version_string(&once), once);
    }
}

#[test]
fn proxmox_version_without_a_name_is_passed_over() {
    let input = "Version: 1.0\nPackage: a\nVersion: 2.0-1\n";
    let result = ProxmoxParser::parse(input).unwrap();
    let mut expected = HashMap::new();
    expected.insert("a".to_string(), "2.0".to_string());
    assert_eq!(table(&result), expected);
}

#[test]
fn proxmox_name_stays_for_later_versions() {
    let input = "Package: a\nVersion: 1.0\nDepends: x\n\nVersion: 2.0\nPackage: b\nVersion: 3.0\n";
    let result = ProxmoxParser::parse(input).unwrap();
    let mut expected = HashMap::new();
    expected.insert("a".to_string(), "2.0".to_string());
    expected.insert("b".to_string(), "3.0".to_string());
    assert_eq!(table(&result), expected);
}

#[test]
fn proxmox_name_is_trimmed_and_keys_need_a_value() {
    let input = "Package:   spaced name  \r\nVersion: 1.0-2\r\nPackage: \nVersion: \nPackage:\nVersion: 9\n";
    let result = ProxmoxParser::parse(input).unwrap();
    let mut expected = HashMap::new();
    expected.insert("spaced name".to_string(), "9".to_string());
    assert_eq!(table(&result), expected);
}

#[test]
fn proxmox_blank_name_takes_no_versions() {
    let input = "Package: a\nVersion: 1.0\nPackage:  \nVersion: 2.0\n";
    let result = ProxmoxParser::parse(input).unwrap();
    let mut expected = HashMap::new();
    expected.insert("a".to_string(), "1.0".to_string());
    assert_eq!(table(&result), expected);
}

#[test]
fn proxmox_key_may_stand_anywhere_in_the_line() {
    let input = "X-Package: inner\nInstalled-Version: 4.5+b1\nPackage: Version: 7\n";
    let result = ProxmoxParser::parse(input).unwrap();
    let mut expected = HashMap::new();
    expected.insert("inner".to_string(), "4.5".to_string());
    assert_eq!(table(&result), expected);
    assert_eq!(result.len(), 1);
}

#[test]
fn proxmox_table_is_no_larger_than_the_lines() {
    for input in ["", "Package: a\nVersion: 1\n", "Package: a\nVersion: 1\nVersion: 2", "x\n\n"] {
        let result = ProxmoxParser::parse(input).unwrap();
        assert!(result.len() <= input.lines().count());
    }
}

#[test]
fn value_of_a_line_is_what_the_pattern_captures() {
    let lines = [
        "Package: test-package",
        "Version: 1.2.3-4",
        "Package: ",
        "Package:",
        "Package:  two spaces ",
        "  Package: indented",
        "X-Package: inner Package: again",
        "Package: Package: ",
        "PackagePackage: x",
        "Package: x\r",
        "Package: \t",
        "package: lower",
        "Version: Package: both",
        "Package: gr\u{f6}\u{df}er \u{2192} name",
        "",
        " ",
        "Version:1.0",
        "Installed-Version: 4.5+b1",
        "Package: a Version: 1",
    ];
    for key in ["Package: ", "Version: "] {
        let pattern = Regex::new(&format!("{}(.+)", key)).unwrap();
        let key_chars: Vec<char> = key.chars().collect();
        for line in lines {
            let expected = pattern.captures(line).map(|c| c[1].to_string());
            let line_chars: Vec<char> = line.chars().collect();
            let found = value_of(&line_chars, &key_chars).map(|v| v.iter().collect::<String>());
            assert_eq!(found, expected, "{:?} in {:?}", key, line);
        }
    }
}
