use alt_cmp::mapping::{read_package_mapping, FileManager};
use alt_cmp::package_map::PackageMap;
use std::collections::HashMap;

fn table(map: &PackageMap) -> HashMap<String, String> {
    map.pairs().into_iter().collect()
}

#[test]
fn test_file_manager_parse_mapping_line() {
    // Valid line with two parts
    assert_eq!(
        FileManager::parse_mapping_line("pkg1 pkg2"),
        Some(("pkg1".to_string(), "pkg2".to_string()))
    );

    // Valid line with more than two parts (uses first two)
    assert_eq!(
        FileManager::parse_mapping_line("pkg1 pkg2 extra"),
        Some(("pkg1".to_string(), "pkg2".to_string()))
    );

    // Invalid line with only one part
    assert_eq!(FileManager::parse_mapping_line("invalid"), None);

    // Empty line
    assert_eq!(FileManager::parse_mapping_line(""), None);
}

#[test]
fn test_read_package_mapping_valid_file() {
    let result = read_package_mapping("pkg1 pkg2\npkg3 pkg4\ninvalid\n");
    let mut expected = HashMap::new();

    expected.insert("pkg1".to_string(), "pkg2".to_string());
    expected.insert("pkg3".to_string(), "pkg4".to_string());

    assert_eq!(table(&result), expected);
}

#[test]
fn test_read_package_mapping_empty_file() {
    let result = read_package_mapping("");
    let expected: HashMap<String, String> = HashMap::new();

    assert_eq!(table(&result), expected);
}

#[test]
fn mapping_keeps_the_order_of_first_mention_and_the_last_pair() {
    let result = read_package_mapping("b x\na y\nb z\n\n  c\tw  \r\n");
    assert_eq!(
        result.pairs(),
        vec![
            ("b".to_string(), "z".to_string()),
            ("a".to_string(), "y".to_string()),
            ("c".to_string(), "w".to_string()),
        ]
    );
    assert_eq!(result.len(), 3);
}

#[test]
fn mapping_line_of_whitespace_holds_no_pair() {
    assert_eq!(FileManager::parse_mapping_line("   \t "), None);
    assert_eq!(FileManager::parse_mapping_line(" one "), None);
    assert_eq!(
        FileManager::parse_mapping_line("\u{2003}one\u{2003}two\u{2003}"),
        Some(("one".to_string(), "two".to_string()))
    );
}

#[test]
fn package_map_insert_get_and_entry() {
    let mut map = PackageMap::new();
    assert_eq!(map.len(), 0);
    map.insert("a".to_string(), "1".to_string());
    map.insert("b".to_string(), "2".to_string());
    map.insert("a".to_string(), "3".to_string());
    assert_eq!(map.len(), 2);
    assert_eq!(map.get("a"), Some(&"3".to_string()));
    assert_eq!(map.get("b"), Some(&"2".to_string()));
    assert_eq!(map.get("c"), None);
    assert_eq!(map.entry(0), (&"a".to_string(), &"3".to_string()));
    assert_eq!(map.entry(1), (&"b".to_string(), &"2".to_string()));
}
