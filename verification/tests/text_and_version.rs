use bosiclaw::text::{chars_of, split_chars, string_of, trim};
use bosiclaw::version::{
    check_node_version_requirement, compare_versions, parse_u32_chars, parse_version_parts,
};

fn parse(s: &str) -> Option<u32> {
    parse_u32_chars(&chars_of(s))
}

#[test]
fn trim_removes_unicode_whitespace() {
    assert_eq!(trim("  hello \t\r\n"), "hello");
    assert_eq!(trim("\u{3000}x y\u{a0}\u{2009}"), "x y");
    assert_eq!(trim("   "), "");
    assert_eq!(trim(""), "");
}

#[test]
fn split_keeps_empty_pieces() {
    let pieces = split_chars(&chars_of("a..b."), '.');
    let texts: Vec<String> = pieces.iter().map(|p| string_of(p)).collect();
    assert_eq!(texts, vec!["a", "", "b", ""]);
    assert_eq!(split_chars(&chars_of(""), '.').len(), 1);
}

#[test]
fn parse_u32_follows_std() {
    assert_eq!(parse("22"), Some(22));
    assert_eq!(parse("+5"), Some(5));
    assert_eq!(parse("007"), Some(7));
    assert_eq!(parse("4294967295"), Some(u32::MAX));
    assert_eq!(parse("4294967296"), None);
    assert_eq!(parse("99999999999999999999"), None);
    assert_eq!(parse(""), None);
    assert_eq!(parse("+"), None);
    assert_eq!(parse("-1"), None);
    assert_eq!(parse("1a"), None);
    assert_eq!(parse(" 1"), None);
    for s in ["0", "12", "+9", "4294967295", "4294967296", "", "+", "-3", "x", "1 "] {
        assert_eq!(parse(s), s.parse::<u32>().ok(), "input {:?}", s);
    }
}

#[test]
fn version_parts_drop_v_and_non_numbers() {
    assert_eq!(parse_version_parts("v1.2.3"), vec![1, 2, 3]);
    assert_eq!(parse_version_parts("  2026.1.29 \n"), vec![2026, 1, 29]);
    assert_eq!(parse_version_parts("vv1.0.0-beta"), vec![1, 0]);
    assert_eq!(parse_version_parts(""), Vec::<u32>::new());
}

#[test]
fn compare_versions_finds_newer_registry_version() {
    assert!(compare_versions("1.0.0", "1.0.1"));
    assert!(compare_versions("v1.0.0", "1.1.0"));
    assert!(compare_versions("1.9.9", "2.0.0"));
    assert!(compare_versions("2026.1.29", "2026.2.1"));
    assert!(!compare_versions("1.10.0", "1.9.9"));
    assert!(!compare_versions("2.0.0", "1.99.99"));
    // a missing part counts as 0
    assert!(!compare_versions("1.2", "1.2.0"));
    assert!(compare_versions("1.2", "1.2.1"));
    // only the first three parts count
    assert!(!compare_versions("1.2.3.4", "1.2.3.9"));
    // a piece that is not a number is left out
    assert!(compare_versions("1.0.0-beta", "1.0.1"));
}

#[test]
fn law_no_update_to_same_version_example() {
    for v in ["1.0.0", "v2.3.4", "", "x.y", " 2026.3.1 "] {
        assert!(!compare_versions(v, v));
    }
}

#[test]
fn law_update_asymmetric_example() {
    assert!(compare_versions("1.2.3", "1.3.0"));
    assert!(!compare_versions("1.3.0", "1.2.3"));
}

#[test]
fn law_update_transitive_example() {
    assert!(compare_versions("1.0.0", "1.0.5"));
    assert!(compare_versions("1.0.5", "1.2.0"));
    assert!(compare_versions("1.0.0", "1.2.0"));
}

#[test]
fn law_v_prefix_ignored_example() {
    assert_eq!(compare_versions("v1.2.3", "1.2.4"), compare_versions("1.2.3", "1.2.4"));
    assert_eq!(compare_versions("1.2.2", "v1.2.3"), compare_versions("1.2.2", "1.2.3"));
    assert!(!compare_versions("v1.2.3", "1.2.3"));
}

#[test]
fn node_version_requirement_is_major_22() {
    assert!(check_node_version_requirement(&Some("v22.1.0".to_string())));
    assert!(check_node_version_requirement(&Some("v23.0.0".to_string())));
    assert!(check_node_version_requirement(&Some("22".to_string())));
    assert!(check_node_version_requirement(&Some("vv24.1".to_string())));
    assert!(!check_node_version_requirement(&Some("v20.11.1".to_string())));
    assert!(!check_node_version_requirement(&Some("v21.9.9".to_string())));
    assert!(!check_node_version_requirement(&Some("node".to_string())));
    assert!(!check_node_version_requirement(&Some("".to_string())));
    assert!(!check_node_version_requirement(&None));
}
