use atlas_rs::allowlist::{extract_target, is_target_allowed, parse_allowlist, trim_str};

#[test]
fn test_parse_allowlist_trims_and_drops_empty() {
    let list = parse_allowlist(" 127.0.0.1:8443 , tee.example.com:443 ,, ");
    assert_eq!(
        list,
        vec![
            "127.0.0.1:8443".to_string(),
            "tee.example.com:443".to_string()
        ]
    );
}

#[test]
fn test_parse_allowlist_empty_text() {
    assert!(parse_allowlist("").is_empty());
    assert!(parse_allowlist("  ,  ,").is_empty());
}

#[test]
fn test_is_target_allowed_membership() {
    let list = parse_allowlist("a:1,b:2");
    assert!(is_target_allowed("a:1", &list));
    assert!(is_target_allowed("b:2", &list));
    assert!(!is_target_allowed("c:3", &list));
    assert!(!is_target_allowed("a:1 ", &list));
}

#[test]
fn test_trim_str_whitespace() {
    assert_eq!(trim_str("  x y\t\n"), "x y");
    assert_eq!(trim_str("   "), "");
    assert_eq!(trim_str("plain"), "plain");
}

#[test]
fn test_extract_target_from_query() {
    assert_eq!(
        extract_target("target=127.0.0.1%3A8443&v=1").as_deref(),
        Some("127.0.0.1:8443")
    );
    assert_eq!(
        extract_target("a=b&target=host:443").as_deref(),
        Some("host:443")
    );
    assert_eq!(extract_target("a=b"), None);
}
