use image_optimizer::version_comparator::compare_versions;

#[test]
fn test_version_comparison() {
    assert!(compare_versions("1.0.0", "1.0.1").unwrap());
    assert!(compare_versions("1.0.0", "1.1.0").unwrap());
    assert!(compare_versions("1.0.0", "2.0.0").unwrap());
    assert!(!compare_versions("1.0.1", "1.0.0").unwrap());
    assert!(!compare_versions("1.1.0", "1.0.0").unwrap());
    assert!(!compare_versions("2.0.0", "1.0.0").unwrap());
    assert!(!compare_versions("1.0.0", "1.0.0").unwrap());
}

#[test]
fn test_version_with_v_prefix() {
    assert!(compare_versions("v1.0.0", "v1.0.1").unwrap());
    assert!(compare_versions("1.0.0", "v1.0.1").unwrap());
    assert!(compare_versions("v1.0.0", "1.0.1").unwrap());
}

#[test]
fn test_different_version_lengths() {
    assert!(compare_versions("1.0", "1.0.1").unwrap());
    assert!(!compare_versions("1.0.1", "1.0").unwrap());
    assert!(!compare_versions("1.0", "1.0").unwrap());
}

#[test]
fn test_invalid_version_format() {
    assert!(compare_versions("invalid", "1.0.0").is_err());
    assert!(compare_versions("1.0.0", "invalid").is_err());
    assert!(compare_versions("1.x.0", "1.0.0").is_err());
}

#[test]
fn test_real_world_versions() {
    assert!(compare_versions("1.2.1", "1.2.2").unwrap());
    assert!(compare_versions("0.9.0", "1.0.0").unwrap());
    assert!(!compare_versions("2.0.0", "1.9.9").unwrap());
}

#[test]
fn numbers_compare_by_value_not_text() {
    assert!(compare_versions("1.9.0", "1.10.0").unwrap());
    assert!(!compare_versions("1.10.0", "1.9.0").unwrap());
    assert!(compare_versions("vv1.0", "1.1").unwrap());
}

#[test]
fn pieces_parse_like_unsigned_integers() {
    assert!(!compare_versions("+1.0", "1.0").unwrap());
    assert!(compare_versions("1.0", "1.4294967295").unwrap());
    assert!(compare_versions("1.0", "1.4294967296").is_err());
    assert!(compare_versions("1..0", "1.0").is_err());
    assert!(compare_versions("", "1.0").is_err());
    assert!(compare_versions("1.0.", "1.0").is_err());
    assert!(compare_versions("-1", "1").is_err());
    assert!(compare_versions("+", "1").is_err());
}
