use vericto::version::{
    backend_compat, compare_versions, parse_major_minor, update_note, version_gate, Compat,
};

#[test]
fn parse_major_minor_variants() {
    assert_eq!(parse_major_minor("1.2.3"), Some((1, 2)));
    assert_eq!(parse_major_minor("v2.0.0"), Some((2, 0)));
    assert_eq!(parse_major_minor("1"), Some((1, 0)));
    assert_eq!(parse_major_minor("3.4-rc1"), Some((3, 4)));
    assert_eq!(parse_major_minor("nope"), None);
}

#[test]
fn backend_compat_matrix() {
    // MIN_BACKEND_API_VERSION is "1.0.0".
    assert!(matches!(backend_compat("1.0.0"), Compat::Compatible));
    assert!(matches!(backend_compat("1.3.0"), Compat::Compatible)); // newer minor is fine
    assert!(matches!(backend_compat("2.0.0"), Compat::MajorMismatch));
    assert!(matches!(backend_compat("0.9.0"), Compat::MajorMismatch));
    assert!(matches!(backend_compat("garbage"), Compat::Unknown));
}

#[test]
fn an_older_minor_is_a_skew() {
    assert!(matches!(
        compare_versions(Some((1, 1)), Some((1, 2))),
        Compat::MinorSkew
    ));
    assert!(matches!(compare_versions(None, Some((1, 2))), Compat::Unknown));
}

#[test]
fn odd_versions() {
    assert_eq!(parse_major_minor("  vv7.8  "), Some((7, 8)));
    assert_eq!(parse_major_minor("1.x"), Some((1, 0)));
    assert_eq!(parse_major_minor("2-rc1"), Some((2, 0)));
    assert_eq!(parse_major_minor("release-1.2 (stable)"), Some((1, 2)));
    assert_eq!(parse_major_minor("V3"), Some((3, 0)));
    assert_eq!(parse_major_minor("4294967296.0"), None);
    assert_eq!(parse_major_minor("1.4294967296"), Some((1, 0)));
    assert_eq!(parse_major_minor("+1.2"), Some((1, 2)));
    assert_eq!(parse_major_minor(""), None);
}

#[test]
fn another_major_ends_the_run() {
    assert!(matches!(version_gate(&None), Ok(None)));
    assert!(matches!(version_gate(&Some("1.0.0".to_string())), Ok(None)));
    let stop = version_gate(&Some("2.0.0".to_string())).unwrap_err();
    assert_eq!(stop.code, 4);
}

#[test]
fn old_clients_are_told_to_update() {
    assert!(update_note(&None).is_none());
    assert!(update_note(&Some("1.0.0".to_string())).is_none());
    assert!(update_note(&Some("9.0.0".to_string())).is_some());
    assert!(update_note(&Some("garbage".to_string())).is_none());
}
