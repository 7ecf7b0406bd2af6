use pkgcraft::error::VersionError;
use pkgcraft::version::parse_version;

#[test]
fn empty_version_is_rejected() {
    assert_eq!(parse_version("").unwrap_err(), VersionError::EmptyInput);
}

#[test]
fn missing_component_reports_position() {
    assert_eq!(parse_version("1.").unwrap_err(), VersionError::InvalidComponent(2));
    assert_eq!(parse_version("1..2").unwrap_err(), VersionError::InvalidComponent(2));
    assert_eq!(parse_version("a").unwrap_err(), VersionError::InvalidComponent(0));
    assert_eq!(parse_version("1.0A").unwrap_err(), VersionError::InvalidComponent(3));
}

#[test]
fn unknown_suffix_reports_text() {
    assert_eq!(
        parse_version("1.0_foo-r1").unwrap_err(),
        VersionError::InvalidSuffix("_foo-r1".to_string())
    );
    assert_eq!(
        parse_version("1.0_alpha1x").unwrap_err(),
        VersionError::InvalidSuffix("x".to_string())
    );
}

#[test]
fn malformed_revision_reports_text() {
    assert_eq!(
        parse_version("1.0-r").unwrap_err(),
        VersionError::InvalidRevision("-r".to_string())
    );
    assert_eq!(
        parse_version("1.0-r1_p1").unwrap_err(),
        VersionError::InvalidRevision("-r1_p1".to_string())
    );
    assert_eq!(
        parse_version("1.0-1").unwrap_err(),
        VersionError::InvalidRevision("-1".to_string())
    );
}

#[test]
fn valid_versions_parse() {
    for text in ["1", "1.0", "0.01", "1.2.3a", "1.0_alpha", "1.0_beta2_p3", "1.0_rc1-r2", "2a_pre-r0"] {
        assert!(parse_version(text).is_ok(), "{}", text);
    }
}
