use std::cmp::Ordering;
use unlade::SemanticVersion;

fn version(text: &str) -> SemanticVersion {
    SemanticVersion::parse(text).expect("version parses")
}

#[test]
fn components_are_available() {
    let version = version("12.34.56");
    assert_eq!(version.major(), 12);
    assert_eq!(version.minor(), 34);
    assert_eq!(version.patch(), 56);
}

#[test]
fn prereleases_are_identified() {
    assert!(version("1.0.0-alpha.1").is_prerelease());
    assert!(!version("1.0.0").is_prerelease());
}

#[test]
fn versions_compare_by_semver_precedence() {
    assert!(version("1.10.0").outranks(&version("1.9.0")));
    assert!(version("2.0.0").outranks(&version("2.0.0-rc.1")));
}

#[test]
fn build_metadata_does_not_affect_precedence() {
    assert_eq!(
        version("1.0.0+linux").cmp_precedence(&version("1.0.0+windows")),
        Ordering::Equal,
    );
}

#[test]
fn display_preserves_the_semantic_version() {
    assert_eq!(version("1.2.3-alpha.1+linux").to_text(), "1.2.3-alpha.1+linux");
}

#[test]
fn malformed_versions_are_rejected() {
    assert!(SemanticVersion::parse("not-a-version").is_err());
}

#[test]
fn a_new_version_has_no_prerelease_or_build() {
    let version = SemanticVersion::new(3, 1, 4);
    assert_eq!(version.to_text(), "3.1.4");
    assert!(!version.is_prerelease());
    assert_eq!(version.cmp_precedence(&SemanticVersion::new(3, 1, 4)), Ordering::Equal);
}

#[test]
fn precedence_reverses_with_its_arguments() {
    let low = version("1.0.0-alpha.1");
    let high = version("1.0.0-alpha.beta");
    assert_eq!(low.cmp_precedence(&high), Ordering::Less);
    assert_eq!(high.cmp_precedence(&low), Ordering::Greater);
    assert!(!low.outranks(&high));
    assert!(high.outranks(&low));
}

#[test]
fn numbers_decide_before_prereleases() {
    assert_eq!(version("2.0.0-alpha").cmp_precedence(&version("1.9.9")), Ordering::Greater);
    assert_eq!(version("1.2.0").cmp_precedence(&version("1.10.0-rc.1")), Ordering::Less);
    assert_eq!(version("1.0.1").cmp_precedence(&version("1.0.0")), Ordering::Greater);
}

#[test]
fn numeric_prerelease_identifiers_compare_as_numbers() {
    assert!(version("1.0.0-rc.10").outranks(&version("1.0.0-rc.9")));
    assert!(version("1.0.0-alpha").outranks(&version("1.0.0-1")));
}

#[test]
fn a_version_with_only_build_metadata_writes_it() {
    assert_eq!(version("0.1.0+build.5").to_text(), "0.1.0+build.5");
}
