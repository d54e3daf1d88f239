use clitools::version::increment_last_identifier;
use clitools::version::version_from_text;
use clitools::version::BumpVersion;

#[test]
fn test_increment_major() {
    let version = version_from_text("1.2.3").unwrap();
    let bumped = version.increment_major();
    assert_eq!(bumped, version_from_text("2.0.0").unwrap());
    assert!(bumped.pre.is_empty());
}

#[test]
fn test_increment_major_with_prerelease() {
    let version = version_from_text("1.2.3-beta.1").unwrap();
    let bumped = version.increment_major();
    assert_eq!(bumped, version_from_text("2.0.0").unwrap());
    assert!(bumped.pre.is_empty());
}

#[test]
fn test_increment_minor() {
    let version = version_from_text("1.2.3").unwrap();
    let bumped = version.increment_minor();
    assert_eq!(bumped, version_from_text("1.3.0").unwrap());
    assert!(bumped.pre.is_empty());
}

#[test]
fn test_increment_minor_with_prerelease() {
    let version = version_from_text("1.2.3-alpha.1").unwrap();
    let bumped = version.increment_minor();
    assert_eq!(bumped, version_from_text("1.3.0").unwrap());
    assert!(bumped.pre.is_empty());
}

#[test]
fn test_increment_patch() {
    let version = version_from_text("1.2.3").unwrap();
    let bumped = version.increment_patch();
    assert_eq!(bumped, version_from_text("1.2.4").unwrap());
    assert!(bumped.pre.is_empty());
}

#[test]
fn test_increment_patch_with_prerelease() {
    let version = version_from_text("1.2.3-rc.1").unwrap();
    let bumped = version.increment_patch();
    assert_eq!(bumped, version_from_text("1.2.4").unwrap());
    assert!(bumped.pre.is_empty());
}

#[test]
fn test_increment_prerelease_numeric() {
    let version = version_from_text("1.2.3-0").unwrap();
    let bumped = version.increment_prerelease();
    assert_eq!(bumped, version_from_text("1.2.3-1").unwrap());
}

#[test]
fn test_increment_prerelease_with_dot() {
    let version = version_from_text("1.2.3-beta.0").unwrap();
    let bumped = version.increment_prerelease();
    assert_eq!(bumped, version_from_text("1.2.3-beta.1").unwrap());
}

#[test]
fn test_increment_prerelease_multiple_dots() {
    let version = version_from_text("1.2.3-alpha.0.5").unwrap();
    let bumped = version.increment_prerelease();
    assert_eq!(bumped, version_from_text("1.2.3-alpha.0.6").unwrap());
}

#[test]
fn test_increment_prerelease_non_numeric() {
    let version = version_from_text("1.2.3-beta").unwrap();
    let bumped = version.increment_prerelease();
    assert_eq!(bumped, version_from_text("1.2.3-beta.1").unwrap());
}

#[test]
fn test_append_prerelease_identifiers() {
    let version = version_from_text("1.2.3").unwrap();
    let bumped = version.append_prerelease_identifiers("beta.0");
    assert_eq!(bumped, version_from_text("1.2.3-beta.0").unwrap());
}

#[test]
fn test_append_prerelease_identifiers_replaces_existing() {
    let version = version_from_text("1.2.3-alpha.1").unwrap();
    let bumped = version.append_prerelease_identifiers("beta.0");
    assert_eq!(bumped, version_from_text("1.2.3-beta.0").unwrap());
}

#[test]
fn test_convert_prerelease_to_release() {
    let version = version_from_text("1.2.3-beta.5").unwrap();
    let bumped = version.convert_prerelease_to_release();
    assert_eq!(bumped, version_from_text("1.2.3").unwrap());
    assert!(bumped.pre.is_empty());
}

#[test]
fn test_convert_prerelease_to_release_no_prerelease() {
    let version = version_from_text("1.2.3").unwrap();
    let bumped = version.convert_prerelease_to_release();
    assert_eq!(bumped, version_from_text("1.2.3").unwrap());
    assert!(bumped.pre.is_empty());
}

#[test]
fn test_increment_last_identifier_numeric() {
    assert_eq!(increment_last_identifier("0"), "1");
    assert_eq!(increment_last_identifier("5"), "6");
    assert_eq!(increment_last_identifier("99"), "100");
}

#[test]
fn test_increment_last_identifier_with_dot() {
    assert_eq!(increment_last_identifier("beta.0"), "beta.1");
    assert_eq!(increment_last_identifier("alpha.5"), "alpha.6");
    assert_eq!(increment_last_identifier("rc.99"), "rc.100");
}

#[test]
fn test_increment_last_identifier_multiple_dots() {
    assert_eq!(increment_last_identifier("alpha.0.5"), "alpha.0.6");
    assert_eq!(increment_last_identifier("beta.1.2"), "beta.1.3");
}

#[test]
fn test_increment_last_identifier_non_numeric() {
    assert_eq!(increment_last_identifier("beta"), "beta.1");
    assert_eq!(increment_last_identifier("alpha"), "alpha.1");
}

#[test]
fn test_increment_last_identifier_non_numeric_suffix() {
    assert_eq!(increment_last_identifier("beta.abc"), "beta.abc.1");
}

#[test]
fn test_build_metadata_preserved() {
    let version = version_from_text("1.2.3+build123").unwrap();
    let major = version.increment_major();
    assert_eq!(major.build, version.build);

    let minor = version.increment_minor();
    assert_eq!(minor.build, version.build);

    let patch = version.increment_patch();
    assert_eq!(patch.build, version.build);
}

#[test]
fn version_render_round_trip() {
    let version = version_from_text("1.2.3-beta.1+build5").unwrap();
    assert_eq!(version.render(), "1.2.3-beta.1+build5");
    assert_eq!(version_from_text("10.20.30").unwrap().render(), "10.20.30");
}

#[test]
fn version_parse_rejects_garbage() {
    let err = version_from_text("not-a-version").unwrap_err();
    assert_eq!(err, "Failed to parse version 'not-a-version' as semver");
    assert!(version_from_text("1.0").is_err());
}

#[test]
fn prerelease_increment_guards() {
    let v = version_from_text("1.2.3-beta.1").unwrap();
    assert!(v.can_increment_prerelease());
    let ceiling = version_from_text("1.2.3-rc.4294967295").unwrap();
    assert!(!ceiling.can_increment_prerelease());
    assert!(!version_from_text("1.2.3").unwrap().can_increment_prerelease());
}

#[test]
fn prerelease_validity() {
    assert!(clitools::version::prerelease_is_valid("beta.0"));
    assert!(clitools::version::prerelease_is_valid("0"));
    assert!(!clitools::version::prerelease_is_valid(""));
    assert!(!clitools::version::prerelease_is_valid("beta..1"));
    assert!(!clitools::version::prerelease_is_valid("007"));
    assert!(clitools::version::prerelease_is_valid("alpha-7.x-y"));
}
