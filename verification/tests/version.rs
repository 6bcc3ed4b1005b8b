use cargo_bump::config::ModifierType;
use cargo_bump::config::VersionModifier;
use cargo_bump::ident::Identifier;
use cargo_bump::version::to_version_string;
use cargo_bump::version::update_version;
use cargo_bump::version::Version;

fn bump(current: &str, modifier: VersionModifier) -> String {
    let mut version = Version::parse(current).unwrap();
    update_version(&mut version, modifier);
    to_version_string(&version)
}

#[test]
fn bump_major() {
    assert!(bump("1.2.3", VersionModifier::from_mod_type(ModifierType::Major)) == "2.0.0");
}

#[test]
fn bump_minor() {
    assert!(bump("1.2.3", VersionModifier::from_mod_type(ModifierType::Minor)) == "1.3.0");
}

#[test]
fn bump_patch() {
    assert!(bump("1.2.3", VersionModifier::from_mod_type(ModifierType::Patch)) == "1.2.4");
}

#[test]
fn replace_with_pre_release_override() {
    let modifier = VersionModifier::new(
        ModifierType::Replace(Version::parse("2.0.0").unwrap()),
        Some("beta"),
        None,
    )
    .unwrap();
    assert!(bump("1.2.3", modifier) == "2.0.0-beta");
}

#[test]
fn bump_major_with_build_override() {
    let modifier = VersionModifier::new(ModifierType::Major, None, Some("1999")).unwrap();
    assert!(bump("1.2.3", modifier) == "2.0.0+1999");
}

#[test]
fn bump_clears_pre_release_and_build() {
    assert!(
        bump("1.2.3-alpha.1+b7", VersionModifier::from_mod_type(ModifierType::Patch)) == "1.2.4"
    );
}

#[test]
fn overrides_replace_an_explicit_target() {
    // The replacement carries a pre-release of its own; the override
    // still wins.
    let modifier = VersionModifier::new(
        ModifierType::Replace(Version::parse("2.0.0-rc.1+old").unwrap()),
        Some("beta.2"),
        Some("fresh"),
    )
    .unwrap();
    assert!(bump("1.2.3", modifier) == "2.0.0-beta.2+fresh");
}

#[test]
fn replace_keeps_target_fields_without_overrides() {
    let modifier =
        VersionModifier::from_mod_type(ModifierType::Replace(Version::parse("2.0.0-rc.1+old").unwrap()));
    assert!(bump("1.2.3", modifier) == "2.0.0-rc.1+old");
}

#[test]
fn parse_full_version() {
    let v = Version::parse("1.2.3-alpha.1+build.5").unwrap();
    assert!(v.major == 1);
    assert!(v.minor == 2);
    assert!(v.patch == 3);
    assert!(
        v.pre == vec![Identifier::AlphaNumeric(String::from("alpha")), Identifier::Numeric(1)]
    );
    assert!(
        v.build == vec![Identifier::AlphaNumeric(String::from("build")), Identifier::Numeric(5)]
    );
    assert!(to_version_string(&v) == "1.2.3-alpha.1+build.5");
}

#[test]
fn parse_rejects_malformed_versions() {
    assert!(Version::parse("2.x.y").is_none());
    assert!(Version::parse("1.2").is_none());
    assert!(Version::parse("01.2.3").is_none());
    assert!(Version::parse("").is_none());
    assert!(Version::parse("1.2.3-01").is_none());
    assert!(Version::parse("1.2.3-").is_none());
    assert!(Version::parse(" 1.2.3").is_none());
}

#[test]
fn parse_keeps_odd_but_valid_fields() {
    // A build segment may carry leading zeros; both fields keep
    // numerals too large for a numeric identifier.
    let v = Version::parse("1.2.3+007").unwrap();
    assert!(v.build == vec![Identifier::AlphaNumeric(String::from("007"))]);
    assert!(to_version_string(&v) == "1.2.3+007");
    let w = Version::parse("1.2.3-18446744073709551616").unwrap();
    assert!(
        w.pre == vec![Identifier::AlphaNumeric(String::from("18446744073709551616"))]
    );
    assert!(to_version_string(&w) == "1.2.3-18446744073709551616");
}

#[test]
fn parse_largest_numeric_parts() {
    let v = Version::parse("18446744073709551615.0.0").unwrap();
    assert!(v.major == u64::MAX);
    assert!(to_version_string(&v) == "18446744073709551615.0.0");
    assert!(Version::parse("18446744073709551616.0.0").is_none());
}

#[test]
fn serialize_zero_version() {
    let v = Version { major: 0, minor: 0, patch: 0, pre: vec![], build: vec![] };
    assert!(to_version_string(&v) == "0.0.0");
}
