use cargo_bump::config::Config;
use cargo_bump::config::ConfigError;
use cargo_bump::config::ModifierType;
use cargo_bump::config::VersionModifier;
use cargo_bump::ident::Identifier;
use cargo_bump::version::Version;

// The command line is read in app code; these tests hand `Config::from_args`
// the values the argument parser extracts, with one workspace member whose
// manifest is ./Cargo.toml, as a single-package project reports.
fn test_config(
    version_arg: Option<&str>,
    pre_release: Option<&str>,
    build_metadata: Option<&str>,
    version_mod: VersionModifier,
) {
    let manifest = String::from("Cargo.toml");
    let config = Config::from_args(
        version_arg,
        pre_release,
        build_metadata,
        false,
        false,
        None,
        false,
        vec![manifest.clone()],
    )
    .unwrap();
    assert!(config.version_modifier == version_mod);
    assert!(config.manifest == manifest);
}

#[test]
fn bump_arg_only() {
    test_config(None, None, None, VersionModifier::from_mod_type(ModifierType::Patch))
}

#[test]
fn version_arg_minor() {
    test_config(Some("minor"), None, None, VersionModifier::from_mod_type(ModifierType::Minor))
}

#[test]
fn version_arg_string_good() {
    test_config(
        Some("1.2.3"),
        None,
        None,
        VersionModifier::from_mod_type(ModifierType::Replace(Version::parse("1.2.3").unwrap())),
    )
}

#[test]
fn version_bump_and_build() {
    let version_mod = VersionModifier {
        mod_type: ModifierType::Major,
        build_metadata: Some(vec![Identifier::Numeric(1999)]),
        pre_release: None,
    };
    test_config(Some("major"), None, Some("1999"), version_mod);
}

#[test]
fn version_bump_and_pre() {
    let version_mod = VersionModifier {
        mod_type: ModifierType::Replace(Version::parse("2.0.0").unwrap()),
        build_metadata: None,
        pre_release: Some(vec![Identifier::AlphaNumeric(String::from("beta"))]),
    };
    test_config(Some("2.0.0"), Some("beta"), None, version_mod);
}

#[test]
fn invalid_positional_argument() {
    let r = Config::from_args(
        Some("2.x.y"),
        None,
        None,
        false,
        false,
        None,
        false,
        vec![String::from("Cargo.toml")],
    );
    assert!(r == Err(ConfigError::InvalidVersion));
    assert!(ModifierType::from_str("2.x.y") == Err(ConfigError::InvalidVersion));
}

#[test]
fn two_workspace_members_unsupported() {
    let r = Config::from_args(
        Some("minor"),
        None,
        None,
        false,
        false,
        None,
        false,
        vec![String::from("a/Cargo.toml"), String::from("b/Cargo.toml")],
    );
    assert!(r == Err(ConfigError::WorkspaceNotSupported));
}

#[test]
fn invalid_pre_release_override() {
    let r = VersionModifier::new(ModifierType::Patch, Some("01"), None);
    assert!(r == Err(ConfigError::InvalidPreRelease));
    let r = VersionModifier::new(ModifierType::Patch, Some(""), None);
    assert!(r == Err(ConfigError::InvalidPreRelease));
}

#[test]
fn invalid_build_override() {
    let r = VersionModifier::new(ModifierType::Patch, None, Some("a..b"));
    assert!(r == Err(ConfigError::InvalidBuildMetadata));
    // A build segment of digits may carry a leading zero.
    let ok = VersionModifier::new(ModifierType::Patch, None, Some("007")).unwrap();
    assert!(ok.build_metadata == Some(vec![Identifier::AlphaNumeric(String::from("007"))]));
}

#[test]
fn tag_prefix_implies_git_tag() {
    let config = Config::from_args(
        None,
        None,
        None,
        false,
        true,
        Some("v"),
        true,
        vec![String::from("Cargo.toml")],
    )
    .unwrap();
    assert!(config.git_tag);
    assert!(config.run_build);
    assert!(config.ignore_lockfile);
    assert!(config.prefix == "v");
}

#[test]
fn default_configuration() {
    let config = Config::default_for_manifest(String::from("Cargo.toml"));
    assert!(config.version_modifier == VersionModifier::from_mod_type(ModifierType::Patch));
    assert!(!config.git_tag);
    assert!(!config.run_build);
    assert!(config.prefix.is_empty());
    assert!(!config.ignore_lockfile);
}
