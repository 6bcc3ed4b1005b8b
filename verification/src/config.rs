//! Run configuration: the chosen transformation, the overrides, and the
//! flags and paths resolved from command-line input.

use vstd::prelude::*;

use crate::ident::idents_wf;
use crate::ident::join_texts;
use crate::ident::parse_identifiers;
use crate::ident::valid_dotted_from;
use crate::ident::Identifier;
use crate::text::str_equal;
use crate::version::valid_version_text;
use crate::version::version_text;
use crate::version::version_wf;
use crate::version::Version;

verus! {

/// The base transformation chosen for a run.
#[derive(Debug, Clone, PartialEq, Eq)]
pub enum ModifierType {
    Replace(Version),
    Major,
    Minor,
    Patch,
}

/// The base transformation together with the optional pre-release and
/// build-metadata overrides.
#[derive(Debug, Clone, PartialEq, Eq)]
pub struct VersionModifier {
    pub mod_type: ModifierType,
    pub build_metadata: Option<Vec<Identifier>>,
    pub pre_release: Option<Vec<Identifier>>,
}

/// A configuration error: each variant names the input that was
/// rejected.
#[derive(Debug, Clone, Copy, PartialEq, Eq)]
pub enum ConfigError {
    InvalidVersion,
    InvalidPreRelease,
    InvalidBuildMetadata,
    WorkspaceNotSupported,
}

/// The resolved parameters of one run.
#[derive(Debug, Clone, PartialEq, Eq)]
pub struct Config {
    pub version_modifier: VersionModifier,
    pub manifest: String,
    pub git_tag: bool,
    pub run_build: bool,
    pub prefix: String,
    pub ignore_lockfile: bool,
}

/// A replacement version and both overrides are well formed.
pub open spec fn modifier_wf(m: VersionModifier) -> bool {
    &&& (m.mod_type matches ModifierType::Replace(v) ==> version_wf(v))
    &&& (m.pre_release matches Some(p) ==> idents_wf(p@, false))
    &&& (m.build_metadata matches Some(b) ==> idents_wf(b@, true))
}

/// The positional tokens that name a bump rather than a version.
pub open spec fn is_keyword(s: Seq<char>) -> bool {
    s == "major"@ || s == "minor"@ || s == "patch"@
}

/// A usable positional token: a bump keyword or a valid version.
pub open spec fn modifier_arg_ok(s: Seq<char>) -> bool {
    is_keyword(s) || valid_version_text(s)
}

/// The positional token after the default is applied.
pub open spec fn arg_view(version_arg: Option<&str>) -> Seq<char> {
    match version_arg {
        Some(s) => s@,
        None => "patch"@,
    }
}

impl ModifierType {
    /// Reads a positional token: one of the bump keywords, or a full
    /// semantic version to replace with.
    pub fn from_str(input: &str) -> (r: Result<ModifierType, ConfigError>)
        ensures
            input@ == "major"@ ==> r == Ok::<ModifierType, ConfigError>(ModifierType::Major),
            input@ == "minor"@ ==> r == Ok::<ModifierType, ConfigError>(ModifierType::Minor),
            input@ == "patch"@ ==> r == Ok::<ModifierType, ConfigError>(ModifierType::Patch),
            !is_keyword(input@) ==> (r is Ok <==> valid_version_text(input@)),
            !is_keyword(input@) ==> (r matches Ok(m) ==> m matches ModifierType::Replace(v)
                && version_wf(v) && version_text(v) == input@),
            r is Err ==> r == Err::<ModifierType, ConfigError>(ConfigError::InvalidVersion)
                && !modifier_arg_ok(input@),
    {
        proof {
            reveal_strlit("major");
            reveal_strlit("minor");
            reveal_strlit("patch");
            assert(("major"@)[0] == 'm' && ("minor"@)[0] == 'm' && ("patch"@)[0] == 'p');
            assert(("major"@)[1] == 'a' && ("minor"@)[1] == 'i');
        }
        if str_equal(input, "major") {
            Ok(ModifierType::Major)
        } else if str_equal(input, "minor") {
            Ok(ModifierType::Minor)
        } else if str_equal(input, "patch") {
            Ok(ModifierType::Patch)
        } else {
            match Version::parse(input) {
                Some(v) => Ok(ModifierType::Replace(v)),
                None => Err(ConfigError::InvalidVersion),
            }
        }
    }
}

impl VersionModifier {
    /// Builds a modifier, parsing the override strings under the
    /// identifier grammar; a malformed override is a configuration
    /// error.
    pub fn new(mod_type: ModifierType, pre_release: Option<&str>, build_metadata: Option<&str>)
        -> (r: Result<VersionModifier, ConfigError>)
        ensures
            r is Ok <==> ((pre_release matches Some(p) ==> valid_dotted_from(p@, 0, false)) && (
            build_metadata matches Some(b) ==> valid_dotted_from(b@, 0, true))),
            r matches Ok(vm) ==> vm.mod_type == mod_type && (vm.pre_release is Some
                <==> pre_release is Some) && (vm.build_metadata is Some <==> build_metadata
                is Some) && (pre_release matches Some(p) ==> vm.pre_release matches Some(ids)
                && join_texts(ids@) == p@ && idents_wf(ids@, false)) && (build_metadata matches Some(
                b,
            ) ==> vm.build_metadata matches Some(ids) && join_texts(ids@) == b@ && idents_wf(
                ids@,
                true,
            )),
            r matches Err(e) ==> match e {
                ConfigError::InvalidPreRelease => pre_release matches Some(p)
                    && !valid_dotted_from(p@, 0, false),
                ConfigError::InvalidBuildMetadata => (pre_release matches Some(p)
                    ==> valid_dotted_from(p@, 0, false)) && (build_metadata matches Some(b)
                    && !valid_dotted_from(b@, 0, true)),
                _ => false,
            },
    {
        let pre_ids: Option<Vec<Identifier>> = match pre_release {
            None => None,
            Some(p) => match parse_identifiers(p, false) {
                Some(ids) => Some(ids),
                None => {
                    return Err(ConfigError::InvalidPreRelease);
                },
            },
        };
        let build_ids: Option<Vec<Identifier>> = match build_metadata {
            None => None,
            Some(b) => match parse_identifiers(b, true) {
                Some(ids) => Some(ids),
                None => {
                    return Err(ConfigError::InvalidBuildMetadata);
                },
            },
        };
        Ok(VersionModifier { mod_type, build_metadata: build_ids, pre_release: pre_ids })
    }

    /// A modifier with no overrides.
    pub fn from_mod_type(mod_type: ModifierType) -> (r: VersionModifier)
        ensures
            r.mod_type == mod_type,
            r.pre_release is None,
            r.build_metadata is None,
    {
        VersionModifier { mod_type, build_metadata: None, pre_release: None }
    }
}

impl Config {
    /// The configuration a run falls back to: a patch bump with no
    /// overrides, no tagging, on the given manifest.
    pub fn default_for_manifest(manifest: String) -> (c: Config)
        ensures
            c.version_modifier.mod_type is Patch,
            c.version_modifier.pre_release is None,
            c.version_modifier.build_metadata is None,
            c.manifest@ == manifest@,
            !c.git_tag,
            !c.run_build,
            c.prefix@ == Seq::<char>::empty(),
            !c.ignore_lockfile,
    {
        Config {
            version_modifier: VersionModifier::from_mod_type(ModifierType::Patch),
            manifest,
            git_tag: false,
            run_build: false,
            prefix: String::new(),
            ignore_lockfile: false,
        }
    }

    /// Resolves a run's configuration from the command-line values.
    ///
    /// The positional token defaults to `patch`; a tag prefix implies
    /// tagging; `workspace_manifests` holds one manifest path per
    /// workspace member, and any count other than one is unsupported.
    pub fn from_args(
        version_arg: Option<&str>,
        pre_release: Option<&str>,
        build_metadata: Option<&str>,
        git_tag: bool,
        run_build: bool,
        tag_prefix: Option<&str>,
        ignore_lockfile: bool,
        workspace_manifests: Vec<String>,
    ) -> (r: Result<Config, ConfigError>)
        ensures
            ({
                let a = arg_view(version_arg);
                &&& (r is Ok <==> modifier_arg_ok(a) && (pre_release matches Some(p)
                    ==> valid_dotted_from(p@, 0, false)) && (build_metadata matches Some(b)
                    ==> valid_dotted_from(b@, 0, true)) && workspace_manifests@.len() == 1)
                &&& (r matches Ok(c) ==> {
                    &&& c.git_tag == (git_tag || tag_prefix is Some)
                    &&& c.run_build == run_build
                    &&& c.ignore_lockfile == ignore_lockfile
                    &&& c.prefix@ == (match tag_prefix {
                        Some(p) => p@,
                        None => Seq::<char>::empty(),
                    })
                    &&& c.manifest@ == workspace_manifests@[0]@
                    &&& modifier_wf(c.version_modifier)
                    &&& (a == "major"@ ==> c.version_modifier.mod_type is Major)
                    &&& (a == "minor"@ ==> c.version_modifier.mod_type is Minor)
                    &&& (a == "patch"@ ==> c.version_modifier.mod_type is Patch)
                    &&& (!is_keyword(a) ==> (c.version_modifier.mod_type matches
                        ModifierType::Replace(v) && version_wf(v) && version_text(v) == a))
                    &&& (c.version_modifier.pre_release is Some <==> pre_release is Some)
                    &&& (pre_release matches Some(p) ==> c.version_modifier.pre_release
                        matches Some(ids) && join_texts(ids@) == p@)
                    &&& (c.version_modifier.build_metadata is Some <==> build_metadata is Some)
                    &&& (build_metadata matches Some(b) ==> c.version_modifier.build_metadata
                        matches Some(ids) && join_texts(ids@) == b@)
                })
                &&& (r matches Err(e) ==> match e {
                    ConfigError::InvalidVersion => !modifier_arg_ok(a),
                    ConfigError::InvalidPreRelease => modifier_arg_ok(a) && (pre_release matches
                        Some(p) && !valid_dotted_from(p@, 0, false)),
                    ConfigError::InvalidBuildMetadata => modifier_arg_ok(a) && (pre_release matches
                        Some(p) ==> valid_dotted_from(p@, 0, false)) && (build_metadata matches
                        Some(b) && !valid_dotted_from(b@, 0, true)),
                    ConfigError::WorkspaceNotSupported => modifier_arg_ok(a) && (pre_release
                        matches Some(p) ==> valid_dotted_from(p@, 0, false)) && (build_metadata
                        matches Some(b) ==> valid_dotted_from(b@, 0, true))
                        && workspace_manifests@.len() != 1,
                })
            }),
    {
        let arg: &str = match version_arg {
            Some(s) => s,
            None => "patch",
        };
        let mod_type = match ModifierType::from_str(arg) {
            Ok(m) => m,
            Err(e) => {
                return Err(e);
            },
        };
        let vm = match VersionModifier::new(mod_type, pre_release, build_metadata) {
            Ok(vm) => vm,
            Err(e) => {
                return Err(e);
            },
        };
        if workspace_manifests.len() != 1 {
            return Err(ConfigError::WorkspaceNotSupported);
        }
        let manifest = workspace_manifests[0].clone();
        let prefix: String = match tag_prefix {
            Some(p) => p.to_owned(),
            None => String::new(),
        };
        Ok(
            Config {
                version_modifier: vm,
                manifest,
                git_tag: git_tag || tag_prefix.is_some(),
                run_build,
                prefix,
                ignore_lockfile,
            },
        )
    }
}

} // verus!
