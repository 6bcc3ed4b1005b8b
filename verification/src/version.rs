//! Semantic versions: the data model, parsing through the semver crate,
//! canonical re-serialization, and the version transformation.

use vstd::prelude::*;

use crate::config::ModifierType;
use crate::config::VersionModifier;
use crate::ident::dec_str;
use crate::ident::idents_wf;
use crate::ident::join_texts;
use crate::ident::parse_identifiers;
use crate::ident::push_u64;
use crate::ident::valid_dotted_from;
use crate::ident::Identifier;
use crate::text::push_char;

verus! {

/// A semantic version: three numeric parts, a pre-release identifier
/// sequence and a build-metadata identifier sequence, either possibly
/// empty.
#[derive(Debug, Clone, PartialEq, Eq)]
pub struct Version {
    pub major: u64,
    pub minor: u64,
    pub patch: u64,
    pub pre: Vec<Identifier>,
    pub build: Vec<Identifier>,
}

/// Every identifier is well formed under its field's grammar.
pub open spec fn version_wf(v: Version) -> bool {
    idents_wf(v.pre@, false) && idents_wf(v.build@, true)
}

/// The text of a version assembled from already-joined pre-release and
/// build fields.
pub open spec fn parts_text(
    major: u64,
    minor: u64,
    patch: u64,
    pre: Seq<char>,
    build: Seq<char>,
) -> Seq<char> {
    dec_str(major as int) + seq!['.'] + dec_str(minor as int) + seq!['.'] + dec_str(patch as int)
        + (if pre.len() > 0 {
        seq!['-'] + pre
    } else {
        Seq::<char>::empty()
    }) + (if build.len() > 0 {
        seq!['+'] + build
    } else {
        Seq::<char>::empty()
    })
}

/// Each non-empty field is a valid dot-separated identifier sequence.
pub open spec fn valid_parts(pre: Seq<char>, build: Seq<char>) -> bool {
    &&& (pre.len() > 0 ==> valid_dotted_from(pre, 0, false))
    &&& (build.len() > 0 ==> valid_dotted_from(build, 0, true))
}

/// The canonical text of a version value.
pub open spec fn version_text(v: Version) -> Seq<char> {
    dec_str(v.major as int) + seq!['.'] + dec_str(v.minor as int) + seq!['.'] + dec_str(
        v.patch as int,
    ) + (if v.pre@.len() > 0 {
        seq!['-'] + join_texts(v.pre@)
    } else {
        Seq::<char>::empty()
    }) + (if v.build@.len() > 0 {
        seq!['+'] + join_texts(v.build@)
    } else {
        Seq::<char>::empty()
    })
}

/// The strings of semantic-versioning 2.0.0 form whose numeric parts fit
/// in a `u64`: exactly the texts of well-formed version values.
pub open spec fn valid_version_text(s: Seq<char>) -> bool {
    exists|major: u64, minor: u64, patch: u64, pre: Seq<char>, build: Seq<char>|
        valid_parts(pre, build) && #[trigger] parts_text(major, minor, patch, pre, build) == s
}

/// Relies on semver's `Version::parse`: it returns `Ok` exactly on the
/// strings of semantic-versioning 2.0.0 form with `u64` numeric parts
/// (canonical numerals without leading zeros, dot-separated pre-release
/// and build identifier sequences), and the parsed fields re-assemble,
/// with `-` and `+` separators, to the input text.
#[verifier::external_body]
fn semver_parse_parts(s: &str) -> (r: Option<(u64, u64, u64, String, String)>)
    ensures
        r matches Some(p) ==> valid_parts(p.3@, p.4@) && parts_text(p.0, p.1, p.2, p.3@, p.4@)
            == s@,
        r is None ==> !valid_version_text(s@),
{
    match semver::Version::parse(s) {
        Ok(v) => Some(
            (v.major, v.minor, v.patch, v.pre.as_str().to_string(), v.build.as_str().to_string()),
        ),
        Err(_) => None,
    }
}

impl Version {
    /// Parses a semantic-version string; `None` means the string is not
    /// a valid semantic version.
    pub fn parse(s: &str) -> (r: Option<Version>)
        ensures
            r is Some <==> valid_version_text(s@),
            r matches Some(v) ==> version_wf(v) && version_text(v) == s@,
    {
        match semver_parse_parts(s) {
            None => None,
            Some((major, minor, patch, pre_text, build_text)) => {
                let pre: Vec<Identifier> = if pre_text.as_str().is_empty() {
                    Vec::new()
                } else {
                    match parse_identifiers(pre_text.as_str(), false) {
                        Some(ids) => ids,
                        None => {
                            proof {
                                assert(false);
                            }
                            Vec::new()
                        },
                    }
                };
                let build: Vec<Identifier> = if build_text.as_str().is_empty() {
                    Vec::new()
                } else {
                    match parse_identifiers(build_text.as_str(), true) {
                        Some(ids) => ids,
                        None => {
                            proof {
                                assert(false);
                            }
                            Vec::new()
                        },
                    }
                };
                let v = Version { major, minor, patch, pre, build };
                proof {
                    assert(join_texts(v.pre@) =~= pre_text@);
                    assert(join_texts(v.build@) =~= build_text@);
                    assert(v.pre@.len() > 0 <==> pre_text@.len() > 0);
                    assert(v.build@.len() > 0 <==> build_text@.len() > 0);
                    assert(version_text(v) =~= s@);
                }
                Some(v)
            },
        }
    }
}

/// Appends the identifiers joined with dots.
fn push_idents(out: &mut String, ids: &Vec<Identifier>)
    ensures
        final(out)@ == old(out)@ + join_texts(ids@),
{
    let mut i: usize = 0;
    while i < ids.len()
        invariant
            i <= ids@.len(),
            out@ == old(out)@ + join_texts(ids@.take(i as int)),
        decreases ids@.len() - i,
    {
        if i > 0 {
            push_char(out, '.');
        }
        match &ids[i] {
            Identifier::Numeric(n) => push_u64(out, *n),
            Identifier::AlphaNumeric(t) => out.append(t.as_str()),
        }
        proof {
            let taken = ids@.take(i as int);
            crate::ident::lemma_join_push(taken, ids@[i as int]);
            assert(taken.push(ids@[i as int]) =~= ids@.take(i as int + 1));
            assert(out@ =~= old(out)@ + join_texts(ids@.take(i as int + 1)));
        }
        i = i + 1;
    }
    proof {
        assert(ids@.take(ids@.len() as int) =~= ids@);
    }
}

/// Writes a version in its canonical text form:
/// `MAJOR.MINOR.PATCH[-PRE][+BUILD]`.
pub fn to_version_string(v: &Version) -> (r: String)
    ensures
        r@ == version_text(*v),
{
    let mut out = String::new();
    push_u64(&mut out, v.major);
    push_char(&mut out, '.');
    push_u64(&mut out, v.minor);
    push_char(&mut out, '.');
    push_u64(&mut out, v.patch);
    let ghost numbers = dec_str(v.major as int) + seq!['.'] + dec_str(v.minor as int) + seq!['.']
        + dec_str(v.patch as int);
    proof {
        assert(out@ =~= numbers);
    }
    if v.pre.len() > 0 {
        push_char(&mut out, '-');
        push_idents(&mut out, &v.pre);
        proof {
            assert(out@ =~= numbers + (seq!['-'] + join_texts(v.pre@)));
        }
    }
    let ghost with_pre = numbers + (if v.pre@.len() > 0 {
        seq!['-'] + join_texts(v.pre@)
    } else {
        Seq::<char>::empty()
    });
    proof {
        assert(out@ =~= with_pre);
    }
    if v.build.len() > 0 {
        push_char(&mut out, '+');
        push_idents(&mut out, &v.build);
        proof {
            assert(out@ =~= with_pre + (seq!['+'] + join_texts(v.build@)));
        }
    }
    proof {
        assert(out@ =~= version_text(*v));
    }
    out
}

/// The major part after the base transformation.
pub open spec fn updated_major(v: Version, m: VersionModifier) -> int {
    match m.mod_type {
        ModifierType::Replace(v2) => v2.major as int,
        ModifierType::Major => v.major + 1,
        ModifierType::Minor => v.major as int,
        ModifierType::Patch => v.major as int,
    }
}

/// The minor part after the base transformation.
pub open spec fn updated_minor(v: Version, m: VersionModifier) -> int {
    match m.mod_type {
        ModifierType::Replace(v2) => v2.minor as int,
        ModifierType::Major => 0,
        ModifierType::Minor => v.minor + 1,
        ModifierType::Patch => v.minor as int,
    }
}

/// The patch part after the base transformation.
pub open spec fn updated_patch(v: Version, m: VersionModifier) -> int {
    match m.mod_type {
        ModifierType::Replace(v2) => v2.patch as int,
        ModifierType::Major => 0,
        ModifierType::Minor => 0,
        ModifierType::Patch => v.patch + 1,
    }
}

/// The pre-release field after transformation and override: an override
/// always replaces the field; without one, a numeric bump clears it and
/// a replacement carries its own.
pub open spec fn updated_pre(v: Version, m: VersionModifier) -> Seq<Identifier> {
    match m.pre_release {
        Some(p) => p@,
        None => match m.mod_type {
            ModifierType::Replace(v2) => v2.pre@,
            _ => Seq::empty(),
        },
    }
}

/// The build-metadata field after transformation and override.
pub open spec fn updated_build(v: Version, m: VersionModifier) -> Seq<Identifier> {
    match m.build_metadata {
        Some(b) => b@,
        None => match m.mod_type {
            ModifierType::Replace(v2) => v2.build@,
            _ => Seq::empty(),
        },
    }
}

/// Applies a modifier to a version in place.
///
/// A `Major`, `Minor` or `Patch` bump steps its part, resets the lower
/// numeric parts to zero and clears the pre-release and build fields;
/// `Replace` installs the given version exactly. A pre-release or
/// build-metadata override then replaces the corresponding field
/// unconditionally, whatever the base transformation left there.
pub fn update_version(version: &mut Version, modifier: VersionModifier)
    requires
        modifier.mod_type is Major ==> old(version).major < u64::MAX,
        modifier.mod_type is Minor ==> old(version).minor < u64::MAX,
        modifier.mod_type is Patch ==> old(version).patch < u64::MAX,
    ensures
        final(version).major == updated_major(*old(version), modifier),
        final(version).minor == updated_minor(*old(version), modifier),
        final(version).patch == updated_patch(*old(version), modifier),
        final(version).pre@ == updated_pre(*old(version), modifier),
        final(version).build@ == updated_build(*old(version), modifier),
        modifier.mod_type is Major ==> final(version).major == old(version).major + 1
            && final(version).minor == 0 && final(version).patch == 0,
        modifier.mod_type is Minor ==> final(version).major == old(version).major
            && final(version).minor == old(version).minor + 1 && final(version).patch == 0,
        modifier.mod_type is Patch ==> final(version).major == old(version).major
            && final(version).minor == old(version).minor
            && final(version).patch == old(version).patch + 1,
        !(modifier.mod_type is Replace) && modifier.pre_release is None
            ==> final(version).pre@ =~= Seq::<Identifier>::empty(),
        !(modifier.mod_type is Replace) && modifier.build_metadata is None
            ==> final(version).build@ =~= Seq::<Identifier>::empty(),
        modifier.mod_type matches ModifierType::Replace(v2) ==> ((modifier.pre_release is None
            && modifier.build_metadata is None) ==> *final(version) == v2),
        modifier.pre_release matches Some(p) ==> final(version).pre@ == p@,
        modifier.build_metadata matches Some(b) ==> final(version).build@ == b@,
        version_wf(*old(version)) && crate::config::modifier_wf(modifier)
            ==> version_wf(*final(version)),
{
    match modifier.mod_type {
        ModifierType::Replace(v2) => {
            *version = v2;
        },
        ModifierType::Major => {
            version.major = version.major + 1;
            version.minor = 0;
            version.patch = 0;
            version.pre = Vec::new();
            version.build = Vec::new();
        },
        ModifierType::Minor => {
            version.minor = version.minor + 1;
            version.patch = 0;
            version.pre = Vec::new();
            version.build = Vec::new();
        },
        ModifierType::Patch => {
            version.patch = version.patch + 1;
            version.pre = Vec::new();
            version.build = Vec::new();
        },
    }
    if let Some(p) = modifier.pre_release {
        version.pre = p;
    }
    if let Some(b) = modifier.build_metadata {
        version.build = b;
    }
}

} // verus!
