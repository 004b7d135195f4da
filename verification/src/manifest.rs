//! The checks that read the audited project's `Cargo.toml`: whether the
//! release profile keeps overflow checks, and whether the `ink` dependency
//! admits the latest ink! release.
//!
//! Reading the file, asking cargo where the workspace is and asking the
//! registry for the latest release stay with the caller; what they produced
//! comes in as text.
use vstd::prelude::*;
use crate::text::{chars_of, push_char, trim, trim_string};
use crate::workflow::str_from_utf8;

verus! {

// ---------------------------------------------------------------------
// Looking up a key in a TOML document
// ---------------------------------------------------------------------

/// What a lookup of a three-key path found in a TOML document.
#[derive(Debug)]
pub enum TomlLookup {
    /// The text is no TOML document; the parser's message.
    Unparsable(String),
    /// A key of the path is missing, or a value on the way is no table.
    Missing,
    /// The value is a boolean.
    Boolean(bool),
    /// The value is of another kind; its TOML rendering.
    Value(String),
}

/// The mathematical form of a [`TomlLookup`].
pub enum TomlFound {
    Unparsable(Seq<char>),
    Missing,
    Boolean(bool),
    Value(Seq<char>),
}

impl View for TomlLookup {
    type V = TomlFound;

    open spec fn view(&self) -> TomlFound {
        match self {
            TomlLookup::Unparsable(e) => TomlFound::Unparsable(e@),
            TomlLookup::Missing => TomlFound::Missing,
            TomlLookup::Boolean(b) => TomlFound::Boolean(*b),
            TomlLookup::Value(v) => TomlFound::Value(v@),
        }
    }
}

/// What `text`, parsed as a TOML document, holds under
/// `table.section.key` (`toml::Value::from_str`, three `Value::get`, and the
/// value's `Display` for a value that is not a boolean).
pub uninterp spec fn toml_lookup_result(
    text: Seq<char>,
    table: Seq<char>,
    section: Seq<char>,
    key: Seq<char>,
) -> TomlFound;

/// Parses `text` as a TOML document (`str::parse::<toml::Value>`) and looks
/// up `table`, then `section` in it, then `key` in that (`toml::Value::get`
/// three times; a lookup in a value that is no table finds nothing). A
/// boolean is returned as such, any other value as its TOML text
/// (`Display` of `toml::Value`), a parse error as its message. The result
/// is named `toml_lookup_result`.
#[verifier::external_body]
fn toml_lookup(text: &str, table: &str, section: &str, key: &str) -> (r: TomlLookup)
    ensures
        r@ == toml_lookup_result(text@, table@, section@, key@),
{
    match text.parse::<toml::Value>() {
        Err(e) => TomlLookup::Unparsable(e.to_string()),
        Ok(doc) => match doc.get(table).and_then(|t| t.get(section)).and_then(|s| s.get(key)) {
            None => TomlLookup::Missing,
            Some(toml::Value::Boolean(b)) => TomlLookup::Boolean(*b),
            Some(v) => TomlLookup::Value(v.to_string()),
        },
    }
}

// ---------------------------------------------------------------------
// Overflow checks in the release profile
// ---------------------------------------------------------------------

/// The lint message of the overflow check.
pub open spec fn overflow_lint_message() -> Seq<char> {
    "Use `overflow-checks = true` in Cargo.toml profile"@
}

/// The help of the overflow check.
pub open spec fn overflow_lint_help() -> Seq<char> {
    "Enable overflow-checks on the release profile"@
}

/// What the overflow check concludes from a manifest.
#[derive(Debug)]
pub enum OverflowVerdict {
    /// `profile.release.overflow-checks` is `true`: nothing to report.
    Enabled,
    /// It is missing or anything but `true`: the lint is reported.
    NotEnabled,
    /// The manifest does not parse: a warning with this text is emitted.
    Unreadable(String),
}

/// The mathematical form of an [`OverflowVerdict`].
pub enum OverflowFinding {
    Enabled,
    NotEnabled,
    Unreadable(Seq<char>),
}

impl View for OverflowVerdict {
    type V = OverflowFinding;

    open spec fn view(&self) -> OverflowFinding {
        match self {
            OverflowVerdict::Enabled => OverflowFinding::Enabled,
            OverflowVerdict::NotEnabled => OverflowFinding::NotEnabled,
            OverflowVerdict::Unreadable(m) => OverflowFinding::Unreadable(m@),
        }
    }
}

/// The overflow check's conclusion from what the manifest holds under
/// `profile.release.overflow-checks`.
pub open spec fn overflow_verdict_of(found: TomlFound) -> OverflowFinding {
    match found {
        TomlFound::Unparsable(e) => OverflowFinding::Unreadable(
            "Failed to parse Cargo.toml: "@ + e,
        ),
        TomlFound::Boolean(true) => OverflowFinding::Enabled,
        _ => OverflowFinding::NotEnabled,
    }
}

/// The overflow check's conclusion from the lookup of
/// `profile.release.overflow-checks`.
pub fn overflow_verdict(found: &TomlLookup) -> (r: OverflowVerdict)
    ensures
        r@ == overflow_verdict_of(found@),
{
    match found {
        TomlLookup::Unparsable(e) => {
            let mut m = String::from_str("Failed to parse Cargo.toml: ");
            m.append(e.as_str());
            OverflowVerdict::Unreadable(m)
        },
        TomlLookup::Boolean(b) => {
            if *b {
                OverflowVerdict::Enabled
            } else {
                OverflowVerdict::NotEnabled
            }
        },
        _ => OverflowVerdict::NotEnabled,
    }
}

/// Checks the text of a workspace's `Cargo.toml`: overflow checks must be
/// switched on for the release profile.
pub fn check_overflow_manifest(cargo_toml: &str) -> (r: OverflowVerdict)
    ensures
        r@ == overflow_verdict_of(
            toml_lookup_result(cargo_toml@, "profile"@, "release"@, "overflow-checks"@),
        ),
{
    let found = toml_lookup(cargo_toml, "profile", "release", "overflow-checks");
    overflow_verdict(&found)
}

/// The lint message of the overflow check.
pub fn overflow_message() -> (r: String)
    ensures
        r@ == overflow_lint_message(),
{
    String::from_str("Use `overflow-checks = true` in Cargo.toml profile")
}

/// The help of the overflow check.
pub fn overflow_help() -> (r: String)
    ensures
        r@ == overflow_lint_help(),
{
    String::from_str("Enable overflow-checks on the release profile")
}

// ---------------------------------------------------------------------
// Where the workspace is
// ---------------------------------------------------------------------

/// Why cargo's answer to `locate-project` could not be read.
#[derive(Debug, PartialEq, Eq, Structural)]
pub enum LocateError {
    /// The output is not valid UTF-8.
    InvalidUtf8,
}

impl LocateError {
    /// The error's message.
    pub fn message(&self) -> (m: String)
        ensures
            m@ == "Output from cargo is not valid UTF-8"@,
    {
        String::from_str("Output from cargo is not valid UTF-8")
    }
}

/// The path of the workspace manifest that `cargo locate-project
/// --workspace --message-format=plain` printed: its output without the
/// surrounding white space.
pub fn located_manifest(stdout: &Vec<u8>) -> (r: Result<String, LocateError>)
    ensures
        !vstd::utf8::valid_utf8(stdout@) ==> r == Err::<String, LocateError>(LocateError::InvalidUtf8),
        vstd::utf8::valid_utf8(stdout@) ==> (r matches Ok(p) && p@ == trim(
            vstd::utf8::decode_utf8(stdout@),
        )),
{
    match str_from_utf8(stdout.as_slice()) {
        Some(t) => Ok(trim_string(t.as_str())),
        None => Err(LocateError::InvalidUtf8),
    }
}

// ---------------------------------------------------------------------
// The ink! version
// ---------------------------------------------------------------------

/// `s` without any occurrence of `c` (`str::replace(c, "")`).
pub open spec fn without_char(s: Seq<char>, c: char) -> Seq<char>
    decreases s.len(),
{
    if s.len() == 0 {
        s
    } else if s.last() == c {
        without_char(s.drop_last(), c)
    } else {
        without_char(s.drop_last(), c).push(s.last())
    }
}

/// `s` with every `c` removed.
pub fn remove_char(s: &str, c: char) -> (r: String)
    ensures
        r@ == without_char(s@, c),
{
    let v = chars_of(s);
    let mut r = String::new();
    let mut i: usize = 0;
    while i < v.len()
        invariant
            0 <= i <= v@.len(),
            v@ == s@,
            r@ == without_char(v@.subrange(0, i as int), c),
        decreases v@.len() - i,
    {
        assert(v@.subrange(0, i as int + 1).drop_last() =~= v@.subrange(0, i as int));
        if v[i] != c {
            push_char(&mut r, v[i]);
        }
        i = i + 1;
    }
    assert(v@.subrange(0, v@.len() as int) =~= v@);
    r
}

/// Whether `text` is a semantic version (`semver::Version::parse`
/// succeeds).
pub uninterp spec fn semver_version_valid(text: Seq<char>) -> bool;

/// The requirement that `text` states, by its `Display` form, or `None`
/// when it is no version requirement (`semver::VersionReq::parse`, then
/// `Display` of `VersionReq`).
pub uninterp spec fn semver_requirement(text: Seq<char>) -> Option<Seq<char>>;

/// Whether the requirement parsed from `requirement` admits the version
/// parsed from `version` (`semver::VersionReq::matches`).
pub uninterp spec fn semver_matches(requirement: Seq<char>, version: Seq<char>) -> bool;

/// What comparing a requirement with a version gave.
#[derive(Debug)]
pub enum SemverOutcome {
    /// The version does not parse.
    InvalidVersion,
    /// The version parses, the requirement does not.
    InvalidRequirement,
    /// Both parse; whether the requirement admits the version, and the
    /// requirement's normal text.
    Compared { matches: bool, requirement: String },
}

/// The mathematical form of a [`SemverOutcome`].
pub enum SemverComparison {
    InvalidVersion,
    InvalidRequirement,
    Compared { matches: bool, requirement: Seq<char> },
}

impl View for SemverOutcome {
    type V = SemverComparison;

    open spec fn view(&self) -> SemverComparison {
        match self {
            SemverOutcome::InvalidVersion => SemverComparison::InvalidVersion,
            SemverOutcome::InvalidRequirement => SemverComparison::InvalidRequirement,
            SemverOutcome::Compared { matches, requirement } => SemverComparison::Compared {
                matches: *matches,
                requirement: requirement@,
            },
        }
    }
}

/// The outcome of parsing `version`, then `requirement`, and comparing them.
pub open spec fn semver_comparison(requirement: Seq<char>, version: Seq<char>) -> SemverComparison {
    if !semver_version_valid(version) {
        SemverComparison::InvalidVersion
    } else {
        match semver_requirement(requirement) {
            None => SemverComparison::InvalidRequirement,
            Some(d) => SemverComparison::Compared {
                matches: semver_matches(requirement, version),
                requirement: d,
            },
        }
    }
}

/// Parses `version` (`semver::Version::parse`), then `requirement`
/// (`semver::VersionReq::parse`), and when both parse tells whether the
/// requirement admits the version (`VersionReq::matches`), with the
/// requirement's `Display` text. Each of the three calls has its name:
/// `semver_version_valid`, `semver_requirement`, `semver_matches`.
#[verifier::external_body]
fn compare_semver(requirement: &str, version: &str) -> (r: SemverOutcome)
    ensures
        !semver_version_valid(version@) ==> r is InvalidVersion,
        semver_version_valid(version@) ==> match semver_requirement(requirement@) {
            None => r is InvalidRequirement,
            Some(d) => r matches SemverOutcome::Compared { matches, requirement: q } && matches
                == semver_matches(requirement@, version@) && q@ == d,
        },
{
    let v = match semver::Version::parse(version) {
        Ok(v) => v,
        Err(_) => return SemverOutcome::InvalidVersion,
    };
    let req = match semver::VersionReq::parse(requirement) {
        Ok(req) => req,
        Err(_) => return SemverOutcome::InvalidRequirement,
    };
    SemverOutcome::Compared { matches: req.matches(&v), requirement: req.to_string() }
}

/// What the ink! version check concludes.
#[derive(Debug)]
pub enum InkVersionCheck {
    /// The manifest names no `ink` version, or the named requirement admits
    /// the latest release: nothing to report.
    Current,
    /// The requirement does not admit the latest release: the lint is
    /// reported with this help.
    Outdated(String),
    /// The manifest does not parse (the parser's message).
    ManifestUnparsable(String),
    /// The latest release is no semantic version.
    InvalidLatestVersion,
    /// The manifest's `ink` version is no version requirement.
    InvalidRequirement,
}

/// The mathematical form of an [`InkVersionCheck`].
pub enum InkVerdict {
    Current,
    Outdated(Seq<char>),
    ManifestUnparsable(Seq<char>),
    InvalidLatestVersion,
    InvalidRequirement,
}

impl View for InkVersionCheck {
    type V = InkVerdict;

    open spec fn view(&self) -> InkVerdict {
        match self {
            InkVersionCheck::Current => InkVerdict::Current,
            InkVersionCheck::Outdated(h) => InkVerdict::Outdated(h@),
            InkVersionCheck::ManifestUnparsable(e) => InkVerdict::ManifestUnparsable(e@),
            InkVersionCheck::InvalidLatestVersion => InkVerdict::InvalidLatestVersion,
            InkVersionCheck::InvalidRequirement => InkVerdict::InvalidRequirement,
        }
    }
}

/// The help of the ink! version lint.
pub open spec fn ink_version_help(latest: Seq<char>, requirement: Seq<char>) -> Seq<char> {
    "The latest ink! version is "@ + latest + ", and your version is "@ + requirement
}

/// The verdict once the manifest's requirement has been compared with the
/// latest release `latest` (as the registry gave it).
pub open spec fn ink_verdict_of(latest: Seq<char>, outcome: SemverComparison) -> InkVerdict {
    match outcome {
        SemverComparison::InvalidVersion => InkVerdict::InvalidLatestVersion,
        SemverComparison::InvalidRequirement => InkVerdict::InvalidRequirement,
        SemverComparison::Compared { matches, requirement } => if matches {
            InkVerdict::Current
        } else {
            InkVerdict::Outdated(ink_version_help(latest, requirement))
        },
    }
}

/// The text of the `ink` version that the manifest states, as TOML
/// renders it, or `None` when it states none.
pub open spec fn stated_version(found: TomlFound) -> Option<Seq<char>> {
    match found {
        TomlFound::Boolean(b) => Some(if b { "true"@ } else { "false"@ }),
        TomlFound::Value(t) => Some(t),
        _ => None,
    }
}

/// The verdict of the ink! version check on what the manifest holds under
/// `dependencies.ink.version` and on the latest release `latest`: the
/// stated version and the latest release are compared with their double
/// quotes removed.
pub open spec fn ink_check_of(found: TomlFound, latest: Seq<char>) -> InkVerdict {
    match found {
        TomlFound::Unparsable(e) => InkVerdict::ManifestUnparsable(e),
        TomlFound::Missing => InkVerdict::Current,
        _ => ink_verdict_of(
            latest,
            semver_comparison(
                without_char(stated_version(found).unwrap(), '"'),
                without_char(latest, '"'),
            ),
        ),
    }
}

/// The verdict from the comparison of the manifest's requirement with the
/// latest release `latest_version`.
pub fn ink_version_verdict(latest_version: &str, outcome: &SemverOutcome) -> (r: InkVersionCheck)
    ensures
        r@ == ink_verdict_of(latest_version@, outcome@),
{
    match outcome {
        SemverOutcome::InvalidVersion => InkVersionCheck::InvalidLatestVersion,
        SemverOutcome::InvalidRequirement => InkVersionCheck::InvalidRequirement,
        SemverOutcome::Compared { matches, requirement } => {
            if *matches {
                InkVersionCheck::Current
            } else {
                let mut h = String::from_str("The latest ink! version is ");
                h.append(latest_version);
                h.append(", and your version is ");
                h.append(requirement.as_str());
                InkVersionCheck::Outdated(h)
            }
        },
    }
}

/// Checks the `ink` dependency that the text of a `Cargo.toml` states
/// against the latest ink! release `latest_version`.
pub fn check_ink_version(cargo_toml: &str, latest_version: &str) -> (r: InkVersionCheck)
    ensures
        r@ == ink_check_of(
            toml_lookup_result(cargo_toml@, "dependencies"@, "ink"@, "version"@),
            latest_version@,
        ),
{
    let found = toml_lookup(cargo_toml, "dependencies", "ink", "version");
    let stated = match &found {
        TomlLookup::Unparsable(e) => {
            return InkVersionCheck::ManifestUnparsable(e.clone());
        },
        TomlLookup::Missing => {
            return InkVersionCheck::Current;
        },
        TomlLookup::Boolean(b) => if *b {
            String::from_str("true")
        } else {
            String::from_str("false")
        },
        TomlLookup::Value(t) => t.clone(),
    };
    let requirement = remove_char(stated.as_str(), '"');
    let version = remove_char(latest_version, '"');
    let outcome = compare_semver(requirement.as_str(), version.as_str());
    assert(outcome@ == semver_comparison(requirement@, version@));
    ink_version_verdict(latest_version, &outcome)
}

} // verus!
