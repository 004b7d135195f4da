//! The decisions of the command-line tool around the detectors: where the
//! detector libraries come from, how `cargo` is invoked, which toolchain
//! `rustup` reports, which directories are skipped, where a git checkout
//! lives in cargo's cache, which package of a workspace is meant, and what
//! the built libraries are called.
//!
//! The processes, the file system and cargo's own sources stay with the
//! caller, which hands over what they produced as plain values (paths as
//! their component names).
use vstd::prelude::*;
use crate::text::{chars_of, string_from_chars, text_eq, views};

verus! {

// ---------------------------------------------------------------------
// Where the detectors come from
// ---------------------------------------------------------------------

/// The git reference that a git source follows.
#[derive(Clone, Copy, PartialEq, Eq, Structural, Debug)]
pub enum GitReference {
    DefaultBranch,
}

/// Where a detector library is fetched from.
#[derive(Debug)]
pub enum DetectorSource {
    Git { url: String, reference: GitReference },
    Path(String),
}

/// The dependency on a detector library: its package name and source.
#[derive(Debug)]
pub struct DetectorDependency {
    pub name: String,
    pub source: DetectorSource,
}

/// A detector library and the pattern of its detector packages.
#[derive(Debug)]
pub struct DetectorConfiguration {
    pub dependency: DetectorDependency,
    pub pattern: Option<String>,
}

/// The default detector library: the `detectors/*` packages of the scout
/// repository, on its default branch.
pub fn get_detectors_configuration() -> (r: Vec<DetectorConfiguration>)
    ensures
        r@.len() == 1,
        r@[0].dependency.name@ == "library"@,
        r@[0].dependency.source matches DetectorSource::Git { url, reference } && url@
            == "https://github.com/CoinFabrik/scout"@ && reference == GitReference::DefaultBranch,
        r@[0].pattern matches Some(p) && p@ == "detectors/*"@,
{
    let mut r: Vec<DetectorConfiguration> = Vec::new();
    r.push(
        DetectorConfiguration {
            dependency: DetectorDependency {
                name: String::from_str("library"),
                source: DetectorSource::Git {
                    url: String::from_str("https://github.com/CoinFabrik/scout"),
                    reference: GitReference::DefaultBranch,
                },
            },
            pattern: Some(String::from_str("detectors/*")),
        },
    );
    r
}

/// One detector library per local path, with no pattern.
pub fn get_local_detectors_configuration(paths: Vec<String>) -> (r: Vec<DetectorConfiguration>)
    ensures
        r@.len() == paths@.len(),
        forall|i: int|
            0 <= i < r@.len() ==> {
                &&& (#[trigger] r@[i]).dependency.name@ == "library"@
                &&& r@[i].dependency.source matches DetectorSource::Path(p) && p@ == paths@[i]@
                &&& r@[i].pattern is None
            },
{
    let mut r: Vec<DetectorConfiguration> = Vec::new();
    let mut i: usize = 0;
    while i < paths.len()
        invariant
            0 <= i <= paths@.len(),
            r@.len() == i,
            forall|k: int|
                0 <= k < i ==> {
                    &&& (#[trigger] r@[k]).dependency.name@ == "library"@
                    &&& r@[k].dependency.source matches DetectorSource::Path(p) && p@ == paths@[k]@
                    &&& r@[k].pattern is None
                },
        decreases paths@.len() - i,
    {
        let p = paths[i].clone();
        r.push(
            DetectorConfiguration {
                dependency: DetectorDependency {
                    name: String::from_str("library"),
                    source: DetectorSource::Path(p),
                },
                pattern: None,
            },
        );
        i = i + 1;
    }
    r
}

// ---------------------------------------------------------------------
// Invoking cargo
// ---------------------------------------------------------------------

/// A `cargo` invocation: the progress message to print first (unless
/// quiet), the arguments, and whether its error output is discarded.
#[derive(Debug)]
pub struct CargoInvocation {
    pub message: Option<String>,
    pub args: Vec<String>,
    pub stderr_null: bool,
}

/// The invocation of `cargo <subcommand>` announced as `<verb>
/// <description>`.
pub fn cargo(subcommand: &str, verb: &str, description: &str, quiet: bool) -> (r: CargoInvocation)
    ensures
        quiet == r.message is None,
        r.message matches Some(m) ==> m@ == verb@ + " "@ + description@,
        r.args@.len() == 1,
        r.args@[0]@ == subcommand@,
        r.stderr_null == quiet,
{
    let message = if !quiet {
        let mut m = String::from_str(verb);
        m.append(" ");
        m.append(description);
        Some(m)
    } else {
        None
    };
    let mut args: Vec<String> = Vec::new();
    args.push(String::from_str(subcommand));
    CargoInvocation { message, args, stderr_null: quiet }
}

/// The invocation of `cargo build` announced as `Building <description>`.
pub fn build(description: &str, quiet: bool) -> (r: CargoInvocation)
    ensures
        quiet == r.message is None,
        r.message matches Some(m) ==> m@ == "Building "@ + description@,
        r.args@.len() == 1,
        r.args@[0]@ == "build"@,
        r.stderr_null == quiet,
{
    let r = cargo("build", "Building", description, quiet);
    proof {
        reveal_strlit("Building");
        reveal_strlit(" ");
        reveal_strlit("Building ");
        assert("Building"@ + " "@ =~= "Building "@);
    }
    r
}

// ---------------------------------------------------------------------
// The active toolchain
// ---------------------------------------------------------------------

/// Why the active toolchain could not be read.
#[derive(Clone, Copy, PartialEq, Eq, Structural, Debug)]
pub enum ToolchainError {
    /// The output of `rustup` is not UTF-8.
    InvalidUtf8,
    /// The output has no space after the toolchain name.
    Undetermined,
}

/// The text that `bytes` encode, when they are valid UTF-8
/// (`std::str::from_utf8`).
#[verifier::external_body]
pub(crate) fn str_from_utf8(bytes: &[u8]) -> (r: Option<String>)
    ensures
        r is Some == vstd::utf8::valid_utf8(bytes@),
        r matches Some(s) ==> s@ == vstd::utf8::decode_utf8(bytes@),
{
    match std::str::from_utf8(bytes) {
        Ok(s) => Some(s.to_string()),
        Err(_) => None,
    }
}

/// The index of the first space in `s`, if any.
pub open spec fn first_space(s: Seq<char>) -> Option<int>
    decreases s.len(),
{
    if s.len() == 0 {
        None
    } else {
        match first_space(s.drop_last()) {
            Some(i) => Some(i),
            None => if s.last() == ' ' {
                Some(s.len() - 1)
            } else {
                None
            },
        }
    }
}

/// The toolchain that the output of `rustup show active-toolchain` names:
/// the text before the first space.
pub open spec fn toolchain_of(out: Seq<u8>) -> Result<Seq<char>, ToolchainError> {
    if !vstd::utf8::valid_utf8(out) {
        Err(ToolchainError::InvalidUtf8)
    } else {
        let s = vstd::utf8::decode_utf8(out);
        match first_space(s) {
            Some(i) => Ok(s.take(i)),
            None => Err(ToolchainError::Undetermined),
        }
    }
}

fn first_space_exec(v: &Vec<char>) -> (r: Option<usize>)
    ensures
        r matches Some(i) ==> first_space(v@) == Some(i as int) && i < v@.len(),
        r is None ==> first_space(v@) is None,
{
    let mut i: usize = 0;
    while i < v.len()
        invariant
            0 <= i <= v@.len(),
            first_space(v@.take(i as int)) is None,
        decreases v@.len() - i,
    {
        assert(v@.take(i + 1).drop_last() =~= v@.take(i as int));
        if v[i] == ' ' {
            proof {
                lemma_first_space_prefix(v@, (i + 1) as int);
            }
            return Some(i);
        }
        i = i + 1;
    }
    assert(v@.take(v@.len() as int) =~= v@);
    None
}

proof fn lemma_first_space_prefix(s: Seq<char>, n: int)
    requires
        0 <= n <= s.len(),
        first_space(s.take(n)) is Some,
    ensures
        first_space(s) == first_space(s.take(n)),
    decreases s.len() - n,
{
    if n < s.len() {
        assert(s.take(n + 1).drop_last() =~= s.take(n));
        lemma_first_space_prefix(s, n + 1);
    } else {
        assert(s.take(n) =~= s);
    }
}

/// The active toolchain, from the standard output of `rustup show
/// active-toolchain`.
pub fn active_toolchain(stdout: &Vec<u8>) -> (r: Result<String, ToolchainError>)
    ensures
        match toolchain_of(stdout@) {
            Ok(t) => r matches Ok(s) && s@ == t,
            Err(e) => r == Err::<String, ToolchainError>(e),
        },
{
    let text = match str_from_utf8(stdout.as_slice()) {
        Some(t) => t,
        None => {
            return Err(ToolchainError::InvalidUtf8);
        },
    };
    let v = chars_of(text.as_str());
    assert(vstd::utf8::valid_utf8(stdout@));
    assert(v@ == vstd::utf8::decode_utf8(stdout@));
    match first_space_exec(&v) {
        Some(i) => {
            let s = string_from_chars(v.as_slice(), 0, i);
            assert(v@.subrange(0, i as int) =~= v@.take(i as int));
            assert(toolchain_of(stdout@) == Ok::<Seq<char>, ToolchainError>(v@.take(i as int)));
            Ok(s)
        },
        None => {
            assert(toolchain_of(stdout@) == Err::<Seq<char>, ToolchainError>(ToolchainError::Undetermined));
            Err(ToolchainError::Undetermined)
        },
    }
}

// ---------------------------------------------------------------------
// Directories that are not searched
// ---------------------------------------------------------------------

/// Whether a last path component names a directory that is skipped:
/// `.cargo`, `.git` or `target`.
pub open spec fn special_name(name: Option<Seq<char>>) -> bool {
    match name {
        Some(n) => n == ".cargo"@ || n == ".git"@ || n == "target"@,
        None => false,
    }
}

/// Whether the last path component `name` names a skipped directory.
pub fn is_special_name(name: &Option<String>) -> (b: bool)
    ensures
        b == special_name(
            match name {
                Some(n) => Some(n@),
                None => None,
            },
        ),
{
    match name {
        Some(n) => text_eq(n.as_str(), ".cargo") || text_eq(n.as_str(), ".git") || text_eq(
            n.as_str(),
            "target",
        ),
        None => false,
    }
}

/// The text after the last `/` of `s` (all of `s` when it has none).
pub open spec fn last_segment(s: Seq<char>) -> Seq<char>
    decreases s.len(),
{
    if s.len() == 0 {
        s
    } else if s.last() == '/' {
        Seq::empty()
    } else {
        last_segment(s.drop_last()).push(s.last())
    }
}

/// A path that reads the same on every platform: `/` is its only separator
/// (it holds no `\\`), and it has no Windows prefix (no `:`, and it does not
/// begin with two separators).
pub open spec fn plain_path(s: Seq<char>) -> bool {
    &&& !s.contains('\\')
    &&& !s.contains(':')
    &&& !(s.len() >= 2 && s[0] == '/' && s[1] == '/')
}

/// Whether a segment is `..`, the parent directory.
pub open spec fn parent_segment(seg: Seq<char>) -> bool {
    seg =~= seq!['.', '.']
}

/// A segment that is a normal component: not empty, `.` or `..`.
pub open spec fn normal_segment(seg: Seq<char>) -> bool {
    seg.len() > 0 && !(seg =~= seq!['.']) && !parent_segment(seg)
}

/// The final component of a path, when it is a normal one
/// (`Path::file_name`). How a path is split into components depends on the
/// platform (on Windows `\\` separates too, and a path may begin with a
/// prefix); what is stated holds of plain paths only: when the text after
/// the last `/` is a normal component, it is the file name, and a path that
/// ends in `..` has none. Of other paths nothing is stated.
#[verifier::external_body]
fn path_file_name(path: &str) -> (r: Option<String>)
    ensures
        match r {
            Some(n) => (plain_path(path@) ==> !parent_segment(last_segment(path@))) && (plain_path(
                path@,
            ) && normal_segment(last_segment(path@)) ==> n@ == last_segment(path@)),
            None => !(plain_path(path@) && normal_segment(last_segment(path@))),
        },
{
    std::path::Path::new(path).file_name().map(|n| n.to_string_lossy().into_owned())
}

/// Whether the directory `path` is skipped: its last component is `.cargo`,
/// `.git` or `target`. The last component is whatever the platform's path
/// rules make it; for a plain path it is the text after the last `/`.
pub fn is_special_directory(path: &str) -> (b: bool)
    ensures
        plain_path(path@) && normal_segment(last_segment(path@)) ==> b == special_name(
            Some(last_segment(path@)),
        ),
        plain_path(path@) && parent_segment(last_segment(path@)) ==> !b,
{
    let name = path_file_name(path);
    is_special_name(&name)
}

// ---------------------------------------------------------------------
// Git checkouts in cargo's cache
// ---------------------------------------------------------------------

/// Why a detector library's root could not be found.
#[derive(Debug)]
pub enum SourceError {
    /// The package root is not inside cargo's git checkouts (its path).
    UnexpectedPath(String),
}

/// The root of the git checkout that a downloaded package lies in: the first
/// `git + 3` components of the package root (the git cache directory,
/// `checkouts`, the repository and the revision), provided the package root
/// lies in `<git>/checkouts`.
pub open spec fn checkout_root(package_root: Seq<Seq<char>>, git_path: Seq<Seq<char>>) -> Option<Seq<Seq<char>>> {
    let prefix = git_path.push("checkouts"@);
    if package_root.len() >= prefix.len() && package_root.take(prefix.len() as int) == prefix {
        let n = git_path.len() + 3;
        Some(
            if package_root.len() <= n {
                package_root
            } else {
                package_root.take(n as int)
            },
        )
    } else {
        None
    }
}

/// The root of the git checkout that a downloaded package lies in, from the
/// components of the package root and of cargo's git cache directory;
/// `root_text` is the package root as printed.
pub fn git_dependency_root_from_package(
    package_root: &Vec<String>,
    git_path: &Vec<String>,
    root_text: &str,
) -> (r: Result<Vec<String>, SourceError>)
    requires
        git_path@.len() + 3 <= usize::MAX,
    ensures
        match checkout_root(views(package_root@), views(git_path@)) {
            Some(c) => r matches Ok(v) && views(v@) == c,
            None => r matches Err(SourceError::UnexpectedPath(t)) && t@ == root_text@,
        },
{
    let ghost prefix = views(git_path@).push("checkouts"@);
    let n_prefix = git_path.len() + 1;
    let mut inside = package_root.len() >= n_prefix;
    if inside {
        let mut i: usize = 0;
        while i < git_path.len()
            invariant
                0 <= i <= git_path@.len(),
                package_root@.len() >= git_path@.len() + 1,
                inside == forall|k: int| 0 <= k < i ==> package_root@[k]@ == git_path@[k]@,
            decreases git_path@.len() - i,
        {
            if package_root[i] != git_path[i] {
                inside = false;
            }
            i = i + 1;
        }
        if inside && !text_eq(package_root[git_path.len()].as_str(), "checkouts") {
            inside = false;
        }
        proof {
            if inside {
                assert(views(package_root@).take(prefix.len() as int) =~= prefix);
            } else {
                if views(package_root@).take(prefix.len() as int) == prefix {
                    assert forall|k: int| 0 <= k < git_path@.len() implies package_root@[k]@
                        == git_path@[k]@ by {
                        assert(views(package_root@).take(prefix.len() as int)[k] == prefix[k]);
                    }
                    assert(views(package_root@).take(prefix.len() as int)[git_path@.len() as int]
                        == prefix[git_path@.len() as int]);
                }
            }
        }
    }
    if !inside {
        return Err(SourceError::UnexpectedPath(String::from_str(root_text)));
    }
    let n = git_path.len() + 3;
    let mut r: Vec<String> = Vec::new();
    let mut j: usize = 0;
    while j < package_root.len() && j < n
        invariant
            0 <= j <= package_root@.len(),
            j <= n,
            views(r@) == views(package_root@).take(j as int),
        decreases package_root@.len() - j,
    {
        let ghost prev = r@;
        let c = package_root[j].clone();
        r.push(c);
        assert(r@.drop_last() =~= prev);
        assert(views(r@) =~= views(prev).push(package_root@[j as int]@));
        assert(views(package_root@).take(j + 1) =~= views(package_root@).take(j as int).push(
            package_root@[j as int]@,
        ));
        j = j + 1;
        assert(views(r@) =~= views(package_root@).take(j as int));
    }
    proof {
        if package_root@.len() <= n {
            assert(views(package_root@).take(j as int) =~= views(package_root@));
        }
    }
    Ok(r)
}

// ---------------------------------------------------------------------
// Picking a package from a git source
// ---------------------------------------------------------------------

/// What to do after a query round of a package source.
#[derive(Clone, Copy, PartialEq, Eq, Structural, Debug)]
pub enum SampleRound {
    /// Wait until the source is ready and query again, with the package
    /// found so far.
    Again(Option<u64>),
    /// The search is over, with the package found, if any.
    Done(Option<u64>),
}

/// The package kept after a query round: the one found before, or else the
/// first package the round reported.
pub open spec fn kept_package(found: Option<u64>, reported: Seq<u64>) -> Option<u64> {
    if found is Some {
        found
    } else if reported.len() > 0 {
        Some(reported[0])
    } else {
        None
    }
}

/// One round of the search for a package in a source: the packages that the
/// query `reported`, and whether the query is still `pending`. A pending
/// query is retried while no package was found.
pub fn sample_package_id(found: Option<u64>, reported: &Vec<u64>, pending: bool) -> (r: SampleRound)
    ensures
        r == if pending && kept_package(found, reported@) is None {
            SampleRound::Again(kept_package(found, reported@))
        } else {
            SampleRound::Done(kept_package(found, reported@))
        },
{
    let kept = if found.is_some() {
        found
    } else if reported.len() > 0 {
        Some(reported[0])
    } else {
        None
    };
    if pending && kept.is_none() {
        SampleRound::Again(kept)
    } else {
        SampleRound::Done(kept)
    }
}

// ---------------------------------------------------------------------
// Packages of a workspace
// ---------------------------------------------------------------------

/// Why a package could not be picked.
#[derive(Debug)]
pub enum PackageError {
    /// A manifest path has no parent directory.
    NoParent,
    /// Several packages have the given root (its path as printed).
    Multiple(String),
    /// No package has the given root.
    NotFound(String),
    /// The package has no `cdylib` target (its id).
    NoCdylib(String),
}

/// The indices of the packages whose manifest directory is `root`.
pub open spec fn packages_at(parents: Seq<Option<Vec<String>>>, root: Seq<Seq<char>>) -> Seq<int>
    decreases parents.len(),
{
    if parents.len() == 0 {
        Seq::empty()
    } else {
        packages_at(parents.drop_last(), root) + match parents.last() {
            Some(p) => if views(p@) == root {
                seq![parents.len() - 1]
            } else {
                Seq::empty()
            },
            None => Seq::empty(),
        }
    }
}

fn same_path(a: &Vec<String>, b: &Vec<String>) -> (r: bool)
    ensures
        r == (views(a@) == views(b@)),
{
    if a.len() != b.len() {
        assert(views(a@).len() != views(b@).len());
        return false;
    }
    let mut i: usize = 0;
    while i < a.len()
        invariant
            0 <= i <= a@.len(),
            a@.len() == b@.len(),
            forall|k: int| 0 <= k < i ==> a@[k]@ == b@[k]@,
        decreases a@.len() - i,
    {
        if a[i] != b[i] {
            assert(views(a@)[i as int] != views(b@)[i as int]);
            return false;
        }
        i = i + 1;
    }
    assert(views(a@) =~= views(b@));
    true
}

/// The package of a workspace whose manifest lies in the directory `root`,
/// from the manifest directories of the packages (`None` where a manifest
/// path has no parent); `root_text` is the root as printed.
pub fn package_with_root(parents: &Vec<Option<Vec<String>>>, root: &Vec<String>, root_text: &str) -> (r:
    Result<usize, PackageError>)
    ensures
        (exists|k: int| 0 <= k < parents@.len() && #[trigger] parents@[k] is None) ==> r matches Err(
            PackageError::NoParent,
        ),
        (forall|k: int| 0 <= k < parents@.len() ==> #[trigger] parents@[k] is Some) ==> {
            let m = packages_at(parents@, views(root@));
            if m.len() == 1 {
                r == Ok::<usize, PackageError>(m[0] as usize)
            } else if m.len() > 1 {
                r matches Err(PackageError::Multiple(t)) && t@ == root_text@
            } else {
                r matches Err(PackageError::NotFound(t)) && t@ == root_text@
            }
        },
{
    let mut found: Vec<usize> = Vec::new();
    let mut i: usize = 0;
    while i < parents.len()
        invariant
            0 <= i <= parents@.len(),
            forall|k: int| 0 <= k < i ==> #[trigger] parents@[k] is Some,
            found@.len() == packages_at(parents@.take(i as int), views(root@)).len(),
            forall|k: int|
                0 <= k < found@.len() ==> found@[k] as int == packages_at(
                    parents@.take(i as int),
                    views(root@),
                )[k],
        decreases parents@.len() - i,
    {
        assert(parents@.take(i + 1).drop_last() =~= parents@.take(i as int));
        match &parents[i] {
            None => {
                return Err(PackageError::NoParent);
            },
            Some(p) => {
                if same_path(p, root) {
                    found.push(i);
                }
            },
        }
        i = i + 1;
    }
    assert(parents@.take(parents@.len() as int) =~= parents@);
    if found.len() > 1 {
        Err(PackageError::Multiple(String::from_str(root_text)))
    } else if found.len() == 1 {
        Ok(found[0])
    } else {
        Err(PackageError::NotFound(String::from_str(root_text)))
    }
}

/// A build target of a package: its kinds and its name.
#[derive(Debug)]
pub struct PackageTarget {
    pub kind: Vec<String>,
    pub name: String,
}

/// Whether a target is a `cdylib`.
pub open spec fn is_cdylib(t: PackageTarget) -> bool {
    exists|k: int| 0 <= k < t.kind@.len() && (#[trigger] t.kind@[k])@ == "cdylib"@
}

/// The index of the first `cdylib` target, if any.
pub open spec fn first_cdylib(targets: Seq<PackageTarget>) -> Option<int>
    decreases targets.len(),
{
    if targets.len() == 0 {
        None
    } else {
        match first_cdylib(targets.drop_last()) {
            Some(i) => Some(i),
            None => if is_cdylib(targets.last()) {
                Some(targets.len() - 1)
            } else {
                None
            },
        }
    }
}

fn is_cdylib_exec(t: &PackageTarget) -> (b: bool)
    ensures
        b == is_cdylib(*t),
{
    let mut k: usize = 0;
    while k < t.kind.len()
        invariant
            0 <= k <= t.kind@.len(),
            forall|j: int| 0 <= j < k ==> (#[trigger] t.kind@[j])@ != "cdylib"@,
        decreases t.kind@.len() - k,
    {
        if text_eq(t.kind[k].as_str(), "cdylib") {
            return true;
        }
        k = k + 1;
    }
    false
}

/// The name of the package's first `cdylib` target; `package_id` is the
/// package's id as printed.
pub fn package_library_name(targets: &Vec<PackageTarget>, package_id: &str) -> (r: Result<
    String,
    PackageError,
>)
    ensures
        match first_cdylib(targets@) {
            Some(i) => r matches Ok(n) && n@ == targets@[i].name@,
            None => r matches Err(PackageError::NoCdylib(t)) && t@ == package_id@,
        },
{
    let mut i: usize = 0;
    while i < targets.len()
        invariant
            0 <= i <= targets@.len(),
            first_cdylib(targets@.take(i as int)) is None,
        decreases targets@.len() - i,
    {
        assert(targets@.take(i + 1).drop_last() =~= targets@.take(i as int));
        if is_cdylib_exec(&targets[i]) {
            proof {
                lemma_first_cdylib_prefix(targets@, (i + 1) as int);
            }
            return Ok(targets[i].name.clone());
        }
        i = i + 1;
    }
    assert(targets@.take(targets@.len() as int) =~= targets@);
    Err(PackageError::NoCdylib(String::from_str(package_id)))
}

proof fn lemma_first_cdylib_prefix(s: Seq<PackageTarget>, n: int)
    requires
        0 <= n <= s.len(),
        first_cdylib(s.take(n)) is Some,
    ensures
        first_cdylib(s) == first_cdylib(s.take(n)),
    decreases s.len() - n,
{
    if n < s.len() {
        assert(s.take(n + 1).drop_last() =~= s.take(n));
        lemma_first_cdylib_prefix(s, n + 1);
    } else {
        assert(s.take(n) =~= s);
    }
}

} // verus!
