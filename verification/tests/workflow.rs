use cargo_scout_audit::workflow::{
    active_toolchain, build, cargo, get_detectors_configuration,
    get_local_detectors_configuration, git_dependency_root_from_package, is_special_directory,
    is_special_name, package_library_name, package_with_root, sample_package_id, DetectorSource,
    GitReference, PackageError, PackageTarget, SampleRound, SourceError, ToolchainError,
};

fn strs(xs: &[&str]) -> Vec<String> {
    xs.iter().map(|x| x.to_string()).collect()
}

#[test]
fn default_configuration_is_the_scout_repository() {
    let cs = get_detectors_configuration();
    assert_eq!(cs.len(), 1);
    assert_eq!(cs[0].dependency.name, "library");
    match &cs[0].dependency.source {
        DetectorSource::Git { url, reference } => {
            assert_eq!(url, "https://github.com/CoinFabrik/scout");
            assert_eq!(*reference, GitReference::DefaultBranch);
        }
        other => panic!("unexpected {:?}", other),
    }
    assert_eq!(cs[0].pattern.as_deref(), Some("detectors/*"));
}

#[test]
fn local_configuration_has_one_library_per_path() {
    let cs = get_local_detectors_configuration(strs(&["/a", "/b"]));
    assert_eq!(cs.len(), 2);
    for (c, p) in cs.iter().zip(["/a", "/b"]) {
        assert_eq!(c.dependency.name, "library");
        assert!(matches!(&c.dependency.source, DetectorSource::Path(q) if q == p));
        assert!(c.pattern.is_none());
    }
    assert!(get_local_detectors_configuration(vec![]).is_empty());
}

#[test]
fn cargo_invocations() {
    let loud = cargo("check", "Checking", "things", false);
    assert_eq!(loud.message.as_deref(), Some("Checking things"));
    assert_eq!(loud.args, strs(&["check"]));
    assert!(!loud.stderr_null);
    let quiet = build("detectors", true);
    assert!(quiet.message.is_none());
    assert_eq!(quiet.args, strs(&["build"]));
    assert!(quiet.stderr_null);
    assert_eq!(build("detectors", false).message.as_deref(), Some("Building detectors"));
}

#[test]
fn toolchain_is_the_first_word() {
    assert_eq!(
        active_toolchain(&b"nightly-2023-01-01-x86_64 (overridden)\n".to_vec()).unwrap(),
        "nightly-2023-01-01-x86_64"
    );
    assert_eq!(active_toolchain(&b"stable\n".to_vec()), Err(ToolchainError::Undetermined));
    assert_eq!(active_toolchain(&vec![0xc3, 0x28]), Err(ToolchainError::InvalidUtf8));
}

#[test]
fn special_directories() {
    assert!(is_special_name(&Some(".git".to_string())));
    assert!(is_special_name(&Some("target".to_string())));
    assert!(is_special_name(&Some(".cargo".to_string())));
    assert!(!is_special_name(&Some("src".to_string())));
    assert!(!is_special_name(&None));
    assert!(is_special_directory("/work/project/target"));
    assert!(!is_special_directory("/work/project/src"));
    assert!(!is_special_directory("/"));
    assert!(is_special_directory("project/.git"));
    assert!(is_special_directory(".cargo"));
    assert!(!is_special_directory("project/target/.."));
    assert!(!is_special_directory("targets"));
}

#[test]
fn git_checkout_root() {
    let git = strs(&["/", "home", ".cargo", "git"]);
    let root = strs(&["/", "home", ".cargo", "git", "checkouts", "scout-1", "abc", "detectors", "x"]);
    assert_eq!(
        git_dependency_root_from_package(&root, &git, "r").unwrap(),
        strs(&["/", "home", ".cargo", "git", "checkouts", "scout-1", "abc"])
    );
    let short = strs(&["/", "home", ".cargo", "git", "checkouts", "scout-1"]);
    assert_eq!(git_dependency_root_from_package(&short, &git, "r").unwrap(), short);
    let elsewhere = strs(&["/", "tmp", "x"]);
    match git_dependency_root_from_package(&elsewhere, &git, "/tmp/x") {
        Err(SourceError::UnexpectedPath(t)) => assert_eq!(t, "/tmp/x"),
        other => panic!("unexpected {:?}", other),
    }
}

#[test]
fn sampling_a_package() {
    assert_eq!(sample_package_id(None, &vec![], true), SampleRound::Again(None));
    assert_eq!(sample_package_id(None, &vec![4, 5], true), SampleRound::Done(Some(4)));
    assert_eq!(sample_package_id(Some(9), &vec![4], true), SampleRound::Done(Some(9)));
    assert_eq!(sample_package_id(None, &vec![], false), SampleRound::Done(None));
}

#[test]
fn package_with_root_picks_the_single_match() {
    let a = Some(strs(&["/", "w", "a"]));
    let b = Some(strs(&["/", "w", "b"]));
    let root = strs(&["/", "w", "b"]);
    assert_eq!(package_with_root(&vec![a.clone(), b.clone()], &root, "/w/b").unwrap(), 1);
    assert!(matches!(
        package_with_root(&vec![b.clone(), b.clone()], &root, "/w/b"),
        Err(PackageError::Multiple(t)) if t == "/w/b"
    ));
    assert!(matches!(
        package_with_root(&vec![a.clone()], &root, "/w/b"),
        Err(PackageError::NotFound(t)) if t == "/w/b"
    ));
    assert!(matches!(package_with_root(&vec![a, None, b], &root, "/w/b"), Err(PackageError::NoParent)));
}

#[test]
fn package_library_is_the_first_cdylib() {
    let ts = vec![
        PackageTarget { kind: strs(&["lib"]), name: "x".to_string() },
        PackageTarget { kind: strs(&["rlib", "cdylib"]), name: "y".to_string() },
        PackageTarget { kind: strs(&["cdylib"]), name: "z".to_string() },
    ];
    assert_eq!(package_library_name(&ts, "id").unwrap(), "y");
    assert!(matches!(
        package_library_name(&ts[..1].iter().map(|t| PackageTarget { kind: t.kind.clone(), name: t.name.clone() }).collect(), "pkg 1.0"),
        Err(PackageError::NoCdylib(t)) if t == "pkg 1.0"
    ));
}
