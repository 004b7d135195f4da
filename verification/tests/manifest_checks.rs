use cargo_scout_audit::manifest::{
    check_ink_version, check_overflow_manifest, located_manifest, remove_char, InkVersionCheck,
    LocateError, OverflowVerdict,
};

#[test]
fn overflow_checks_enabled_is_clean() {
    let toml = "[package]\nname = \"x\"\n\n[profile.release]\noverflow-checks = true\n";
    assert!(matches!(check_overflow_manifest(toml), OverflowVerdict::Enabled));
}

#[test]
fn overflow_checks_missing_is_reported() {
    let toml = "[package]\nname = \"x\"\n";
    assert!(matches!(check_overflow_manifest(toml), OverflowVerdict::NotEnabled));
}

#[test]
fn overflow_checks_false_is_reported() {
    let toml = "[profile.release]\noverflow-checks = false\n";
    assert!(matches!(check_overflow_manifest(toml), OverflowVerdict::NotEnabled));
}

#[test]
fn overflow_checks_not_boolean_is_reported() {
    let toml = "[profile.release]\noverflow-checks = \"true\"\n";
    assert!(matches!(check_overflow_manifest(toml), OverflowVerdict::NotEnabled));
}

#[test]
fn overflow_check_unparsable_manifest_warns() {
    match check_overflow_manifest("[profile\nthis is not toml") {
        OverflowVerdict::Unreadable(m) => assert!(m.starts_with("Failed to parse Cargo.toml: ")),
        other => panic!("unexpected {:?}", other),
    }
}

#[test]
fn remove_char_drops_every_quote() {
    assert_eq!(remove_char("\"4.2.0\"", '"'), "4.2.0");
    assert_eq!(remove_char("a\"b\"\"c", '"'), "abc");
    assert_eq!(remove_char("", '"'), "");
}

#[test]
fn ink_version_matching_requirement_is_current() {
    let toml = "[dependencies]\nink = { version = \"4.2.0\", default-features = false }\n";
    assert!(matches!(check_ink_version(toml, "\"4.3.0\""), InkVersionCheck::Current));
}

#[test]
fn ink_version_outdated_requirement_is_reported() {
    let toml = "[dependencies]\nink = { version = \"=4.2.0\" }\n";
    match check_ink_version(toml, "\"5.0.0\"") {
        InkVersionCheck::Outdated(h) => {
            assert_eq!(h, "The latest ink! version is \"5.0.0\", and your version is =4.2.0")
        }
        other => panic!("unexpected {:?}", other),
    }
}

#[test]
fn ink_version_absent_is_current() {
    let toml = "[dependencies]\nink = \"4.2.0\"\n";
    assert!(matches!(check_ink_version(toml, "\"5.0.0\""), InkVersionCheck::Current));
    let toml = "[package]\nname = \"x\"\n";
    assert!(matches!(check_ink_version(toml, "\"5.0.0\""), InkVersionCheck::Current));
}

#[test]
fn ink_version_errors() {
    let toml = "[dependencies]\nink = { version = \"4.2.0\" }\n";
    assert!(matches!(check_ink_version(toml, "latest"), InkVersionCheck::InvalidLatestVersion));
    let bad = "[dependencies]\nink = { version = \"four\" }\n";
    assert!(matches!(check_ink_version(bad, "\"5.0.0\""), InkVersionCheck::InvalidRequirement));
    assert!(matches!(
        check_ink_version("[dependencies", "\"5.0.0\""),
        InkVersionCheck::ManifestUnparsable(_)
    ));
}

#[test]
fn located_manifest_trims_and_rejects_bad_utf8() {
    assert_eq!(located_manifest(&b"  /w/Cargo.toml\n".to_vec()).unwrap(), "/w/Cargo.toml");
    assert_eq!(located_manifest(&vec![0xff, 0xfe]), Err(LocateError::InvalidUtf8));
}
