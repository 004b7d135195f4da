use cargo_scout_audit::listing::{
    detector_name_from_file, filter_detectors, library_file_name, list_detectors, list_detectors_compact,
    numbered_detector_list, plan_scout, ScoutStep,
};
use cargo_scout_audit::selection::{
    contains_name, exclusion_would_exhaust, get_excluded_detectors,
    get_excluded_detectors_checked, get_filtered_detectors, get_parsed_detectors,
    get_used_detectors, get_used_detectors_checked, DetectorError,
};

fn names(xs: &[&str]) -> Vec<String> {
    xs.iter().map(|x| x.to_string()).collect()
}

fn unknown(e: &DetectorError) -> String {
    match e {
        DetectorError::NotFound(n) => n.clone(),
    }
}

#[test]
fn parsed_detectors_are_normalised() {
    assert_eq!(
        get_parsed_detectors("  Unsafe_Unwrap , DIVIDE-before_multiply,x ".to_string()),
        names(&["unsafe-unwrap", "divide-before-multiply", "x"])
    );
    assert_eq!(get_parsed_detectors("".to_string()), names(&[""]));
    assert_eq!(get_parsed_detectors("a,,b".to_string()), names(&["a", "", "b"]));
}

#[test]
fn contains_name_compares_text() {
    let ns = names(&["a", "b"]);
    assert!(contains_name(&ns, &"b".to_string()));
    assert!(!contains_name(&ns, &"c".to_string()));
    assert!(!contains_name(&vec![], &"a".to_string()));
}

#[test]
fn filter_keeps_the_listed_order() {
    let all = names(&["a-b", "c", "d"]);
    assert_eq!(get_filtered_detectors("D, a_b".to_string(), all.clone()).unwrap(), names(&["d", "a-b"]));
    let err = get_filtered_detectors("c,zz,yy".to_string(), all).unwrap_err();
    assert_eq!(unknown(&err), "zz");
    assert_eq!(err.message(), "The detector 'zz' doesn't exist");
}

#[test]
fn exclude_removes_first_occurrences() {
    let all = names(&["a", "b", "a", "c"]);
    assert_eq!(get_excluded_detectors("a, c".to_string(), all.clone()).unwrap(), names(&["b", "a"]));
    assert_eq!(get_excluded_detectors("a,a".to_string(), all.clone()).unwrap(), names(&["b", "c"]));
    let err = get_excluded_detectors("b,nope".to_string(), all).unwrap_err();
    assert_eq!(unknown(&err), "nope");
}

#[test]
fn exclusion_that_runs_out_is_refused_by_the_checked_form() {
    let all = names(&["a", "b"]);
    let parsed = get_parsed_detectors("a,a".to_string());
    assert!(exclusion_would_exhaust(&parsed, &all));
    assert!(get_excluded_detectors_checked("a,a".to_string(), all.clone()).is_none());
    let ok = get_excluded_detectors_checked("a".to_string(), all.clone()).unwrap().unwrap();
    assert_eq!(ok, names(&["b"]));
    // An unknown name before the repetition is reported as unknown.
    let err = get_excluded_detectors_checked("x,a,a".to_string(), all).unwrap().unwrap_err();
    assert_eq!(unknown(&err), "x");
}

#[test]
fn used_detectors_prefer_the_filter() {
    let all = names(&["a", "b", "c"]);
    assert_eq!(
        get_used_detectors(Some("b".to_string()), Some("a".to_string()), all.clone()).unwrap(),
        names(&["b"])
    );
    assert_eq!(get_used_detectors(None, Some("a".to_string()), all.clone()).unwrap(), names(&["b", "c"]));
    assert_eq!(get_used_detectors(None, None, all.clone()).unwrap(), all);
    assert!(get_used_detectors_checked(None, Some("c,c".to_string()), all.clone()).is_none());
    assert!(get_used_detectors_checked(Some("c,c".to_string()), None, all.clone()).is_some());
}

#[test]
fn detector_name_from_library_file() {
    assert_eq!(detector_name_from_file("libunsafe_unwrap@nightly-2023-01-01.so", true), "unsafe-unwrap");
    assert_eq!(detector_name_from_file("unsafe_unwrap@nightly.dll", false), "unsafe-unwrap");
    // The name ends at the next `lib`, as splitting on `lib` does.
    assert_eq!(detector_name_from_file("libcheck_library@x.so", true), "check-");
    assert_eq!(detector_name_from_file("plain", false), "plain");
}

#[test]
fn filter_detectors_keeps_used_libraries() {
    let files = names(&["libunsafe_unwrap@t.so", "libpanic_error@t.so", "libother@t.so"]);
    let used = names(&["panic-error", "unsafe-unwrap"]);
    assert_eq!(filter_detectors(&files, &used, true), vec![true, true, false]);
    assert_eq!(filter_detectors(&files, &vec![], true), vec![false, false, false]);
}

#[test]
fn library_file_name_is_exact() {
    assert_eq!(
        library_file_name("lib", "unsafe-unwrap", "nightly-2023-12-16", ".so"),
        "libunsafe_unwrap@nightly-2023-12-16.so"
    );
    assert_eq!(library_file_name("", "a", "t", ".dll"), "a@t.dll");
}

#[test]
fn list_detectors_draws_a_box() {
    let lines = list_detectors(&names(&["alpha", "beta"]));
    let border = "─".repeat(48);
    assert_eq!(lines.len(), 7);
    assert_eq!(lines[0], format!("┌{}┐", border));
    assert_eq!(lines[1], format!("│{}🔍 Available detectors:{}│", " ".repeat(12), " ".repeat(13)));
    assert_eq!(lines[2], format!("│{}│", " ".repeat(48)));
    assert_eq!(lines[3], format!("│  1. alpha{}│", " ".repeat(38)));
    assert_eq!(lines[4], format!("│  2. beta{}│", " ".repeat(39)));
    assert_eq!(lines[5], lines[2]);
    assert_eq!(lines[6], format!("└{}┘", border));
    assert_eq!(list_detectors(&vec![]).len(), 5);
}

#[test]
fn numbered_list_counts_from_one() {
    assert_eq!(
        numbered_detector_list(&names(&["x", "y"])),
        names(&["--------------------", "Available detectors:\n\n", "1 -> x", "2 -> y"])
    );
}

#[test]
fn plan_scout_decides_the_step() {
    assert_eq!(plan_scout(true, true, true), ScoutStep::Conflict);
    assert_eq!(plan_scout(true, false, true), ScoutStep::List);
    assert_eq!(plan_scout(false, true, false), ScoutStep::Run);
    assert_eq!(plan_scout(false, false, false), ScoutStep::Run);
}

#[test]
fn compact_box_keeps_numbers_as_they_are() {
    let lines = list_detectors_compact(&names(&["alpha"]));
    assert_eq!(lines.len(), 6);
    assert_eq!(lines[3], format!("│ 1. alpha{}│", " ".repeat(39)));
    let many: Vec<String> = (0..10).map(|i| format!("d{}", i)).collect();
    let lines = list_detectors_compact(&many);
    assert_eq!(lines[12], format!("│ 10. d9{}│", " ".repeat(42)));
}
