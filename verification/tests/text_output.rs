use cargo_scout_audit::lazy_values::{
    get_locals_in_rvalue, upward_closure_exec, FnBody, FunFinderVisitor, LazyValuesNotSet,
};
use cargo_scout_audit::mir::{BasicBlock, Constant, Operand, Place, Rvalue, Span, Terminator};
use cargo_scout_audit::output::{
    collect_errors, findings_html, get_errors_from_output, internal_span, reported_findings,
    sarif_results, DetectorFindings, DetectorInfo, OutputError,
};
use cargo_scout_audit::text::{
    chars_of, push_decimal, replace_char_string, split_ranges, string_from_chars, text_contains,
    text_eq, to_ascii_uppercase, trim_bounds, trim_string,
};

#[test]
fn text_helpers() {
    assert_eq!(chars_of("aé"), vec!['a', 'é']);
    assert_eq!(string_from_chars(&['x', 'y', 'z'], 1, 3), "yz");
    assert_eq!(to_ascii_uppercase('q'), 'Q');
    assert_eq!(to_ascii_uppercase('é'), 'é');
    let mut s = String::from("n=");
    push_decimal(&mut s, 0);
    push_decimal(&mut s, 1204);
    assert_eq!(s, "n=01204");
    assert_eq!(trim_string(" \t a b \n"), "a b");
    assert_eq!(trim_string("\u{2003}x\u{2003}"), "x");
    assert_eq!(trim_bounds(&[' ', 'a', ' '], 0, 3), (1, 2));
    assert_eq!(replace_char_string("a_b_c", '_', '-'), "a-b-c");
    assert_eq!(split_ranges(&['a', ',', ',', 'b'], ','), vec![(0, 1), (2, 2), (3, 4)]);
    assert_eq!(split_ranges(&[], ','), vec![(0, 0)]);
    assert!(text_eq("abc", "abc"));
    assert!(!text_eq("abc", "abd"));
    assert!(text_contains("set_allow_reentry", "allow"));
    assert!(text_contains("x", ""));
    assert!(!text_contains("ab", "abc"));
}

// ---------------------------------------------------------------------
// Lazy values read and never written back
// ---------------------------------------------------------------------

fn place(local: u32) -> Place {
    Place { local, projection: 0 }
}

fn call(f: u64, args: Vec<Operand>, dest: u32, target: Option<usize>, lo: u32) -> BasicBlock {
    BasicBlock {
        statements: vec![],
        terminator: Some(Terminator::Call {
            func: Operand::Constant(Constant { fn_def: Some(f), bool_value: None }),
            args,
            destination: place(dest),
            target,
            fn_span: Span { lo, hi: lo + 1 },
        }),
    }
}

fn exit() -> BasicBlock {
    BasicBlock { statements: vec![], terminator: Some(Terminator::Exit) }
}

const MAP_GET: u64 = 100;
const MAP_INSERT: u64 = 101;

fn finder() -> FunFinderVisitor {
    let mut f = FunFinderVisitor::new();
    let mapping: Vec<String> = ["ink_storage", "lazy", "mapping", "Mapping"].iter().map(|s| s.to_string()).collect();
    f.visit_method_call("get", Some(MAP_GET), Some(&mapping));
    f.visit_method_call("insert", Some(MAP_INSERT), Some(&mapping));
    f.visit_method_call("len", Some(7), Some(&mapping));
    f
}

#[test]
fn finder_records_mapping_accesses() {
    let f = finder();
    assert_eq!(f.mapping_get_defid, Some(MAP_GET));
    assert_eq!(f.mapping_insert_defid, Some(MAP_INSERT));
    assert_eq!(f.lazy_get_defid, None);
    let mut g = FunFinderVisitor::new();
    let other: Vec<String> = vec!["std".to_string(), "Vec".to_string()];
    g.visit_method_call("get", Some(5), Some(&other));
    g.visit_method_call("get", Some(5), None);
    assert_eq!(g.mapping_get_defid, None);
}

#[test]
fn mapping_read_never_written_back_is_reported() {
    let body = FnBody {
        blocks: vec![call(MAP_GET, vec![Operand::Move(place(2))], 3, Some(1), 10), exit()],
        preorder: vec![0, 1],
        arg_count: 1,
    };
    let mut d = LazyValuesNotSet::new();
    let r = d.check_fn(&finder(), &vec![body], 0);
    assert_eq!(r, vec![(3, Span { lo: 10, hi: 11 })]);
    assert_eq!(d.mapping_get_defid, Some(MAP_GET));
}

#[test]
fn mapping_read_written_back_is_not_reported() {
    let body = FnBody {
        blocks: vec![
            call(MAP_GET, vec![Operand::Move(place(2))], 3, Some(1), 10),
            call(MAP_INSERT, vec![Operand::Move(place(1)), Operand::Move(place(3))], 4, Some(2), 20),
            exit(),
        ],
        preorder: vec![0, 1, 2],
        arg_count: 1,
    };
    let mut d = LazyValuesNotSet::new();
    assert_eq!(d.check_fn(&finder(), &vec![body], 0), vec![]);
}

#[test]
fn locals_of_right_hand_sides() {
    assert_eq!(get_locals_in_rvalue(&Rvalue::Use(Operand::Copy(place(4)))), vec![4]);
    assert_eq!(
        get_locals_in_rvalue(&Rvalue::BinaryOp(Operand::Copy(place(1)), Operand::Move(place(2)))),
        vec![1, 2]
    );
    assert_eq!(get_locals_in_rvalue(&Rvalue::Ref(place(9))), vec![9]);
    assert!(get_locals_in_rvalue(&Rvalue::Other).is_empty());
    let c = Operand::Constant(Constant { fn_def: None, bool_value: None });
    assert!(get_locals_in_rvalue(&Rvalue::Cast(c)).is_empty());
}

#[test]
fn upward_closure_follows_dependencies() {
    let deps = vec![(5, vec![3]), (3, vec![1, 2]), (7, vec![9])];
    let mut r = upward_closure_exec(&deps, &vec![5]);
    r.sort();
    assert_eq!(r, vec![1, 2, 3, 5]);
    let cyclic = vec![(1, vec![2]), (2, vec![1])];
    let mut c = upward_closure_exec(&cyclic, &vec![1]);
    c.sort();
    assert_eq!(c, vec![1, 2]);
    assert!(upward_closure_exec(&deps, &vec![]).is_empty());
}

// ---------------------------------------------------------------------
// Reading the detectors' output
// ---------------------------------------------------------------------

fn info(name: &str, msg: &str) -> DetectorInfo {
    DetectorInfo { name: name.to_string(), lint_message: msg.to_string() }
}

#[test]
fn internal_spans_are_the_second_piece() {
    assert_eq!(internal_span("x@{\"file\":1}@y"), "{\"file\":1}");
    assert_eq!(internal_span("a@b"), "b");
}

#[test]
fn errors_are_grouped_by_detector() {
    let detectors = vec![info("unsafe-unwrap", "Unsafe usage of `unwrap`"), info("assert-violation", "Assert causes panic")];
    let stderr = "warning: Unsafe usage of `unwrap`\n --> src/lib.rs\nwarning: Assert causes panic\nwarning: Unsafe usage of `unwrap`\n";
    let internals = vec!["a@s1@b".to_string(), "a@s2@b".to_string(), "a@s3@b".to_string()];
    let fs = get_errors_from_output(stderr, &internals, &detectors).unwrap();
    assert_eq!(fs.len(), 2);
    assert_eq!(fs[0].name, "unsafe-unwrap");
    assert_eq!(fs[0].spans, vec!["s1", "s3"]);
    assert_eq!(fs[0].error_msg, "Unsafe usage of `unwrap`");
    assert_eq!(fs[1].spans, vec!["s2"]);
    let none = get_errors_from_output("all good\n", &vec![], &detectors).unwrap();
    assert!(none.iter().all(|f| f.spans.is_empty() && f.error_msg.is_empty()));
    let kept = reported_findings(fs);
    assert_eq!(kept.len(), 2);
    assert!(reported_findings(none).is_empty());
}

#[test]
fn output_errors() {
    let detectors = vec![info("unsafe-unwrap", "Unsafe usage of `unwrap`")];
    let stderr = "warning: Unsafe usage of `unwrap`\nwarning: Unsafe usage of `unwrap`\n";
    assert!(matches!(
        get_errors_from_output(stderr, &vec!["a@s1".to_string()], &detectors),
        Err(OutputError::TooFewSpans)
    ));
    assert!(matches!(
        get_errors_from_output(stderr, &vec!["nospan".to_string(), "a@b".to_string()], &detectors),
        Err(OutputError::MissingSpan)
    ));
    let lines = vec!["warning: Unsafe usage of `unwrap`".to_string()];
    let r = collect_errors(&lines, &vec!["s".to_string()], &detectors);
    assert_eq!(r[0].spans, vec!["s"]);
}

#[test]
fn html_and_sarif_of_findings() {
    let fs = vec![
        DetectorFindings { name: "a".to_string(), spans: vec!["{\"x\":1}".to_string(), "not json".to_string()], error_msg: "m".to_string() },
        DetectorFindings { name: "b".to_string(), spans: vec!["[2]".to_string()], error_msg: "n".to_string() },
    ];
    let html = findings_html(&fs);
    assert!(html.starts_with("\n    <!DOCTYPE html>"));
    assert!(html.contains("<li>not json</li>"));
    let results = sarif_results(&fs);
    assert_eq!(results.len(), 2);
    assert_eq!((results[0].rule_id.as_str(), results[0].message.as_str(), results[0].location.as_str()), ("a", "m", "{\"x\":1}"));
    assert_eq!(results[1].location, "[2]");
    assert!(sarif_results(&vec![]).is_empty());
}

#[test]
fn analysed_functions_are_listed_once_in_order() {
    // Function 0 calls function 1; function 1 calls function 0 back.
    let f0 = FnBody { blocks: vec![call(1, vec![], 2, Some(1), 10), exit()], preorder: vec![0, 1], arg_count: 0 };
    let f1 = FnBody { blocks: vec![call(0, vec![], 2, Some(1), 20), exit()], preorder: vec![0, 1], arg_count: 0 };
    let fns = vec![f0, f1];
    let d = LazyValuesNotSet::new();
    let mut visited: Vec<u64> = vec![7];
    let r = d.get_func_info(&fns, 0, &vec![], &vec![], &mut visited);
    assert!(r.0.is_empty() && r.1.is_empty());
    assert_eq!(visited, vec![7, 0, 1]);
    let again = d.get_func_info(&fns, 1, &vec![], &vec![], &mut visited);
    assert!(again.0.is_empty() && again.1.is_empty());
    assert_eq!(visited, vec![7, 0, 1]);
}
