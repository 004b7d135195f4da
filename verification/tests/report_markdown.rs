use std::collections::HashMap;

use cargo_scout_audit::markdown::{
    capitalize, generate_body, generate_category, generate_finding, generate_header,
    generate_summary, generate_table_for_category, render_markdown, sanitize_category_name,
    summarize_findings,
};
use cargo_scout_audit::report::{Category, Finding, Report, ReportDate, Summary, Vulnerability};

const STATUS: &str =
    "<ul><li>- [ ] False Positive </li><li>- [ ] Acknowledged</li><li>- [ ] Resolved</li></ul>";
const TABLE_HEAD: &str = "<table style=\"width: 100%; table-layout: fixed;\"><thead><tr><th style=\"width: 20%;\">ID</th><th style=\"width: 60%;\">Detection</th><th style=\"width: 20%;\">Status</th></tr></thead><tbody>\n";
const TABLE_CLOSE: &str = "</tbody></table>\n\n";

fn vulnerability(name: &str, severity: &str) -> Vulnerability {
    Vulnerability {
        id: name.to_lowercase(),
        name: name.to_string(),
        short_message: format!("{} short", name),
        long_message: format!("{} long", name),
        severity: severity.to_string(),
        help: format!("https://help/{}", name),
    }
}

fn category(id: &str, name: &str, vulns: Vec<Vulnerability>) -> Category {
    Category { id: id.to_string(), name: name.to_string(), vulnerabilities: vulns }
}

fn finding(id: u32, category_id: &str, span: &str) -> Finding {
    Finding {
        id,
        occurrence_index: 0,
        category_id: category_id.to_string(),
        vulnerability_id: "v".to_string(),
        error_message: "msg".to_string(),
        span: span.to_string(),
        code_snippet: "code".to_string(),
        file: "src/lib.rs".to_string(),
    }
}

fn row(id: u32, span: &str) -> String {
    format!(
        "<tr><td>{}</td><td><a href=\"link-to-github\">{}</a></td><td>{}</td></tr>\n",
        id, span, STATUS
    )
}

#[test]
fn report_date_accepts_real_dates_only() {
    let d = ReportDate::new(2024, 2, 29).unwrap();
    assert_eq!((d.year(), d.month(), d.day()), (2024, 2, 29));
    assert_eq!(d.to_text(), "2024-02-29");
    assert!(ReportDate::new(2023, 2, 29).is_none());
    assert!(ReportDate::new(2024, 13, 1).is_none());
    assert!(ReportDate::new(2024, 4, 31).is_none());
    assert_eq!(ReportDate::new(987, 1, 2).unwrap().to_text(), "0987-01-02");
    assert_eq!(ReportDate::new(-4, 2, 29).unwrap().to_text(), "-0004-02-29");
    assert_eq!(ReportDate::new(10000, 1, 1).unwrap().to_text(), "+10000-01-01");
    assert!(ReportDate::new(1900, 2, 29).is_none());
    assert!(ReportDate::new(262143, 1, 1).is_none());
    assert!(ReportDate::new(262142, 12, 31).is_some());
    assert!(ReportDate::new(-262143, 1, 1).is_some());
    assert!(ReportDate::new(2024, 1, 0).is_none());
}

#[test]
fn capitalize_upper_cases_the_first_ascii_letter() {
    assert_eq!(capitalize("high"), "High");
    assert_eq!(capitalize("Medium"), "Medium");
    assert_eq!(capitalize(""), "");
    assert_eq!(capitalize("éclair"), "éclair");
    assert_eq!(capitalize("a b"), "A b");
}

#[test]
fn sanitize_category_name_lowers_and_dashes() {
    assert_eq!(sanitize_category_name("Known Bugs"), "known-bugs");
    assert_eq!(sanitize_category_name("Arithmetic"), "arithmetic");
    assert_eq!(sanitize_category_name("ÀB C"), "àb-c");
    assert_eq!(sanitize_category_name(""), "");
}

#[test]
fn header_carries_banner_and_date() {
    let d = ReportDate::new(2024, 1, 5).unwrap();
    assert_eq!(
        generate_header(&d),
        "![Banner Scout report](https://www.example.com/banner.png)\n# Scout Report - 2024-01-05\n\n"
    );
}

#[test]
fn finding_row_is_exact() {
    assert_eq!(generate_finding(&finding(7, "a", "src/lib.rs:1:2")), row(7, "src/lib.rs:1:2"));
    assert_eq!(generate_finding(&finding(0, "a", "")), row(0, ""));
}

#[test]
fn table_keeps_only_the_category_findings() {
    let c = category("arith", "Arithmetic", vec![]);
    let fs = vec![finding(1, "arith", "s1"), finding(2, "other", "s2"), finding(3, "arith", "s3")];
    let expected =
        format!("{}{}{}{}{}", TABLE_HEAD, row(1, "s1"), row(3, "s3"), TABLE_CLOSE, TABLE_CLOSE);
    assert_eq!(generate_table_for_category(&c, &fs), expected);
    let empty = format!("{}{}{}", TABLE_HEAD, TABLE_CLOSE, TABLE_CLOSE);
    assert_eq!(generate_table_for_category(&c, &[]), empty);
}

#[test]
fn category_text_lists_vulnerabilities() {
    let c = category("arith", "Arithmetic", vec![vulnerability("Overflow", "critical")]);
    assert_eq!(
        generate_category(&c),
        "## Arithmetic\n\n### Overflow\n\n**Impact:** Critical\n\n**Description:** Overflow short\n\n**More about:** [here](https://help/Overflow)\n\n"
    );
    let bare = category("x", "Empty", vec![]);
    assert_eq!(generate_category(&bare), "## Empty\n\n");
}

#[test]
fn body_separates_categories_by_a_newline() {
    let a = category("a", "A", vec![]);
    let b = category("b", "B", vec![]);
    let fs = vec![finding(1, "b", "sb")];
    let table_a = format!("{}{}{}", TABLE_HEAD, TABLE_CLOSE, TABLE_CLOSE);
    let table_b = format!("{}{}{}{}", TABLE_HEAD, row(1, "sb"), TABLE_CLOSE, TABLE_CLOSE);
    let expected = format!("## A\n\n{}\n## B\n\n{}", table_a, table_b);
    assert_eq!(generate_body(&[a, b], &fs), expected);
    assert_eq!(generate_body(&[], &fs), "");
}

#[test]
fn summary_counts_findings_per_category() {
    let cs = vec![
        category("a", "Known Bugs", vec![vulnerability("X", "high")]),
        category("b", "Unused", vec![vulnerability("Y", "low")]),
        category("c", "Third", vec![]),
    ];
    let fs = vec![finding(1, "a", "s"), finding(2, "a", "t"), finding(3, "c", "u")];
    assert_eq!(
        generate_summary(&cs, &fs),
        "## Summary\n - [Known Bugs](known-bugs) (2 results) (High)\n - [Third](third) (1 results) ()\n\n"
    );
    let tallies = summarize_findings(&cs, &fs);
    assert_eq!(tallies.len(), 2);
    assert_eq!((tallies[0].id.as_str(), tallies[0].count, tallies[0].severity.as_str()), ("a", 2, "High"));
    assert_eq!((tallies[1].id.as_str(), tallies[1].count, tallies[1].severity.as_str()), ("c", 1, ""));
    assert_eq!(generate_summary(&cs, &[]), "## Summary\n\n");
}

#[test]
fn whole_report_is_header_summary_body() {
    let date = ReportDate::new(2023, 12, 31).unwrap();
    let cs = vec![category("a", "Arithmetic", vec![vulnerability("Overflow", "medium")])];
    let fs = vec![finding(4, "a", "lib.rs:3")];
    let report = Report::new(
        "name".to_string(),
        "desc".to_string(),
        date,
        "url".to_string(),
        Summary { total_vulnerabilities: 1, by_severity: HashMap::new() },
        cs,
        fs,
    );
    let expected = format!(
        "{}{}{}",
        generate_header(&report.date),
        generate_summary(&report.categories, &report.findings),
        generate_body(&report.categories, &report.findings)
    );
    let text = render_markdown(&report);
    assert_eq!(text, expected);
    assert!(text.starts_with("![Banner Scout report]"));
    assert!(text.contains(" - [Arithmetic](arithmetic) (1 results) (Medium)\n"));
}
