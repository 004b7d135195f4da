//! The audit report: its categories of vulnerabilities and the findings that
//! the detectors produced.
use std::collections::HashMap;
use vstd::prelude::*;
use crate::text::decimal;

verus! {

/// Whether `y` is a leap year of the proleptic Gregorian calendar.
pub open spec fn leap_year(y: int) -> bool {
    y % 4 == 0 && (y % 100 != 0 || y % 400 == 0)
}

/// The number of days of month `m` of year `y`.
pub open spec fn days_in_month(y: int, m: int) -> int {
    if m == 2 {
        if leap_year(y) {
            29
        } else {
            28
        }
    } else if m == 4 || m == 6 || m == 9 || m == 11 {
        30
    } else {
        31
    }
}

/// Whether chrono's `NaiveDate` holds the date `year-month-day`: a real
/// calendar date within the years it supports (262144 BCE to 262142 CE).
pub open spec fn chrono_date_valid(year: i32, month: u32, day: u32) -> bool {
    &&& -262143 <= year <= 262142
    &&& 1 <= month <= 12
    &&& 1 <= day <= days_in_month(year as int, month as int)
}

/// The decimal digits of `n`, with zeros in front up to `w` digits.
pub open spec fn zero_padded(n: nat, w: nat) -> Seq<char> {
    let d = decimal(n);
    if d.len() < w {
        Seq::new((w - d.len()) as nat, |i: int| '0') + d
    } else {
        d
    }
}

/// How chrono prints a year: four digits for the years 0 to 9999, and
/// otherwise a sign followed by at least four digits (`{:+05}`).
pub open spec fn year_text(year: int) -> Seq<char> {
    if 0 <= year <= 9999 {
        zero_padded(year as nat, 4)
    } else if year >= 0 {
        seq!['+'] + zero_padded(year as nat, 4)
    } else {
        seq!['-'] + zero_padded((-year) as nat, 4)
    }
}

/// What chrono prints for the calendar date `year-month-day`: `None` when
/// `NaiveDate::from_ymd_opt` refuses the date, else its `Display`, the year
/// (see `year_text`), then the month and the day in two digits each,
/// separated by `-`.
pub open spec fn chrono_date_text(year: i32, month: u32, day: u32) -> Option<Seq<char>> {
    if chrono_date_valid(year, month, day) {
        Some(year_text(year as int) + seq!['-'] + zero_padded(month as nat, 2) + seq!['-']
            + zero_padded(day as nat, 2))
    } else {
        None
    }
}

/// Builds the date with `chrono::NaiveDate::from_ymd_opt` and prints it with
/// its `Display` impl: `None` exactly where chrono refuses the date, and
/// otherwise the text `chrono_date_text` gives.
#[verifier::external_body]
fn chrono_date_to_string(year: i32, month: u32, day: u32) -> (r: Option<String>)
    ensures
        match r {
            Some(s) => chrono_date_text(year, month, day) == Some(s@),
            None => chrono_date_text(year, month, day) is None,
        },
{
    chrono::NaiveDate::from_ymd_opt(year, month, day).map(|d| d.to_string())
}

/// A calendar date that chrono accepts, held by its components.
#[derive(Debug)]
pub struct ReportDate {
    year: i32,
    month: u32,
    day: u32,
}

impl ReportDate {
    #[verifier::type_invariant]
    spec fn valid(self) -> bool {
        chrono_date_text(self.year, self.month, self.day) is Some
    }

    /// The year of the date.
    pub closed spec fn year_spec(self) -> i32 {
        self.year
    }

    /// The month of the date.
    pub closed spec fn month_spec(self) -> u32 {
        self.month
    }

    /// The day of the date.
    pub closed spec fn day_spec(self) -> u32 {
        self.day
    }

    /// The printed form of the date (`YYYY-MM-DD` for ordinary years).
    pub closed spec fn text(self) -> Seq<char> {
        chrono_date_text(self.year, self.month, self.day)->0
    }

    /// The date `year-month-day`, or `None` when chrono refuses it.
    pub fn new(year: i32, month: u32, day: u32) -> (r: Option<ReportDate>)
        ensures
            r is Some <==> chrono_date_text(year, month, day) is Some,
            r matches Some(d) ==> d.year_spec() == year && d.month_spec() == month
                && d.day_spec() == day,
    {
        match chrono_date_to_string(year, month, day) {
            Some(_) => Some(ReportDate { year, month, day }),
            None => None,
        }
    }

    /// The year of the date.
    pub fn year(&self) -> (y: i32)
        ensures
            y == self.year_spec(),
    {
        self.year
    }

    /// The month of the date.
    pub fn month(&self) -> (m: u32)
        ensures
            m == self.month_spec(),
    {
        self.month
    }

    /// The day of the date.
    pub fn day(&self) -> (d: u32)
        ensures
            d == self.day_spec(),
    {
        self.day
    }

    /// Prints the date as chrono does.
    pub fn to_text(&self) -> (s: String)
        ensures
            s@ == self.text(),
    {
        proof {
            use_type_invariant(self);
        }
        match chrono_date_to_string(self.year, self.month, self.day) {
            Some(s) => s,
            None => String::new(),
        }
    }
}

/// Totals of a report, by severity.
#[derive(Debug)]
pub struct Summary {
    pub total_vulnerabilities: u32,
    pub by_severity: HashMap<String, u32>,
}

/// A category of vulnerabilities (for instance "Arithmetic").
#[derive(Debug)]
pub struct Category {
    pub id: String,
    pub name: String,
    pub vulnerabilities: Vec<Vulnerability>,
}

/// One kind of vulnerability that a detector reports.
#[derive(Debug)]
pub struct Vulnerability {
    pub id: String,
    pub name: String,
    pub short_message: String,
    pub long_message: String,
    pub severity: String,
    pub help: String,
}

/// One place in the audited code where a detector fired.
#[derive(Debug)]
pub struct Finding {
    pub id: u32,
    pub occurrence_index: u32,
    pub category_id: String,
    pub vulnerability_id: String,
    pub error_message: String,
    pub span: String,
    pub code_snippet: String,
    pub file: String,
}

/// A whole audit report.
#[derive(Debug)]
pub struct Report {
    pub name: String,
    pub description: String,
    pub date: ReportDate,
    pub source_url: String,
    pub summary: Summary,
    pub categories: Vec<Category>,
    pub findings: Vec<Finding>,
}

impl Report {
    /// Assembles a report from its parts.
    pub fn new(
        name: String,
        description: String,
        date: ReportDate,
        source_url: String,
        summary: Summary,
        categories: Vec<Category>,
        findings: Vec<Finding>,
    ) -> (r: Report)
        ensures
            r.name == name,
            r.description == description,
            r.date == date,
            r.source_url == source_url,
            r.summary == summary,
            r.categories == categories,
            r.findings == findings,
    {
        Report { name, description, date, source_url, summary, categories, findings }
    }
}

} // verus!
