//! The Markdown form of an audit report: a header, a summary of the findings
//! by category, and one section with a findings table per category.
use crate::report::{Category, Finding, Report, ReportDate, Vulnerability};
use crate::text::{
    ascii_upper, chars_of, decimal, push_char, push_decimal, replace_char, replace_char_string,
    str_to_lowercase, to_ascii_uppercase, unicode_lowercase,
};
use vstd::prelude::*;

verus! {

// ---------------------------------------------------------------------
// Specifications
// ---------------------------------------------------------------------

/// The first character upper-cased in the ASCII sense, the rest unchanged.
pub open spec fn capitalized(s: Seq<char>) -> Seq<char> {
    if s.len() == 0 {
        s
    } else {
        s.update(0, ascii_upper(s[0]))
    }
}

/// A category name as an anchor: lower-cased, spaces turned into dashes.
pub open spec fn sanitized_name(name: Seq<char>) -> Seq<char> {
    replace_char(unicode_lowercase(name), ' ', '-')
}

/// The report header, with the banner and the printed date.
pub open spec fn header_text(date_text: Seq<char>) -> Seq<char> {
    "![Banner Scout report]("@ + "https://www.example.com/banner.png"@ + ")\n# Scout Report - "@
        + date_text + "\n\n"@
}

/// The status cell that every finding row carries.
pub open spec fn status_options() -> Seq<char> {
    "<ul><li>- [ ] False Positive </li><li>- [ ] Acknowledged</li><li>- [ ] Resolved</li></ul>"@
}

/// The head of a findings table.
pub open spec fn table_header() -> Seq<char> {
    "<table style=\"width: 100%; table-layout: fixed;\"><thead><tr><th style=\"width: 20%;\">ID</th><th style=\"width: 60%;\">Detection</th><th style=\"width: 20%;\">Status</th></tr></thead><tbody>\n"@
}

/// The closing of a findings table.
pub open spec fn table_close() -> Seq<char> {
    "</tbody></table>\n\n"@
}

/// One table row for a finding.
pub open spec fn finding_row(f: Finding) -> Seq<char> {
    "<tr><td>"@ + decimal(f.id as nat) + "</td><td><a href=\""@ + "link-to-github"@ + "\">"@ + f.span@
        + "</a></td><td>"@ + status_options() + "</td></tr>\n"@
}

/// The rows of the findings of category `id`, in the order of the findings.
pub open spec fn finding_rows(findings: Seq<Finding>, id: Seq<char>) -> Seq<char>
    decreases findings.len(),
{
    if findings.len() == 0 {
        Seq::empty()
    } else {
        finding_rows(findings.drop_last(), id) + if findings.last().category_id@ == id {
            finding_row(findings.last())
        } else {
            Seq::empty()
        }
    }
}

/// The findings table of a category.
pub open spec fn category_table(c: Category, findings: Seq<Finding>) -> Seq<char> {
    table_header() + finding_rows(findings, c.id@) + table_close() + table_close()
}

/// The description block of one vulnerability.
pub open spec fn vulnerability_block(v: Vulnerability) -> Seq<char> {
    "### "@ + v.name@ + "\n\n"@ + "**Impact:** "@ + capitalized(v.severity@) + "\n\n"@
        + "**Description:** "@ + v.short_message@ + "\n\n"@ + "**More about:** [here]("@ + v.help@
        + ")\n\n"@
}

/// The description blocks of a list of vulnerabilities, in order.
pub open spec fn vulnerability_blocks(vs: Seq<Vulnerability>) -> Seq<char>
    decreases vs.len(),
{
    if vs.len() == 0 {
        Seq::empty()
    } else {
        vulnerability_blocks(vs.drop_last()) + vulnerability_block(vs.last())
    }
}

/// The heading and vulnerability descriptions of a category.
pub open spec fn category_text(c: Category) -> Seq<char> {
    "## "@ + c.name@ + "\n\n"@ + vulnerability_blocks(c.vulnerabilities@)
}

/// A category's full section: its description and its findings table.
pub open spec fn category_section(c: Category, findings: Seq<Finding>) -> Seq<char> {
    category_text(c) + category_table(c, findings)
}

/// The body: the category sections joined by blank lines.
pub open spec fn body_text(cs: Seq<Category>, findings: Seq<Finding>) -> Seq<char>
    decreases cs.len(),
{
    if cs.len() == 0 {
        Seq::empty()
    } else if cs.len() == 1 {
        category_section(cs[0], findings)
    } else {
        body_text(cs.drop_last(), findings) + "\n"@ + category_section(cs.last(), findings)
    }
}

/// How many findings belong to category `id`.
pub open spec fn count_in(findings: Seq<Finding>, id: Seq<char>) -> nat
    decreases findings.len(),
{
    if findings.len() == 0 {
        0
    } else {
        count_in(findings.drop_last(), id) + if findings.last().category_id@ == id {
            1nat
        } else {
            0nat
        }
    }
}

/// Whether some category has the id `id`.
pub open spec fn has_category(cs: Seq<Category>, id: Seq<char>) -> bool {
    exists|j: int| 0 <= j < cs.len() && (#[trigger] cs[j]).id@ == id
}

/// The severity that a category shows: that of its first vulnerability,
/// capitalized, or nothing when it has none.
pub open spec fn category_severity(c: Category) -> Seq<char> {
    if c.vulnerabilities@.len() > 0 {
        capitalized(c.vulnerabilities@[0].severity@)
    } else {
        Seq::empty()
    }
}

/// The severity of the first category, from index `j` on, with id `id`.
pub open spec fn severity_from(cs: Seq<Category>, id: Seq<char>, j: int) -> Seq<char>
    decreases cs.len() - j,
{
    if j < 0 || j >= cs.len() {
        Seq::empty()
    } else if cs[j].id@ == id {
        category_severity(cs[j])
    } else {
        severity_from(cs, id, j + 1)
    }
}

/// The severity shown for category id `id`: that of the first category with
/// this id.
pub open spec fn severity_of(cs: Seq<Category>, id: Seq<char>) -> Seq<char> {
    severity_from(cs, id, 0)
}

/// The summary line of category `c`, present when `c` has findings.
pub open spec fn summary_line(c: Category, cs: Seq<Category>, findings: Seq<Finding>) -> Seq<char> {
    if count_in(findings, c.id@) > 0 {
        " - ["@ + c.name@ + "]("@ + sanitized_name(c.name@) + ") ("@ + decimal(count_in(findings, c.id@))
            + " results) ("@ + severity_of(cs, c.id@) + ")\n"@
    } else {
        Seq::empty()
    }
}

/// The summary lines of the categories `shown`, in order.
pub open spec fn summary_lines(shown: Seq<Category>, cs: Seq<Category>, findings: Seq<Finding>) -> Seq<char>
    decreases shown.len(),
{
    if shown.len() == 0 {
        Seq::empty()
    } else {
        summary_lines(shown.drop_last(), cs, findings) + summary_line(shown.last(), cs, findings)
    }
}

/// The summary section of a report.
pub open spec fn summary_text(cs: Seq<Category>, findings: Seq<Finding>) -> Seq<char> {
    "## Summary\n"@ + summary_lines(cs, cs, findings) + "\n"@
}

/// The whole Markdown report.
pub open spec fn markdown_text(date_text: Seq<char>, cs: Seq<Category>, findings: Seq<Finding>) -> Seq<char> {
    header_text(date_text) + summary_text(cs, findings) + body_text(cs, findings)
}

/// What the summary records for a category id: how many findings it has and
/// the severity shown for it.
#[derive(Debug)]
pub struct CategoryTally {
    pub id: String,
    pub count: usize,
    pub severity: String,
}

// ---------------------------------------------------------------------
// Lemmas
// ---------------------------------------------------------------------

/// Counting over one more finding.
proof fn lemma_count_in_take(findings: Seq<Finding>, id: Seq<char>, i: int)
    requires
        0 <= i < findings.len(),
    ensures
        count_in(findings.take(i + 1), id) == count_in(findings.take(i), id) + if findings[i].category_id@
            == id {
            1nat
        } else {
            0nat
        },
{
    assert(findings.take(i + 1).drop_last() =~= findings.take(i));
}

/// At most `n` of `n` findings belong to a category.
proof fn lemma_count_in_bound(findings: Seq<Finding>, id: Seq<char>)
    ensures
        count_in(findings, id) <= findings.len(),
    decreases findings.len(),
{
    if findings.len() > 0 {
        lemma_count_in_bound(findings.drop_last(), id);
    }
}

// ---------------------------------------------------------------------
// Executable functions
// ---------------------------------------------------------------------

/// Upper-cases (ASCII) the first character of `s`.
pub fn capitalize(s: &str) -> (r: String)
    ensures
        r@ == capitalized(s@),
{
    let v = chars_of(s);
    let mut r = String::new();
    let mut i: usize = 0;
    while i < v.len()
        invariant
            v@ == s@,
            0 <= i <= v@.len(),
            r@ == capitalized(v@.take(i as int)),
        decreases v@.len() - i,
    {
        if i == 0 {
            push_char(&mut r, to_ascii_uppercase(v[i]));
        } else {
            push_char(&mut r, v[i]);
        }
        i = i + 1;
        assert(r@ =~= capitalized(v@.take(i as int)));
    }
    assert(v@.take(v@.len() as int) =~= v@);
    r
}

/// A category name turned into a Markdown anchor: lower-cased, with dashes
/// in place of spaces.
pub fn sanitize_category_name(name: &str) -> (r: String)
    ensures
        r@ == sanitized_name(name@),
{
    let lower = str_to_lowercase(name);
    replace_char_string(lower.as_str(), ' ', '-')
}

/// The report header for a date.
pub fn generate_header(date: &ReportDate) -> (r: String)
    ensures
        r@ == header_text(date.text()),
{
    let mut r = String::new();
    r.append("![Banner Scout report](");
    r.append("https://www.example.com/banner.png");
    r.append(")\n# Scout Report - ");
    let d = date.to_text();
    r.append(d.as_str());
    r.append("\n\n");
    r
}

/// One table row for a finding.
pub fn generate_finding(finding: &Finding) -> (r: String)
    ensures
        r@ == finding_row(*finding),
{
    let mut r = String::new();
    r.append("<tr><td>");
    push_decimal(&mut r, finding.id as u64);
    r.append("</td><td><a href=\"");
    r.append("link-to-github");
    r.append("\">");
    r.append(finding.span.as_str());
    r.append("</a></td><td>");
    r.append(
        "<ul><li>- [ ] False Positive </li><li>- [ ] Acknowledged</li><li>- [ ] Resolved</li></ul>",
    );
    r.append("</td></tr>\n");
    r
}

/// The findings table of a category: a header, one row per finding of the
/// category, and the closing tags.
pub fn generate_table_for_category(category: &Category, findings: &[Finding]) -> (r: String)
    ensures
        r@ == category_table(*category, findings@),
{
    let mut r = String::new();
    r.append(
        "<table style=\"width: 100%; table-layout: fixed;\"><thead><tr><th style=\"width: 20%;\">ID</th><th style=\"width: 60%;\">Detection</th><th style=\"width: 20%;\">Status</th></tr></thead><tbody>\n",
    );
    let ghost head = r@;
    let mut i: usize = 0;
    while i < findings.len()
        invariant
            0 <= i <= findings@.len(),
            r@ == head + finding_rows(findings@.take(i as int), category.id@),
        decreases findings@.len() - i,
    {
        assert(findings@.take(i + 1).drop_last() =~= findings@.take(i as int));
        if findings[i].category_id == category.id {
            let row = generate_finding(&findings[i]);
            r.append(row.as_str());
        }
        i = i + 1;
    }
    assert(findings@.take(findings@.len() as int) =~= findings@);
    r.append("</tbody></table>\n\n");
    r.append("</tbody></table>\n\n");
    r
}

/// The description block of one vulnerability.
fn generate_vulnerability(v: &Vulnerability) -> (r: String)
    ensures
        r@ == vulnerability_block(*v),
{
    let mut r = String::new();
    r.append("### ");
    r.append(v.name.as_str());
    r.append("\n\n");
    r.append("**Impact:** ");
    let sev = capitalize(v.severity.as_str());
    r.append(sev.as_str());
    r.append("\n\n");
    r.append("**Description:** ");
    r.append(v.short_message.as_str());
    r.append("\n\n");
    r.append("**More about:** [here](");
    r.append(v.help.as_str());
    r.append(")\n\n");
    r
}

/// The heading of a category and the description of each of its
/// vulnerabilities.
pub fn generate_category(category: &Category) -> (r: String)
    ensures
        r@ == category_text(*category),
{
    let mut r = String::new();
    r.append("## ");
    r.append(category.name.as_str());
    r.append("\n\n");
    let ghost head = r@;
    let vs = &category.vulnerabilities;
    let mut i: usize = 0;
    while i < vs.len()
        invariant
            vs@ == category.vulnerabilities@,
            0 <= i <= vs@.len(),
            r@ == head + vulnerability_blocks(vs@.take(i as int)),
        decreases vs@.len() - i,
    {
        assert(vs@.take(i + 1).drop_last() =~= vs@.take(i as int));
        let block = generate_vulnerability(&vs[i]);
        r.append(block.as_str());
        i = i + 1;
    }
    assert(vs@.take(vs@.len() as int) =~= vs@);
    r
}

/// The body of the report: for every category its description and findings
/// table, the categories separated by a newline.
pub fn generate_body(categories: &[Category], findings: &[Finding]) -> (r: String)
    ensures
        r@ == body_text(categories@, findings@),
{
    let mut r = String::new();
    let mut i: usize = 0;
    while i < categories.len()
        invariant
            0 <= i <= categories@.len(),
            r@ == body_text(categories@.take(i as int), findings@),
        decreases categories@.len() - i,
    {
        assert(categories@.take(i + 1).drop_last() =~= categories@.take(i as int));
        if i > 0 {
            r.append("\n");
        }
        let text = generate_category(&categories[i]);
        let table = generate_table_for_category(&categories[i], findings);
        r.append(text.as_str());
        r.append(table.as_str());
        i = i + 1;
    }
    assert(categories@.take(categories@.len() as int) =~= categories@);
    r
}

/// The severity shown for the category at index `j`: that of its first
/// vulnerability, capitalized, or the empty string.
fn severity_of_category(c: &Category) -> (r: String)
    ensures
        r@ == category_severity(*c),
{
    if c.vulnerabilities.len() > 0 {
        capitalize(c.vulnerabilities[0].severity.as_str())
    } else {
        String::new()
    }
}

/// The index of the first category with id `id`, if any.
fn first_category_with_id(categories: &[Category], id: &String) -> (r: Option<usize>)
    ensures
        match r {
            Some(j) => {
                &&& j < categories@.len()
                &&& categories@[j as int].id@ == id@
                &&& severity_of(categories@, id@) == category_severity(categories@[j as int])
            },
            None => !has_category(categories@, id@),
        },
{
    let mut j: usize = 0;
    while j < categories.len()
        invariant
            0 <= j <= categories@.len(),
            forall|k: int| 0 <= k < j ==> (#[trigger] categories@[k]).id@ != id@,
            severity_of(categories@, id@) == severity_from(categories@, id@, j as int),
        decreases categories@.len() - j,
    {
        if categories[j].id == *id {
            return Some(j);
        }
        j = j + 1;
    }
    None
}

/// The index of the tally for `id`, if any.
fn find_tally(tallies: &Vec<CategoryTally>, id: &String) -> (r: Option<usize>)
    ensures
        match r {
            Some(k) => k < tallies@.len() && tallies@[k as int].id@ == id@,
            None => forall|m: int| 0 <= m < tallies@.len() ==> (#[trigger] tallies@[m]).id@ != id@,
        },
{
    let mut k: usize = 0;
    while k < tallies.len()
        invariant
            0 <= k <= tallies@.len(),
            forall|m: int| 0 <= m < k ==> (#[trigger] tallies@[m]).id@ != id@,
        decreases tallies@.len() - k,
    {
        if tallies[k].id == *id {
            return Some(k);
        }
        k = k + 1;
    }
    None
}

/// For every category id that has findings, how many and the severity shown
/// for it, in the order in which the ids first occur among the findings.
pub fn summarize_findings(categories: &[Category], findings: &[Finding]) -> (r: Vec<CategoryTally>)
    ensures
        forall|a: int, b: int| 0 <= a < b < r@.len() ==> r@[a].id@ != r@[b].id@,
        forall|k: int|
            0 <= k < r@.len() ==> {
                &&& has_category(categories@, (#[trigger] r@[k]).id@)
                &&& r@[k].count == count_in(findings@, r@[k].id@)
                &&& r@[k].count > 0
                &&& r@[k].severity@ == severity_of(categories@, r@[k].id@)
            },
        forall|id: Seq<char>|
            has_category(categories@, id) && count_in(findings@, id) > 0 ==> exists|k: int|
                0 <= k < r@.len() && (#[trigger] r@[k]).id@ == id,
{
    let mut tallies: Vec<CategoryTally> = Vec::new();
    let mut i: usize = 0;
    while i < findings.len()
        invariant
            0 <= i <= findings@.len(),
            tallies@.len() <= i,
            forall|a: int, b: int| 0 <= a < b < tallies@.len() ==> tallies@[a].id@ != tallies@[b].id@,
            forall|k: int|
                0 <= k < tallies@.len() ==> {
                    &&& has_category(categories@, (#[trigger] tallies@[k]).id@)
                    &&& tallies@[k].count == count_in(findings@.take(i as int), tallies@[k].id@)
                    &&& tallies@[k].count > 0
                    &&& tallies@[k].severity@ == severity_of(categories@, tallies@[k].id@)
                },
            forall|id: Seq<char>|
                has_category(categories@, id) && count_in(findings@.take(i as int), id) > 0
                    ==> exists|k: int| 0 <= k < tallies@.len() && (#[trigger] tallies@[k]).id@ == id,
        decreases findings@.len() - i,
    {
        let ghost prev = tallies@;
        proof {
            assert forall|id: Seq<char>| true implies count_in(findings@.take(i + 1), id) == count_in(
                findings@.take(i as int),
                id,
            ) + if findings@[i as int].category_id@ == id {
                1nat
            } else {
                0nat
            } by {
                lemma_count_in_take(findings@, id, i as int);
            }
            lemma_count_in_bound(findings@.take(i as int), findings@[i as int].category_id@);
        }
        let fid = &findings[i].category_id;
        match first_category_with_id(categories, fid) {
            Some(j) => {
                let found = find_tally(&tallies, fid);
                if let Some(k) = found {
                    let old_count = tallies[k].count;
                    let t = CategoryTally {
                        id: tallies[k].id.clone(),
                        count: old_count + 1,
                        severity: tallies[k].severity.clone(),
                    };
                    tallies.set(k, t);
                } else {
                    let sev = severity_of_category(&categories[j]);
                    assert(has_category(categories@, fid@));
                    tallies.push(CategoryTally { id: fid.clone(), count: 1, severity: sev });
                }
            },
            None => {},
        }
        i = i + 1;
        assert forall|id: Seq<char>|
            has_category(categories@, id) && count_in(findings@.take(i as int), id) > 0 implies exists|
            k: int,
        | 0 <= k < tallies@.len() && (#[trigger] tallies@[k]).id@ == id by {
            if count_in(findings@.take(i - 1), id) > 0 {
                let k0 = choose|k0: int| 0 <= k0 < prev.len() && (#[trigger] prev[k0]).id@ == id;
                assert(tallies@[k0].id@ == id);
            } else {
                assert(tallies@[tallies@.len() - 1].id@ == id);
            }
        }
    }
    assert(findings@.take(findings@.len() as int) =~= findings@);
    tallies
}

/// The summary line of category `c` with `count` findings of severity
/// `severity`.
fn summary_line_text(c: &Category, count: usize, severity: &str) -> (r: String)
    ensures
        r@ == " - ["@ + c.name@ + "]("@ + sanitized_name(c.name@) + ") ("@ + decimal(count as nat)
            + " results) ("@ + severity@ + ")\n"@,
{
    let mut r = String::new();
    r.append(" - [");
    r.append(c.name.as_str());
    r.append("](");
    let anchor = sanitize_category_name(c.name.as_str());
    r.append(anchor.as_str());
    r.append(") (");
    push_decimal(&mut r, count as u64);
    r.append(" results) (");
    r.append(severity);
    r.append(")\n");
    r
}

/// The summary section: one line per category with findings, giving the
/// number of findings and the severity.
pub fn generate_summary(categories: &[Category], findings: &[Finding]) -> (r: String)
    ensures
        r@ == summary_text(categories@, findings@),
{
    let mut r = String::new();
    r.append("## Summary\n");
    let ghost head = r@;
    let tallies = summarize_findings(categories, findings);
    let mut i: usize = 0;
    while i < categories.len()
        invariant
            0 <= i <= categories@.len(),
            r@ == head + summary_lines(categories@.take(i as int), categories@, findings@),
            forall|a: int, b: int| 0 <= a < b < tallies@.len() ==> tallies@[a].id@ != tallies@[b].id@,
            forall|k: int|
                0 <= k < tallies@.len() ==> {
                    &&& has_category(categories@, (#[trigger] tallies@[k]).id@)
                    &&& tallies@[k].count == count_in(findings@, tallies@[k].id@)
                    &&& tallies@[k].count > 0
                    &&& tallies@[k].severity@ == severity_of(categories@, tallies@[k].id@)
                },
            forall|id: Seq<char>|
                has_category(categories@, id) && count_in(findings@, id) > 0 ==> exists|k: int|
                    0 <= k < tallies@.len() && (#[trigger] tallies@[k]).id@ == id,
        decreases categories@.len() - i,
    {
        assert(categories@.take(i + 1).drop_last() =~= categories@.take(i as int));
        let c = &categories[i];
        assert(has_category(categories@, c.id@));
        let found = find_tally(&tallies, &c.id);
        let ghost before = r@;
        if let Some(k) = found {
            let t = &tallies[k];
            let line = summary_line_text(c, t.count, t.severity.as_str());
            assert(line@ == summary_line(*c, categories@, findings@));
            r.append(line.as_str());
        } else {
            assert(count_in(findings@, c.id@) == 0);
            assert(summary_line(*c, categories@, findings@) =~= Seq::<char>::empty());
        }
        assert(r@ =~= before + summary_line(*c, categories@, findings@));
        i = i + 1;
    }
    assert(categories@.take(categories@.len() as int) =~= categories@);
    r.append("\n");
    r
}

/// The whole Markdown text of a report: header, summary and body.
pub fn render_markdown(report: &Report) -> (r: String)
    ensures
        r@ == markdown_text(report.date.text(), report.categories@, report.findings@),
{
    let mut r = String::new();
    let header = generate_header(&report.date);
    r.append(header.as_str());
    let summary = generate_summary(report.categories.as_slice(), report.findings.as_slice());
    r.append(summary.as_str());
    let body = generate_body(report.categories.as_slice(), report.findings.as_slice());
    r.append(body.as_str());
    r
}

/// The description blocks of two lists one after the other are those of
/// the first list followed by those of the second.
pub proof fn lemma_vulnerability_blocks_concat(a: Seq<Vulnerability>, b: Seq<Vulnerability>)
    ensures
        vulnerability_blocks(a + b) == vulnerability_blocks(a) + vulnerability_blocks(b),
    decreases b.len(),
{
    if b.len() == 0 {
        assert(a + b =~= a);
        assert(vulnerability_blocks(a) + Seq::<char>::empty() =~= vulnerability_blocks(a));
    } else {
        lemma_vulnerability_blocks_concat(a, b.drop_last());
        assert((a + b).drop_last() =~= a + b.drop_last());
        assert((a + b).last() == b.last());
        assert(vulnerability_blocks(a) + vulnerability_blocks(b.drop_last()) + vulnerability_block(
            b.last(),
        ) =~= vulnerability_blocks(a) + (vulnerability_blocks(b.drop_last()) + vulnerability_block(
            b.last(),
        )));
    }
}

/// Law: adding a vulnerability to a list adds its description block at the
/// end, after the blocks of the others.
pub proof fn lemma_vulnerability_added_last(vs: Seq<Vulnerability>, v: Vulnerability)
    ensures
        vulnerability_blocks(vs.push(v)) == vulnerability_blocks(vs) + vulnerability_block(v),
{
    assert(vs.push(v).drop_last() =~= vs);
}

/// Law: a category's text holds the description block of every one of its
/// vulnerabilities, in order: after the heading come the blocks of the
/// vulnerabilities before the `i`-th, then the `i`-th one's block, then the
/// blocks of those after it.
pub proof fn lemma_category_describes_every_vulnerability(c: Category, i: int)
    requires
        0 <= i < c.vulnerabilities@.len(),
    ensures
        category_text(c) == "## "@ + c.name@ + "\n\n"@ + vulnerability_blocks(
            c.vulnerabilities@.take(i),
        ) + vulnerability_block(c.vulnerabilities@[i]) + vulnerability_blocks(
            c.vulnerabilities@.skip(i + 1),
        ),
{
    let vs = c.vulnerabilities@;
    let front = vs.take(i).push(vs[i]);
    assert(vs =~= front + vs.skip(i + 1));
    lemma_vulnerability_blocks_concat(front, vs.skip(i + 1));
    lemma_vulnerability_added_last(vs.take(i), vs[i]);
    assert(category_text(c) =~= "## "@ + c.name@ + "\n\n"@ + vulnerability_blocks(vs.take(i))
        + vulnerability_block(vs[i]) + vulnerability_blocks(vs.skip(i + 1)));
}

} // verus!
