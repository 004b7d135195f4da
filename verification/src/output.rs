//! Reading what a run of the detectors reported.
//!
//! The compiler's error output holds one `warning: <message>` line per
//! warning; a second file holds, per warning and in the same order, a line
//! `<..>@<span>@<..>` with the warning's span. The findings are grouped by
//! detector, each detector being recognized by its lint message.
use vstd::prelude::*;
use crate::text::{chars_of, contains_text, string_from_chars, text_contains, views};

verus! {

/// The texts of the successive matches of `pattern` in `text` (with the
/// given flags), or `None` when the pattern does not compile
/// (`regex::RegexBuilder::build`, then `Regex::find_iter`).
pub uninterp spec fn regex_find_all(pattern: Seq<char>, multi_line: bool, case_insensitive: bool, text: Seq<char>) -> Option<Seq<Seq<char>>>;

/// Compiles `pattern` with the given flags and returns the texts of its
/// successive non-overlapping matches in `text`, or `None` when the pattern
/// does not compile (`regex::RegexBuilder::build` and `Regex::find_iter`);
/// the result is named `regex_find_all`.
#[verifier::external_body]
fn find_all_matches(pattern: &str, multi_line: bool, case_insensitive: bool, text: &str) -> (r:
    Option<Vec<String>>)
    ensures
        match regex_find_all(pattern@, multi_line, case_insensitive, text@) {
            Some(ms) => r matches Some(v) && views(v@) == ms,
            None => r is None,
        },
{
    let re = match regex::RegexBuilder::new(pattern).multi_line(multi_line).case_insensitive(
        case_insensitive,
    ).build() {
        Ok(re) => re,
        Err(_) => return None,
    };
    let mut v: Vec<String> = Vec::new();
    for m in re.find_iter(text) {
        v.push(m.as_str().to_string());
    }
    Some(v)
}

/// The warning lines of the compiler's output: the matches of `warning:.*`,
/// case-insensitive, multi-line.
pub open spec fn warning_lines(stderr: Seq<char>) -> Option<Seq<Seq<char>>> {
    regex_find_all("warning:.*"@, true, true, stderr)
}

/// The text of `s` before its first occurrence of `c` (the first piece of
/// `split(c)`).
pub open spec fn before_char(s: Seq<char>, c: char) -> Seq<char>
    decreases s.len(),
{
    if s.len() == 0 {
        s
    } else if before_char(s.drop_last(), c).len() < s.len() - 1 {
        before_char(s.drop_last(), c)
    } else if s.last() == c {
        s.drop_last()
    } else {
        s
    }
}

/// The text of `s` after its first occurrence of `c`, up to the next one
/// (the second piece of `split(c)`).
pub open spec fn second_piece(s: Seq<char>, c: char) -> Seq<char> {
    before_char(s.skip(before_char(s, c).len() + 1int), c)
}

/// Whether `c` occurs in `s`.
pub open spec fn has_char(s: Seq<char>, c: char) -> bool {
    exists|i: int| 0 <= i < s.len() && s[i] == c
}

proof fn lemma_before_char(s: Seq<char>, c: char)
    ensures
        before_char(s, c).len() <= s.len(),
        before_char(s, c) == s.take(before_char(s, c).len() as int),
        forall|i: int| 0 <= i < before_char(s, c).len() ==> s[i] != c,
        before_char(s, c).len() < s.len() ==> s[before_char(s, c).len() as int] == c,
        has_char(s, c) <==> before_char(s, c).len() < s.len(),
    decreases s.len(),
{
    if s.len() > 0 {
        lemma_before_char(s.drop_last(), c);
        let p = before_char(s.drop_last(), c);
        if p.len() < s.len() - 1 {
            assert(p == s.drop_last().take(p.len() as int));
            assert(s.drop_last().take(p.len() as int) =~= s.take(p.len() as int));
            assert forall|i: int| 0 <= i < p.len() implies s[i] != c by {
                assert(s.drop_last()[i] == s[i]);
            }
            assert(s[p.len() as int] == s.drop_last()[p.len() as int]);
            assert(has_char(s, c)) by {
                assert(s[p.len() as int] == c);
            }
        } else {
            assert(p =~= s.drop_last());
            assert forall|i: int| 0 <= i < s.len() - 1 implies s[i] != c by {
                assert(s.drop_last()[i] == s[i]);
            }
            if s.last() == c {
                assert(s.drop_last() =~= s.take(s.len() - 1));
            } else {
                assert(s =~= s.take(s.len() as int));
                assert(!has_char(s, c)) by {
                    assert forall|i: int| 0 <= i < s.len() implies s[i] != c by {
                        if i < s.len() - 1 {
                        }
                    }
                }
            }
        }
    } else {
        assert(s.take(0) =~= s);
    }
}

fn before_char_index(v: &Vec<char>, from: usize, c: char) -> (r: usize)
    requires
        from <= v@.len(),
    ensures
        from + before_char(v@.skip(from as int), c).len() == r,
        r <= v@.len(),
{
    proof {
        lemma_before_char(v@.skip(from as int), c);
    }
    let mut i = from;
    while i < v.len()
        invariant
            from <= i <= v@.len(),
            forall|k: int| from <= k < i ==> v@[k] != c,
        decreases v@.len() - i,
    {
        if v[i] == c {
            proof {
                lemma_before_char(v@.skip(from as int), c);
                let s = v@.skip(from as int);
                assert(s[i - from] == c);
                assert(has_char(s, c));
                let b = before_char(s, c).len() as int;
                assert(s[b] == c);
                if b < i - from {
                    assert(v@[from + b] == c);
                } else if b > i - from {
                    assert(s[i - from] != c);
                }
            }
            return i;
        }
        i = i + 1;
    }
    proof {
        let s = v@.skip(from as int);
        assert(!has_char(s, c)) by {
            assert forall|k: int| 0 <= k < s.len() implies s[k] != c by {
                assert(s[k] == v@[from + k]);
            }
        }
    }
    i
}

/// The span of an internals line: its second `@`-separated piece.
pub fn internal_span(line: &str) -> (r: String)
    requires
        has_char(line@, '@'),
    ensures
        r@ == second_piece(line@, '@'),
{
    let v = chars_of(line);
    proof {
        lemma_before_char(v@, '@');
    }
    let a = before_char_index(&v, 0, '@');
    assert(v@.skip(0) =~= v@);
    assert(a < v@.len());
    assert(v@.len() == v.len());
    let start = a + 1;
    let b = before_char_index(&v, start, '@');
    proof {
        lemma_before_char(v@.skip(start as int), '@');
        assert(v@.skip(start as int).take((b - start) as int) =~= v@.subrange(start as int, b as int));
    }
    string_from_chars(v.as_slice(), start, b)
}

/// A detector, as the output is read for it: its name and lint message.
#[derive(Debug)]
pub struct DetectorInfo {
    pub name: String,
    pub lint_message: String,
}

/// What the run reported for one detector: the spans of its warnings and
/// the message they carried.
#[derive(Debug)]
pub struct DetectorFindings {
    pub name: String,
    pub spans: Vec<String>,
    pub error_msg: String,
}

/// The view of a detector's findings.
pub open spec fn findings_view(f: DetectorFindings) -> (Seq<char>, Seq<Seq<char>>, Seq<char>) {
    (f.name@, views(f.spans@), f.error_msg@)
}

/// The index of the last detector whose lint message is `msg` (whose name
/// the message stands for).
pub open spec fn last_with_message(ds: Seq<DetectorInfo>, msg: Seq<char>) -> int
    decreases ds.len(),
{
    if ds.len() == 0 {
        -1
    } else if ds.last().lint_message@ == msg {
        ds.len() - 1
    } else {
        last_with_message(ds.drop_last(), msg)
    }
}

/// The findings before any warning: every detector, with no span and an
/// empty message.
pub open spec fn initial_findings(ds: Seq<DetectorInfo>) -> Seq<(Seq<Seq<char>>, Seq<char>)> {
    Seq::new(ds.len(), |k: int| (Seq::<Seq<char>>::empty(), Seq::<char>::empty()))
}

/// The findings after checking warning `line` (with span `span`) against
/// the first `j` detectors: for each detector whose message the line
/// contains, the span goes to the detector that the message stands for,
/// which takes that message.
pub open spec fn match_warning(
    ds: Seq<DetectorInfo>,
    line: Seq<char>,
    span: Seq<char>,
    j: nat,
    st: Seq<(Seq<Seq<char>>, Seq<char>)>,
) -> Seq<(Seq<Seq<char>>, Seq<char>)>
    decreases j,
{
    if j == 0 {
        st
    } else {
        let prev = match_warning(ds, line, span, (j - 1) as nat, st);
        let msg = ds[j - 1].lint_message@;
        if contains_text(before_char(line, '\n'), msg) {
            let t = last_with_message(ds, msg);
            prev.update(t, (prev[t].0.push(span), msg))
        } else {
            prev
        }
    }
}

/// The findings after the first `i` warnings.
pub open spec fn findings_after(ds: Seq<DetectorInfo>, lines: Seq<Seq<char>>, spans: Seq<Seq<char>>, i: nat) -> Seq<
    (Seq<Seq<char>>, Seq<char>),
>
    decreases i,
{
    if i == 0 {
        initial_findings(ds)
    } else {
        match_warning(
            ds,
            lines[i - 1],
            spans[i - 1],
            ds.len(),
            findings_after(ds, lines, spans, (i - 1) as nat),
        )
    }
}

/// Whether warning `line` is reported by some detector.
pub open spec fn reported_by_some(ds: Seq<DetectorInfo>, line: Seq<char>) -> bool {
    exists|j: int|
        0 <= j < ds.len() && contains_text(before_char(line, '\n'), #[trigger] ds[j].lint_message@)
}

/// Every warning that some detector reports has a span.
pub open spec fn spans_suffice(ds: Seq<DetectorInfo>, lines: Seq<Seq<char>>, nspans: nat) -> bool {
    forall|i: int| 0 <= i < lines.len() && reported_by_some(ds, #[trigger] lines[i]) ==> i < nspans
}

proof fn lemma_last_with_message(ds: Seq<DetectorInfo>, j: int)
    requires
        0 <= j < ds.len(),
    ensures
        j <= last_with_message(ds, ds[j].lint_message@) < ds.len(),
        ds[last_with_message(ds, ds[j].lint_message@)].lint_message@ == ds[j].lint_message@,
    decreases ds.len(),
{
    if ds.last().lint_message@ != ds[j].lint_message@ {
        assert(j < ds.len() - 1);
        assert(ds.drop_last()[j] == ds[j]);
        lemma_last_with_message(ds.drop_last(), j);
    }
}

fn last_with_message_exec(ds: &Vec<DetectorInfo>, msg: &String) -> (r: usize)
    requires
        exists|j: int| 0 <= j < ds@.len() && ds@[j].lint_message@ == msg@,
    ensures
        r as int == last_with_message(ds@, msg@),
        r < ds@.len(),
{
    let mut i: usize = ds.len();
    assert(ds@.take(i as int) =~= ds@);
    while i > 0
        invariant
            0 <= i <= ds@.len(),
            last_with_message(ds@, msg@) == last_with_message(ds@.take(i as int), msg@),
            exists|j: int| 0 <= j < i && ds@[j].lint_message@ == msg@,
        decreases i,
    {
        assert(ds@.take(i as int).drop_last() =~= ds@.take(i - 1));
        if ds[i - 1].lint_message == *msg {
            return i - 1;
        }
        i = i - 1;
    }
    i
}

/// The findings of each detector (in the order of `detectors`), from the
/// warning lines of the output and the spans of the internals file:
/// `get_errors_from_output` once the warning lines are known.
pub fn collect_errors(lines: &Vec<String>, spans: &Vec<String>, detectors: &Vec<DetectorInfo>) -> (r:
    Vec<DetectorFindings>)
    requires
        spans_suffice(detectors@, views(lines@), spans@.len()),
    ensures
        r@.len() == detectors@.len(),
        forall|k: int|
            0 <= k < r@.len() ==> {
                &&& (#[trigger] r@[k]).name@ == detectors@[k].name@
                &&& views(r@[k].spans@) == findings_after(
                    detectors@,
                    views(lines@),
                    views(spans@),
                    lines@.len() as nat,
                )[k].0
                &&& r@[k].error_msg@ == findings_after(
                    detectors@,
                    views(lines@),
                    views(spans@),
                    lines@.len() as nat,
                )[k].1
            },
{
    let ghost ds = detectors@;
    let ghost ls = views(lines@);
    let ghost ss = views(spans@);
    let mut r: Vec<DetectorFindings> = Vec::new();
    let mut k: usize = 0;
    while k < detectors.len()
        invariant
            0 <= k <= detectors@.len(),
            r@.len() == k,
            forall|m: int|
                0 <= m < k ==> {
                    &&& (#[trigger] r@[m]).name@ == detectors@[m].name@
                    &&& r@[m].spans@.len() == 0
                    &&& r@[m].error_msg@ == Seq::<char>::empty()
                },
        decreases detectors@.len() - k,
    {
        r.push(
            DetectorFindings {
                name: detectors[k].name.clone(),
                spans: Vec::new(),
                error_msg: String::new(),
            },
        );
        k = k + 1;
    }
    let mut i: usize = 0;
    assert forall|m: int| 0 <= m < r@.len() implies views(r@[m].spans@) == findings_after(
        ds,
        ls,
        ss,
        0,
    )[m].0 && r@[m].error_msg@ == findings_after(ds, ls, ss, 0)[m].1 by {
        assert(views(r@[m].spans@) =~= Seq::<Seq<char>>::empty());
    }
    while i < lines.len()
        invariant
            0 <= i <= lines@.len(),
            ds == detectors@,
            ls == views(lines@),
            ss == views(spans@),
            spans_suffice(ds, ls, spans@.len()),
            r@.len() == ds.len(),
            findings_after(ds, ls, ss, i as nat).len() == ds.len(),
            forall|m: int|
                0 <= m < r@.len() ==> {
                    &&& (#[trigger] r@[m]).name@ == ds[m].name@
                    &&& views(r@[m].spans@) == findings_after(ds, ls, ss, i as nat)[m].0
                    &&& r@[m].error_msg@ == findings_after(ds, ls, ss, i as nat)[m].1
                },
        decreases lines@.len() - i,
    {
        let line_chars = chars_of(lines[i].as_str());
        let first = {
            proof {
                lemma_before_char(line_chars@, '\n');
            }
            let e = before_char_index(&line_chars, 0, '\n');
            assert(line_chars@.skip(0) =~= line_chars@);
            let t = string_from_chars(line_chars.as_slice(), 0, e);
            assert(line_chars@.subrange(0, e as int) =~= before_char(line_chars@, '\n'));
            t
        };
        let ghost st0 = findings_after(ds, ls, ss, i as nat);
        let mut j: usize = 0;
        while j < detectors.len()
            invariant
                0 <= j <= detectors@.len(),
                i < lines@.len(),
                ds == detectors@,
                ls == views(lines@),
                ss == views(spans@),
                spans_suffice(ds, ls, spans@.len()),
                first@ == before_char(ls[i as int], '\n'),
                r@.len() == ds.len(),
                match_warning(ds, ls[i as int], ss[i as int], j as nat, st0).len() == ds.len(),
                st0 == findings_after(ds, ls, ss, i as nat),
                st0.len() == ds.len(),
                (exists|q: int| 0 <= q < j && contains_text(first@, #[trigger] ds[q].lint_message@))
                    ==> i < spans@.len(),
                forall|m: int|
                    0 <= m < r@.len() ==> {
                        &&& (#[trigger] r@[m]).name@ == ds[m].name@
                        &&& views(r@[m].spans@) == match_warning(
                            ds,
                            ls[i as int],
                            ss[i as int],
                            j as nat,
                            st0,
                        )[m].0
                        &&& r@[m].error_msg@ == match_warning(
                            ds,
                            ls[i as int],
                            ss[i as int],
                            j as nat,
                            st0,
                        )[m].1
                    },
            decreases detectors@.len() - j,
        {
            let ghost prev = match_warning(ds, ls[i as int], ss[i as int], j as nat, st0);
            if text_contains(first.as_str(), detectors[j].lint_message.as_str()) {
                proof {
                    assert(reported_by_some(ds, ls[i as int]));
                    lemma_last_with_message(ds, j as int);
                }
                let t = last_with_message_exec(detectors, &detectors[j].lint_message);
                let span = spans[i].clone();
                let msg = detectors[j].lint_message.clone();
                let mut entry = DetectorFindings {
                    name: String::new(),
                    spans: Vec::new(),
                    error_msg: String::new(),
                };
                let ghost before_r = r@;
                std::mem::swap(&mut entry, &mut r[t]);
                let ghost old_spans = entry.spans@;
                entry.spans.push(span);
                entry.error_msg = msg;
                std::mem::swap(&mut entry, &mut r[t]);
                assert forall|m: int| 0 <= m < r@.len() implies {
                    &&& (#[trigger] r@[m]).name@ == ds[m].name@
                    &&& views(r@[m].spans@) == match_warning(
                        ds,
                        ls[i as int],
                        ss[i as int],
                        (j + 1) as nat,
                        st0,
                    )[m].0
                    &&& r@[m].error_msg@ == match_warning(
                        ds,
                        ls[i as int],
                        ss[i as int],
                        (j + 1) as nat,
                        st0,
                    )[m].1
                } by {
                    if m == t {
                        assert(views(old_spans.push(span)) =~= views(old_spans).push(span@));
                    } else {
                        assert(r@[m] == before_r[m]);
                    }
                }
            }
            j = j + 1;
        }
        i = i + 1;
    }
    r
}

/// Why the output could not be read.
#[derive(Clone, Copy, PartialEq, Eq, Structural, Debug)]
pub enum OutputError {
    /// The warning pattern did not compile.
    Pattern,
    /// An internals line has no `@`-separated span.
    MissingSpan,
    /// A reported warning has no internals line.
    TooFewSpans,
}

/// The findings of each detector from the compiler's error output `stderr`
/// and the lines of the internals file. Where the reading would index past
/// the internals lines or read a line without a span, it fails instead.
pub fn get_errors_from_output(stderr: &str, internals: &Vec<String>, detectors: &Vec<DetectorInfo>) -> (r:
    Result<Vec<DetectorFindings>, OutputError>)
    ensures
        warning_lines(stderr@) is None ==> r == Err::<Vec<DetectorFindings>, OutputError>(
            OutputError::Pattern,
        ),
        warning_lines(stderr@) is Some ==> (exists|k: int|
            0 <= k < internals@.len() && !has_char(#[trigger] internals@[k]@, '@'))
            ==> r == Err::<Vec<DetectorFindings>, OutputError>(OutputError::MissingSpan),
        warning_lines(stderr@) matches Some(ls) ==> (forall|k: int|
            0 <= k < internals@.len() ==> has_char(#[trigger] internals@[k]@, '@')) ==> if spans_suffice(
            detectors@,
            ls,
            internals@.len() as nat,
        ) {
            r matches Ok(v) && v@.len() == detectors@.len() && forall|k: int|
                0 <= k < v@.len() ==> {
                    let fin = findings_after(
                        detectors@,
                        ls,
                        internals@.map_values(|l: String| second_piece(l@, '@')),
                        ls.len(),
                    );
                    &&& (#[trigger] v@[k]).name@ == detectors@[k].name@
                    &&& views(v@[k].spans@) == fin[k].0
                    &&& v@[k].error_msg@ == fin[k].1
                }
        } else {
            r == Err::<Vec<DetectorFindings>, OutputError>(OutputError::TooFewSpans)
        },
{
    let lines = match find_all_matches("warning:.*", true, true, stderr) {
        Some(v) => v,
        None => {
            return Err(OutputError::Pattern);
        },
    };
    let ghost ls = views(lines@);
    assert(warning_lines(stderr@) == Some(ls));
    let mut spans: Vec<String> = Vec::new();
    let mut k: usize = 0;
    while k < internals.len()
        invariant
            0 <= k <= internals@.len(),
            warning_lines(stderr@) == Some(ls),
            views(spans@) == internals@.take(k as int).map_values(|l: String| second_piece(l@, '@')),
            forall|j: int| 0 <= j < k ==> has_char(#[trigger] internals@[j]@, '@'),
        decreases internals@.len() - k,
    {
        let line = internals[k].as_str();
        let has_at = {
            let v = chars_of(line);
            let mut found = false;
            let mut t: usize = 0;
            while t < v.len()
                invariant
                    0 <= t <= v@.len(),
                    found == exists|q: int| 0 <= q < t && v@[q] == '@',
                decreases v@.len() - t,
            {
                if v[t] == '@' {
                    found = true;
                }
                t = t + 1;
            }
            found
        };
        if !has_at {
            return Err(OutputError::MissingSpan);
        }
        let ghost prev = spans@;
        let sp = internal_span(line);
        spans.push(sp);
        assert(spans@.drop_last() =~= prev);
        assert(views(spans@) =~= views(prev).push(second_piece(internals@[k as int]@, '@')));
        assert(internals@.take(k + 1).map_values(|l: String| second_piece(l@, '@')) =~= internals@.take(
            k as int,
        ).map_values(|l: String| second_piece(l@, '@')).push(second_piece(internals@[k as int]@, '@')));
        k = k + 1;
    }
    assert(internals@.take(internals@.len() as int) =~= internals@);
    let mut n: usize = 0;
    while n < lines.len()
        invariant
            0 <= n <= lines@.len(),
            ls == views(lines@),
            warning_lines(stderr@) == Some(ls),
            views(spans@) == internals@.map_values(|l: String| second_piece(l@, '@')),
            forall|j: int| 0 <= j < internals@.len() ==> has_char(#[trigger] internals@[j]@, '@'),
            forall|q: int|
                0 <= q < n && reported_by_some(detectors@, #[trigger] ls[q]) ==> q < spans@.len(),
        decreases lines@.len() - n,
    {
        if n >= spans.len() {
            let first = {
                let c = chars_of(lines[n].as_str());
                proof {
                    lemma_before_char(c@, '\n');
                }
                let e = before_char_index(&c, 0, '\n');
                assert(c@.skip(0) =~= c@);
                assert(c@.subrange(0, e as int) =~= before_char(c@, '\n'));
                string_from_chars(c.as_slice(), 0, e)
            };
            let mut bad = false;
            let mut j: usize = 0;
            while j < detectors.len()
                invariant
                    0 <= j <= detectors@.len(),
                    n < lines@.len(),
                    ls == views(lines@),
                    first@ == before_char(ls[n as int], '\n'),
                    bad == exists|q: int|
                        0 <= q < j && contains_text(first@, #[trigger] detectors@[q].lint_message@),
                decreases detectors@.len() - j,
            {
                if text_contains(first.as_str(), detectors[j].lint_message.as_str()) {
                    bad = true;
                }
                j = j + 1;
            }
            if bad {
                proof {
                    assert(reported_by_some(detectors@, ls[n as int]));
                    assert(views(spans@).len() == spans@.len());
                    assert(spans@.len() == internals@.len());
                    assert(!spans_suffice(detectors@, ls, internals@.len() as nat));
                }
                return Err(OutputError::TooFewSpans);
            }
            assert(!reported_by_some(detectors@, ls[n as int]));
        }
        n = n + 1;
    }
    Ok(collect_errors(&lines, &spans, detectors))
}

/// The findings of the detectors with at least one span, in order.
pub open spec fn reported_view(s: Seq<DetectorFindings>) -> Seq<(Seq<char>, Seq<Seq<char>>, Seq<char>)>
    decreases s.len(),
{
    if s.len() == 0 {
        Seq::empty()
    } else {
        reported_view(s.drop_last()) + if s.last().spans@.len() > 0 {
            seq![findings_view(s.last())]
        } else {
            Seq::empty()
        }
    }
}

/// The findings that the report shows: those of the detectors with at least
/// one span (`jsonify` keeps only these).
pub fn reported_findings(findings: Vec<DetectorFindings>) -> (r: Vec<DetectorFindings>)
    ensures
        r@.map_values(|f: DetectorFindings| findings_view(f)) == reported_view(findings@),
{
    let ghost all = findings@;
    let n = findings.len();
    let mut r: Vec<DetectorFindings> = Vec::new();
    let mut rest = findings;
    let mut i: usize = 0;
    assert(r@.map_values(|f: DetectorFindings| findings_view(f)) =~= reported_view(all.take(0)));
    while rest.len() > 0
        invariant
            n == all.len(),
            i + rest@.len() == n,
            rest@ == all.skip(i as int),
            r@.map_values(|f: DetectorFindings| findings_view(f)) == reported_view(all.take(i as int)),
        decreases rest@.len(),
    {
        let f = rest.remove(0);
        assert(f == all[i as int]);
        assert(all.take(i + 1).drop_last() =~= all.take(i as int));
        let ghost prev = r@;
        if f.spans.len() > 0 {
            r.push(f);
            assert(r@.drop_last() =~= prev);
        }
        assert(r@.map_values(|f: DetectorFindings| findings_view(f)) =~= reported_view(all.take(i + 1)));
        i = i + 1;
        assert(rest@ =~= all.skip(i as int));
    }
    assert(all.take(all.len() as int) =~= all);
    r
}

/// The head of the HTML page of findings, up to the table's header row.
pub open spec fn html_head() -> Seq<char> {
    "\n    <!DOCTYPE html>\n    <html>\n    <head>\n    <style>\n    body {\n      font-family: monospace;\n      font-size: 1rem;\n    }\n    table {\n      border-collapse: collapse;\n    }\n    td, th {\n      border: 1px solid #999;\n      padding: 0.5rem;\n    }\n    th {\n      background-color: #eee;\n    }\n    </style>\n    </head>\n    <body>\n    <table>\n    <tr>\n    <th>Error</th>\n    <th>Spans</th>\n    <th>Message</th>\n    </tr>\n    "@
}

/// The list items of the spans.
pub open spec fn spans_items(spans: Seq<Seq<char>>) -> Seq<char>
    decreases spans.len(),
{
    if spans.len() == 0 {
        Seq::empty()
    } else {
        spans_items(spans.drop_last()) + "<li>"@ + spans.last() + "</li>"@
    }
}

/// The table row of one detector's findings.
pub open spec fn findings_row(f: (Seq<char>, Seq<Seq<char>>, Seq<char>)) -> Seq<char> {
    "\n        <tr>\n        <td>"@ + f.0 + "</td>\n        <td><ul>"@ + spans_items(f.1)
        + "</ul></td>\n        <td>"@ + f.2 + "</td>\n        </tr>\n        "@
}

/// The rows of the findings, in order.
pub open spec fn findings_rows(fs: Seq<(Seq<char>, Seq<Seq<char>>, Seq<char>)>) -> Seq<char>
    decreases fs.len(),
{
    if fs.len() == 0 {
        Seq::empty()
    } else {
        findings_rows(fs.drop_last()) + findings_row(fs.last())
    }
}

fn row_text(f: &DetectorFindings) -> (r: String)
    ensures
        r@ == findings_row(findings_view(*f)),
{
    let mut items = String::new();
    let mut i: usize = 0;
    while i < f.spans.len()
        invariant
            0 <= i <= f.spans@.len(),
            items@ == spans_items(views(f.spans@).take(i as int)),
        decreases f.spans@.len() - i,
    {
        assert(views(f.spans@).take(i + 1).drop_last() =~= views(f.spans@).take(i as int));
        items.append("<li>");
        items.append(f.spans[i].as_str());
        items.append("</li>");
        i = i + 1;
    }
    assert(views(f.spans@).take(f.spans@.len() as int) =~= views(f.spans@));
    let mut r = String::from_str("\n        <tr>\n        <td>");
    r.append(f.name.as_str());
    r.append("</td>\n        <td><ul>");
    r.append(items.as_str());
    r.append("</ul></td>\n        <td>");
    r.append(f.error_msg.as_str());
    r.append("</td>\n        </tr>\n        ");
    r
}

/// The HTML page of the findings, one table row per detector, in the order
/// given (`format_into_html`, given the findings in the order of the JSON
/// object's keys).
pub fn findings_html(findings: &Vec<DetectorFindings>) -> (r: String)
    ensures
        r@ == html_head() + findings_rows(findings@.map_values(|f: DetectorFindings| findings_view(f))),
{
    let mut r = String::from_str("\n    <!DOCTYPE html>\n    <html>\n    <head>\n    <style>\n    body {\n      font-family: monospace;\n      font-size: 1rem;\n    }\n    table {\n      border-collapse: collapse;\n    }\n    td, th {\n      border: 1px solid #999;\n      padding: 0.5rem;\n    }\n    th {\n      background-color: #eee;\n    }\n    </style>\n    </head>\n    <body>\n    <table>\n    <tr>\n    <th>Error</th>\n    <th>Spans</th>\n    <th>Message</th>\n    </tr>\n    ");
    let ghost head = r@;
    let ghost fs = findings@.map_values(|f: DetectorFindings| findings_view(f));
    let mut i: usize = 0;
    while i < findings.len()
        invariant
            0 <= i <= findings@.len(),
            fs == findings@.map_values(|f: DetectorFindings| findings_view(f)),
            r@ == head + findings_rows(fs.take(i as int)),
        decreases findings@.len() - i,
    {
        assert(fs.take(i + 1).drop_last() =~= fs.take(i as int));
        let row = row_text(&findings[i]);
        r.append(row.as_str());
        i = i + 1;
    }
    assert(fs.take(fs.len() as int) =~= fs);
    r
}

// ---------------------------------------------------------------------
// The results of the SARIF report
// ---------------------------------------------------------------------

/// Whether `text` is a JSON document (`serde_json::from_str::<Value>`
/// succeeds).
pub uninterp spec fn json_valid(text: Seq<char>) -> bool;

/// Whether `text` parses as JSON (`serde_json::from_str::<serde_json::Value>`);
/// the answer is named `json_valid`.
#[verifier::external_body]
fn is_json(text: &str) -> (b: bool)
    ensures
        b == json_valid(text@),
{
    serde_json::from_str::<serde_json::Value>(text).is_ok()
}

/// A result of the SARIF report: the rule (the detector's name), the
/// message, and the span, a JSON text, of its location.
#[derive(Debug)]
pub struct SarifResult {
    pub rule_id: String,
    pub message: String,
    pub location: String,
}

/// The view of a SARIF result.
pub open spec fn sarif_view(r: SarifResult) -> (Seq<char>, Seq<char>, Seq<char>) {
    (r.rule_id@, r.message@, r.location@)
}

/// The results for one detector: one per span that is a JSON text, in
/// order; the other spans are left out.
pub open spec fn span_results(name: Seq<char>, msg: Seq<char>, spans: Seq<Seq<char>>) -> Seq<
    (Seq<char>, Seq<char>, Seq<char>),
>
    decreases spans.len(),
{
    if spans.len() == 0 {
        Seq::empty()
    } else {
        span_results(name, msg, spans.drop_last()) + if json_valid(spans.last()) {
            seq![(name, msg, spans.last())]
        } else {
            Seq::empty()
        }
    }
}

/// The results of the SARIF report, detector after detector.
pub open spec fn sarif_results_of(fs: Seq<DetectorFindings>) -> Seq<
    (Seq<char>, Seq<char>, Seq<char>),
>
    decreases fs.len(),
{
    if fs.len() == 0 {
        Seq::empty()
    } else {
        sarif_results_of(fs.drop_last()) + span_results(
            fs.last().name@,
            fs.last().error_msg@,
            views(fs.last().spans@),
        )
    }
}

/// The results of the SARIF report: for each detector in turn, one result
/// per span that is a JSON text.
pub fn sarif_results(findings: &Vec<DetectorFindings>) -> (r: Vec<SarifResult>)
    ensures
        r@.map_values(|x: SarifResult| sarif_view(x)) == sarif_results_of(findings@),
{
    let mut r: Vec<SarifResult> = Vec::new();
    let mut i: usize = 0;
    assert(findings@.take(0) =~= Seq::<DetectorFindings>::empty());
    assert(r@.map_values(|x: SarifResult| sarif_view(x)) =~= sarif_results_of(findings@.take(0)));
    while i < findings.len()
        invariant
            0 <= i <= findings@.len(),
            r@.map_values(|x: SarifResult| sarif_view(x)) == sarif_results_of(findings@.take(i as int)),
        decreases findings@.len() - i,
    {
        let f = &findings[i];
        let ghost before = r@.map_values(|x: SarifResult| sarif_view(x));
        let ghost sp = views(f.spans@);
        let mut j: usize = 0;
        assert(sp.take(0) =~= Seq::<Seq<char>>::empty());
        assert(before + span_results(f.name@, f.error_msg@, sp.take(0)) =~= before);
        while j < f.spans.len()
            invariant
                0 <= j <= f.spans@.len(),
                sp == views(f.spans@),
                sp.len() == f.spans@.len(),
                r@.map_values(|x: SarifResult| sarif_view(x)) == before + span_results(
                    f.name@,
                    f.error_msg@,
                    sp.take(j as int),
                ),
            decreases f.spans@.len() - j,
        {
            let ghost prev = r@;
            assert(sp.take(j as int + 1).drop_last() =~= sp.take(j as int));
            assert(sp.take(j as int + 1).last() == f.spans@[j as int]@);
            if is_json(f.spans[j].as_str()) {
                r.push(
                    SarifResult {
                        rule_id: f.name.clone(),
                        message: f.error_msg.clone(),
                        location: f.spans[j].clone(),
                    },
                );
                assert(r@.drop_last() == prev);
                assert(r@.map_values(|x: SarifResult| sarif_view(x)) =~= prev.map_values(
                    |x: SarifResult| sarif_view(x),
                ).push(sarif_view(r@.last())));
            }
            assert(r@.map_values(|x: SarifResult| sarif_view(x)) =~= before + span_results(
                f.name@,
                f.error_msg@,
                sp.take(j as int + 1),
            ));
            j = j + 1;
        }
        assert(sp.take(sp.len() as int) =~= sp);
        assert(findings@.take(i as int + 1).drop_last() =~= findings@.take(i as int));
        assert(findings@.take(i as int + 1).last() == *f);
        i = i + 1;
    }
    assert(findings@.take(findings@.len() as int) =~= findings@);
    r
}

/// The SARIF result of a span of a detector, if the span is a JSON text.
pub open spec fn span_result(name: Seq<char>, msg: Seq<char>) -> spec_fn(Seq<char>) -> Option<
    (Seq<char>, Seq<char>, Seq<char>),
> {
    |x: Seq<char>| if json_valid(x) {
        Some((name, msg, x))
    } else {
        None
    }
}

/// Law: the results for a detector are exactly its JSON spans, in order,
/// each with the detector's name and message: the spans filtered to the
/// JSON ones and mapped to results.
pub proof fn lemma_span_results_are_json_spans(name: Seq<char>, msg: Seq<char>, spans: Seq<Seq<char>>)
    ensures
        span_results(name, msg, spans) == spans.filter_map(span_result(name, msg)),
    decreases spans.len(),
{
    if spans.len() > 0 {
        lemma_span_results_are_json_spans(name, msg, spans.drop_last());
        assert(span_results(name, msg, spans.drop_last()) + Seq::<(Seq<char>, Seq<char>, Seq<char>)>::empty()
            =~= span_results(name, msg, spans.drop_last()));
    }
}

/// Law: every result of a detector is one of its JSON spans with its name
/// and message, every JSON span of it gives a result, and adding a JSON
/// span adds its result at the end.
pub proof fn lemma_every_json_span_has_a_result(
    name: Seq<char>,
    msg: Seq<char>,
    spans: Seq<Seq<char>>,
    x: Seq<char>,
)
    ensures
        forall|k: int|
            0 <= k < span_results(name, msg, spans).len() ==> {
                let res = #[trigger] span_results(name, msg, spans)[k];
                res.0 == name && res.1 == msg && json_valid(res.2) && spans.contains(res.2)
            },
        forall|j: int|
            0 <= j < spans.len() && json_valid(#[trigger] spans[j]) ==> span_results(
                name,
                msg,
                spans,
            ).contains((name, msg, spans[j])),
        json_valid(x) ==> span_results(name, msg, spans.push(x)) == span_results(name, msg, spans).push(
            (name, msg, x),
        ),
        !json_valid(x) ==> span_results(name, msg, spans.push(x)) == span_results(name, msg, spans),
    decreases spans.len(),
{
    assert(spans.push(x).drop_last() =~= spans);
    if spans.len() > 0 {
        let init = spans.drop_last();
        let last = spans.last();
        lemma_every_json_span_has_a_result(name, msg, init, last);
        let prev = span_results(name, msg, init);
        let all = span_results(name, msg, spans);
        assert forall|k: int| 0 <= k < all.len() implies {
            let res = #[trigger] all[k];
            res.0 == name && res.1 == msg && json_valid(res.2) && spans.contains(res.2)
        } by {
            if k < prev.len() {
                assert(all[k] == prev[k]);
                let res = prev[k];
                let w = choose|w: int| 0 <= w < init.len() && init[w] == res.2;
                assert(spans[w] == init[w]);
            } else {
                assert(json_valid(last));
                assert(all[k] == (name, msg, last));
                assert(spans[spans.len() - 1] == last);
            }
        }
        assert forall|j: int| 0 <= j < spans.len() && json_valid(#[trigger] spans[j]) implies all.contains(
            (name, msg, spans[j]),
        ) by {
            if j < spans.len() - 1 {
                assert(init[j] == spans[j]);
                let k = choose|k: int| 0 <= k < prev.len() && prev[k] == (name, msg, init[j]);
                assert(all[k] == prev[k]);
            } else {
                assert(all[all.len() - 1] == (name, msg, last));
            }
        }
    }
}

/// Law: every JSON span of every detector appears in the SARIF report with
/// the detector's name and message.
pub proof fn lemma_sarif_reports_every_json_span(fs: Seq<DetectorFindings>, i: int, j: int)
    requires
        0 <= i < fs.len(),
        0 <= j < fs[i].spans@.len(),
        json_valid(fs[i].spans@[j]@),
    ensures
        sarif_results_of(fs).contains((fs[i].name@, fs[i].error_msg@, fs[i].spans@[j]@)),
    decreases fs.len(),
{
    let res = (fs[i].name@, fs[i].error_msg@, fs[i].spans@[j]@);
    if i < fs.len() - 1 {
        lemma_sarif_reports_every_json_span(fs.drop_last(), i, j);
        let prev = sarif_results_of(fs.drop_last());
        let k = choose|k: int| 0 <= k < prev.len() && prev[k] == res;
        assert(sarif_results_of(fs)[k] == prev[k]);
    } else {
        let f = fs.last();
        let sp = views(f.spans@);
        assert(sp[j] == f.spans@[j]@);
        lemma_every_json_span_has_a_result(f.name@, f.error_msg@, sp, sp[j]);
        let own = span_results(f.name@, f.error_msg@, sp);
        let k = choose|k: int| 0 <= k < own.len() && own[k] == res;
        let prev = sarif_results_of(fs.drop_last());
        assert(sarif_results_of(fs)[prev.len() + k] == own[k]);
    }
}

} // verus!
