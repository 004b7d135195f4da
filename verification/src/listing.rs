//! What the tool prints about the detectors, which built detector libraries
//! it keeps, and what a run does with its options.
use vstd::prelude::*;
use crate::text::{chars_of, decimal, push_char, push_decimal, replace_char, text_eq, views};

verus! {

// ---------------------------------------------------------------------
// Finding a text in a text
// ---------------------------------------------------------------------

/// Whether `pat` occurs in `s` at index `i`.
pub open spec fn match_at(s: Seq<char>, pat: Seq<char>, i: int) -> bool {
    0 <= i && i + pat.len() <= s.len() && s.subrange(i, i + pat.len()) == pat
}

/// Whether `i` is the first index where `pat` occurs in `s`.
pub open spec fn first_match_at(s: Seq<char>, pat: Seq<char>, i: int) -> bool {
    match_at(s, pat, i) && forall|j: int| 0 <= j < i ==> !match_at(s, pat, j)
}

/// The first index where `pat` occurs in `s`, if it occurs.
pub open spec fn first_occ(s: Seq<char>, pat: Seq<char>) -> Option<int> {
    if exists|i: int| match_at(s, pat, i) {
        Some(choose|i: int| first_match_at(s, pat, i))
    } else {
        None
    }
}

proof fn lemma_first_occ_is(s: Seq<char>, pat: Seq<char>, i: int)
    requires
        first_match_at(s, pat, i),
    ensures
        first_occ(s, pat) == Some(i),
{
    assert(match_at(s, pat, i));
    let w = choose|k: int| first_match_at(s, pat, k);
    assert(first_match_at(s, pat, w));
    if w < i {
        assert(!match_at(s, pat, w));
    } else if w > i {
        assert(!match_at(s, pat, i));
    }
}

/// The first index where `pat` occurs in `v`, if it occurs.
fn find_text(v: &Vec<char>, pat: &Vec<char>) -> (r: Option<usize>)
    ensures
        match r {
            Some(i) => first_occ(v@, pat@) == Some(i as int) && first_match_at(v@, pat@, i as int),
            None => first_occ(v@, pat@) is None,
        },
{
    if pat.len() > v.len() {
        assert forall|i: int| !match_at(v@, pat@, i) by {}
        return None;
    }
    let last = v.len() - pat.len();
    let mut i: usize = 0;
    while i <= last
        invariant
            last == v@.len() - pat@.len(),
            0 <= i <= last,
            forall|j: int| 0 <= j < i ==> !match_at(v@, pat@, j),
        decreases last - i,
    {
        let mut k: usize = 0;
        let mut same = true;
        while k < pat.len()
            invariant
                i <= last,
                last == v@.len() - pat@.len(),
                i + pat@.len() <= v@.len(),
                v@.len() == v.len(),
                0 <= k <= pat@.len(),
                same == forall|t: int| 0 <= t < k ==> v@[i + t] == pat@[t],
            decreases pat@.len() - k,
        {
            let at: usize = i + k;
            if v[at] != pat[k] {
                same = false;
            }
            k = k + 1;
        }
        if same {
            assert(v@.subrange(i as int, i + pat@.len()) =~= pat@);
            proof {
                lemma_first_occ_is(v@, pat@, i as int);
            }
            return Some(i);
        }
        proof {
            let t = choose|t: int| 0 <= t < pat@.len() && v@[i + t] != pat@[t];
            assert(v@.subrange(i as int, i + pat@.len())[t] != pat@[t]);
            assert(!match_at(v@, pat@, i as int));
        }
        if i == last {
            assert forall|j: int| !match_at(v@, pat@, j) by {
                if 0 <= j && j + pat@.len() <= v@.len() {
                    assert(j <= i);
                }
            }
            return None;
        }
        i = i + 1;
    }
    None
}

// ---------------------------------------------------------------------
// Which built detector libraries are kept
// ---------------------------------------------------------------------

/// The text of `s` before the first `@`.
pub open spec fn before_at(s: Seq<char>) -> Seq<char> {
    match first_occ(s, seq!['@']) {
        Some(i) => s.take(i),
        None => s,
    }
}

/// The piece of `s` between its first and its second `lib`.
pub open spec fn after_first_lib(s: Seq<char>) -> Seq<char> {
    let a = s.skip(first_occ(s, "lib"@)->0 + 3);
    match first_occ(a, "lib"@) {
        Some(j) => a.take(j),
        None => a,
    }
}

/// The detector that a built library file is named after: the file name
/// without the platform's `lib` prefix (where `unix_prefix`) and without
/// the `@toolchain` suffix, with `_` read as `-`.
pub open spec fn detector_name_of(file_name: Seq<char>, unix_prefix: bool) -> Seq<char> {
    let base = if unix_prefix {
        after_first_lib(file_name)
    } else {
        file_name
    };
    replace_char(before_at(base), '_', '-')
}

fn sub_chars(v: &Vec<char>, lo: usize, hi: usize) -> (r: Vec<char>)
    requires
        lo <= hi <= v@.len(),
    ensures
        r@ == v@.subrange(lo as int, hi as int),
{
    let mut r: Vec<char> = Vec::new();
    let mut i = lo;
    while i < hi
        invariant
            lo <= i <= hi <= v@.len(),
            r@ == v@.subrange(lo as int, i as int),
        decreases hi - i,
    {
        r.push(v[i]);
        i = i + 1;
        assert(r@ =~= v@.subrange(lo as int, i as int));
    }
    r
}

/// The detector that a built library file is named after.
pub fn detector_name_from_file(file_name: &str, unix_prefix: bool) -> (r: String)
    requires
        unix_prefix ==> first_occ(file_name@, "lib"@) is Some,
    ensures
        r@ == detector_name_of(file_name@, unix_prefix),
{
    let v = chars_of(file_name);
    let lib: Vec<char> = vec!['l', 'i', 'b'];
    proof {
        reveal_strlit("lib");
        assert(lib@ =~= "lib"@);
    }
    let at: Vec<char> = vec!['@'];
    assert(at@ =~= seq!['@']);
    let base = if unix_prefix {
        let i0 = match find_text(&v, &lib) {
            Some(i) => i,
            None => {
                return String::new();
            },
        };
        assert(match_at(v@, lib@, i0 as int));
        assert(i0 + 3 <= v@.len());
        assert(v@.len() == v.len());
        let start: usize = i0 + 3;
        let a = sub_chars(&v, start, v.len());
        assert(a@ =~= v@.skip(i0 + 3));
        match find_text(&a, &lib) {
            Some(j) => {
                let t = sub_chars(&a, 0, j);
                assert(t@ =~= a@.take(j as int));
                t
            },
            None => a,
        }
    } else {
        v
    };
    assert(base@ == if unix_prefix {
        after_first_lib(file_name@)
    } else {
        file_name@
    });
    let stem = match find_text(&base, &at) {
        Some(k) => {
            let t = sub_chars(&base, 0, k);
            assert(t@ =~= base@.take(k as int));
            t
        },
        None => base,
    };
    let mut r = String::new();
    let mut i: usize = 0;
    while i < stem.len()
        invariant
            0 <= i <= stem@.len(),
            r@ == replace_char(stem@.take(i as int), '_', '-'),
        decreases stem@.len() - i,
    {
        if stem[i] == '_' {
            push_char(&mut r, '-');
        } else {
            push_char(&mut r, stem[i]);
        }
        i = i + 1;
        assert(r@ =~= replace_char(stem@.take(i as int), '_', '-'));
    }
    assert(stem@.take(stem@.len() as int) =~= stem@);
    r
}

/// Which of the built library files `file_names` to keep: those named after
/// a detector in `used_detectors` (the others are removed by the caller).
pub fn filter_detectors(file_names: &Vec<String>, used_detectors: &Vec<String>, unix_prefix: bool) -> (r:
    Vec<bool>)
    requires
        unix_prefix ==> forall|k: int|
            0 <= k < file_names@.len() ==> first_occ(#[trigger] file_names@[k]@, "lib"@) is Some,
    ensures
        r@.len() == file_names@.len(),
        forall|k: int|
            0 <= k < r@.len() ==> #[trigger] r@[k] == views(used_detectors@).contains(
                detector_name_of(file_names@[k]@, unix_prefix),
            ),
{
    let mut r: Vec<bool> = Vec::new();
    let mut k: usize = 0;
    while k < file_names.len()
        invariant
            0 <= k <= file_names@.len(),
            r@.len() == k,
            unix_prefix ==> forall|j: int|
                0 <= j < file_names@.len() ==> first_occ(#[trigger] file_names@[j]@, "lib"@) is Some,
            forall|j: int|
                0 <= j < k ==> #[trigger] r@[j] == views(used_detectors@).contains(
                    detector_name_of(file_names@[j]@, unix_prefix),
                ),
        decreases file_names@.len() - k,
    {
        let name = detector_name_from_file(file_names[k].as_str(), unix_prefix);
        let mut keep = false;
        let mut i: usize = 0;
        while i < used_detectors.len()
            invariant
                0 <= i <= used_detectors@.len(),
                keep == exists|t: int| 0 <= t < i && used_detectors@[t]@ == name@,
            decreases used_detectors@.len() - i,
        {
            if used_detectors[i] == name {
                keep = true;
            }
            i = i + 1;
        }
        proof {
            if keep {
                let t = choose|t: int| 0 <= t < used_detectors@.len() && used_detectors@[t]@ == name@;
                assert(views(used_detectors@)[t] == name@);
            } else {
                assert forall|t: int| 0 <= t < views(used_detectors@).len() implies views(
                    used_detectors@,
                )[t] != name@ by {
                    assert(views(used_detectors@)[t] == used_detectors@[t]@);
                }
            }
        }
        r.push(keep);
        k = k + 1;
    }
    r
}

/// The file name of a built detector library: the platform's prefix, the
/// detector's name with `-` read as `_`, `@`, the toolchain, the platform's
/// suffix.
pub open spec fn library_file_text(prefix: Seq<char>, name: Seq<char>, toolchain: Seq<char>, suffix: Seq<char>) -> Seq<char> {
    prefix + replace_char(name, '-', '_') + "@"@ + toolchain + suffix
}

/// The file name of a built detector library.
pub fn library_file_name(prefix: &str, name: &str, toolchain: &str, suffix: &str) -> (r: String)
    ensures
        r@ == library_file_text(prefix@, name@, toolchain@, suffix@),
{
    let mut r = String::from_str(prefix);
    let ghost p = r@;
    let v = chars_of(name);
    let mut i: usize = 0;
    while i < v.len()
        invariant
            0 <= i <= v@.len(),
            v@ == name@,
            r@ == p + replace_char(v@.take(i as int), '-', '_'),
        decreases v@.len() - i,
    {
        if v[i] == '-' {
            push_char(&mut r, '_');
        } else {
            push_char(&mut r, v[i]);
        }
        i = i + 1;
        assert(r@ =~= p + replace_char(v@.take(i as int), '-', '_'));
    }
    assert(v@.take(v@.len() as int) =~= v@);
    r.append("@");
    r.append(toolchain);
    r.append(suffix);
    r
}

// ---------------------------------------------------------------------
// Listing the detectors
// ---------------------------------------------------------------------

/// `n` copies of the character `c`.
pub open spec fn repeat_char(c: char, n: nat) -> Seq<char> {
    Seq::new(n, |i: int| c)
}

/// `s` right-aligned in a field of `w` characters.
pub open spec fn align_right(s: Seq<char>, w: nat) -> Seq<char> {
    if s.len() < w {
        repeat_char(' ', (w - s.len()) as nat) + s
    } else {
        s
    }
}

/// `s` left-aligned in a field of `w` characters.
pub open spec fn align_left(s: Seq<char>, w: nat) -> Seq<char> {
    if s.len() < w {
        s + repeat_char(' ', (w - s.len()) as nat)
    } else {
        s
    }
}

/// `s` centred in a field of `w` characters (an odd space goes right).
pub open spec fn align_center(s: Seq<char>, w: nat) -> Seq<char> {
    if s.len() < w {
        let pad = (w - s.len()) as nat;
        repeat_char(' ', pad / 2) + s + repeat_char(' ', (pad - pad / 2) as nat)
    } else {
        s
    }
}

fn push_repeat(r: &mut String, c: char, n: usize)
    ensures
        final(r)@ == old(r)@ + repeat_char(c, n as nat),
{
    let ghost start = r@;
    let mut i: usize = 0;
    while i < n
        invariant
            0 <= i <= n,
            r@ == start + repeat_char(c, i as nat),
        decreases n - i,
    {
        push_char(r, c);
        i = i + 1;
        assert(r@ =~= start + repeat_char(c, i as nat));
    }
}

/// A numbered line of the listing box: the number right-aligned in
/// `num_width` columns, the name left-aligned in `name_width`.
pub open spec fn box_line_text(index: nat, name: Seq<char>, num_width: nat, name_width: nat) -> Seq<char> {
    "│ "@ + align_right(decimal(index), num_width) + ". "@ + align_left(name, name_width) + "│"@
}

/// The lines that list the detectors in a box: its border, its title, one
/// numbered line per detector, with the given column widths.
pub open spec fn detector_box_with(names: Seq<Seq<char>>, num_width: nat, name_width: nat) -> Seq<Seq<char>> {
    let border = repeat_char('─', 48);
    let empty = "│"@ + repeat_char(' ', 48) + "│"@;
    seq!["┌"@ + border + "┐"@, "│"@ + align_center("🔍 Available detectors:"@, 47) + "│"@, empty]
        + Seq::new(names.len(), |i: int| box_line_text((i + 1) as nat, names[i], num_width, name_width))
        + seq![empty, "└"@ + border + "┘"@]
}

/// The lines that list the detectors in a box, as `list_detectors` prints
/// them.
pub open spec fn detector_box(names: Seq<Seq<char>>) -> Seq<Seq<char>> {
    detector_box_with(names, 2, 43)
}

fn box_border(left: &str, right: &str) -> (r: String)
    ensures
        r@ == left@ + repeat_char('─', 48) + right@,
{
    let mut r = String::from_str(left);
    push_repeat(&mut r, '─', 48);
    r.append(right);
    r
}

fn box_empty() -> (r: String)
    ensures
        r@ == "│"@ + repeat_char(' ', 48) + "│"@,
{
    let mut r = String::from_str("│");
    push_repeat(&mut r, ' ', 48);
    r.append("│");
    r
}

fn box_line(index: usize, name: &str, num_width: usize, name_width: usize) -> (r: String)
    requires
        index < u64::MAX,
    ensures
        r@ == box_line_text(index as nat, name@, num_width as nat, name_width as nat),
{
    let mut num = String::new();
    push_decimal(&mut num, index as u64);
    let mut r = String::from_str("│ ");
    let nlen = chars_of(num.as_str()).len();
    if nlen < num_width {
        push_repeat(&mut r, ' ', num_width - nlen);
    }
    r.append(num.as_str());
    r.append(". ");
    r.append(name);
    let len = chars_of(name).len();
    if len < name_width {
        push_repeat(&mut r, ' ', name_width - len);
    }
    r.append("│");
    r
}

/// The lines of the listing box with the given column widths.
fn box_lines(detectors_names: &Vec<String>, num_width: usize, name_width: usize) -> (r: Vec<String>)
    requires
        detectors_names@.len() < u64::MAX,
    ensures
        views(r@) == detector_box_with(views(detectors_names@), num_width as nat, name_width as nat),
{
    let mut r: Vec<String> = Vec::new();
    r.push(box_border("┌", "┐"));
    let mut title = String::from_str("│");
    let t = "🔍 Available detectors:";
    let tlen = chars_of(t).len();
    if tlen < 47 {
        let pad = 47 - tlen;
        push_repeat(&mut title, ' ', pad / 2);
        title.append(t);
        push_repeat(&mut title, ' ', pad - pad / 2);
    } else {
        title.append(t);
    }
    title.append("│");
    r.push(title);
    r.push(box_empty());
    let ghost head = views(r@);
    let mut i: usize = 0;
    while i < detectors_names.len()
        invariant
            0 <= i <= detectors_names@.len() < u64::MAX,
            r@.len() == 3 + i,
            views(r@).take(3) == head,
            forall|k: int|
                0 <= k < i ==> (#[trigger] r@[3 + k])@ == box_line_text(
                    (k + 1) as nat,
                    detectors_names@[k]@,
                    num_width as nat,
                    name_width as nat,
                ),
        decreases detectors_names@.len() - i,
    {
        let line = box_line(i + 1, detectors_names[i].as_str(), num_width, name_width);
        let ghost prev = r@;
        r.push(line);
        assert(views(r@).take(3) =~= views(prev).take(3));
        i = i + 1;
    }
    let ghost mid = r@;
    r.push(box_empty());
    r.push(box_border("└", "┘"));
    proof {
        let want = detector_box_with(views(detectors_names@), num_width as nat, name_width as nat);
        let n = detectors_names@.len();
        assert(want.len() == views(r@).len());
        assert forall|k: int| 0 <= k < want.len() implies views(r@)[k] == want[k] by {
            if k < 3 {
                assert(views(r@)[k] == views(mid).take(3)[k]);
            } else if k < 3 + n {
                assert(r@[k] == mid[k]);
                assert(mid[3 + (k - 3)] == mid[k]);
            }
        }
        assert(views(r@) =~= want);
    }
    r
}

/// The lines that list the detectors in a box (`list_detectors`): numbers
/// right-aligned in two columns, names left-aligned in 43.
pub fn list_detectors(detectors_names: &Vec<String>) -> (r: Vec<String>)
    requires
        detectors_names@.len() < u64::MAX,
    ensures
        views(r@) == detector_box(views(detectors_names@)),
{
    box_lines(detectors_names, 2, 43)
}

/// The lines of the detector box of the `cargo scout` tool
/// (`Detectors::list_detectors`): numbers as they are, names left-aligned in
/// 44 columns.
pub fn list_detectors_compact(detectors_names: &Vec<String>) -> (r: Vec<String>)
    requires
        detectors_names@.len() < u64::MAX,
    ensures
        views(r@) == detector_box_with(views(detectors_names@), 1, 44),
{
    box_lines(detectors_names, 1, 44)
}

/// The lines that list the detectors, numbered from 1 (`<n> -> <name>`),
/// after a header.
pub open spec fn numbered_list(names: Seq<Seq<char>>) -> Seq<Seq<char>> {
    seq!["--------------------"@, "Available detectors:\n\n"@] + Seq::new(
        names.len(),
        |i: int| decimal((i + 1) as nat) + " -> "@ + names[i],
    )
}

/// The lines that list the detectors, numbered from 1.
pub fn numbered_detector_list(names: &Vec<String>) -> (r: Vec<String>)
    requires
        names@.len() < u64::MAX,
    ensures
        views(r@) == numbered_list(views(names@)),
{
    let mut r: Vec<String> = Vec::new();
    r.push(String::from_str("--------------------"));
    r.push(String::from_str("Available detectors:\n\n"));
    let mut i: usize = 0;
    while i < names.len()
        invariant
            0 <= i <= names@.len() < u64::MAX,
            r@.len() == 2 + i,
            r@[0]@ == "--------------------"@,
            r@[1]@ == "Available detectors:\n\n"@,
            forall|k: int|
                0 <= k < i ==> (#[trigger] r@[2 + k])@ == decimal((k + 1) as nat) + " -> "@
                    + names@[k]@,
        decreases names@.len() - i,
    {
        let mut line = String::new();
        push_decimal(&mut line, (i + 1) as u64);
        line.append(" -> ");
        line.append(names[i].as_str());
        r.push(line);
        i = i + 1;
    }
    proof {
        let want = numbered_list(views(names@));
        assert(want.len() == views(r@).len());
        assert forall|k: int| 0 <= k < want.len() implies views(r@)[k] == want[k] by {
            if k >= 2 {
                assert(r@[2 + (k - 2)] == r@[k]);
            }
        }
        assert(views(r@) =~= want);
    }
    r
}

// ---------------------------------------------------------------------
// What a run does
// ---------------------------------------------------------------------

/// What a run of the tool does with its options.
#[derive(Clone, Copy, PartialEq, Eq, Structural, Debug)]
pub enum ScoutStep {
    /// `--filter` and `--exclude` were both given: the run refuses them.
    Conflict,
    /// The detectors are listed.
    List,
    /// The chosen detectors are built and run.
    Run,
}

/// What a run does: both `--filter` and `--exclude` is a conflict; else
/// `--list-detectors` lists; else the detectors run.
pub fn plan_scout(has_filter: bool, has_exclude: bool, list_detectors: bool) -> (r: ScoutStep)
    ensures
        r == if has_filter && has_exclude {
            ScoutStep::Conflict
        } else if list_detectors {
            ScoutStep::List
        } else {
            ScoutStep::Run
        },
{
    if has_filter && has_exclude {
        ScoutStep::Conflict
    } else if list_detectors {
        ScoutStep::List
    } else {
        ScoutStep::Run
    }
}

} // verus!
