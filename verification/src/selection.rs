//! Choosing which detectors run: a comma-separated list given on the command
//! line either filters the available detectors down to the listed ones or
//! excludes the listed ones from them.
use crate::text::{
    chars_of, replace_char, replace_char_string, split_on, split_ranges, str_to_lowercase,
    string_from_chars, trim, trim_bounds, trim_string, unicode_lowercase, views,
};
use vstd::prelude::*;

verus! {

// ---------------------------------------------------------------------
// Specifications
// ---------------------------------------------------------------------

/// The detector names in a comma-separated list: the list is lower-cased
/// and trimmed, underscores become dashes, and each piece between commas is
/// trimmed.
pub open spec fn parsed_detectors(list: Seq<char>) -> Seq<Seq<char>> {
    split_on(replace_char(trim(unicode_lowercase(list)), '_', '-'), ',').map_values(
        |p: Seq<char>| trim(p),
    )
}

/// Whether every name in `parsed` is one of `names`.
pub open spec fn all_known(parsed: Seq<Seq<char>>, names: Seq<Seq<char>>) -> bool {
    forall|k: int| 0 <= k < parsed.len() ==> names.contains(#[trigger] parsed[k])
}

/// Whether `parsed[k]` is the first name of `parsed` that is not one of `names`.
pub open spec fn first_unknown_at(parsed: Seq<Seq<char>>, names: Seq<Seq<char>>, k: int) -> bool {
    &&& 0 <= k < parsed.len()
    &&& !names.contains(parsed[k])
    &&& all_known(parsed.take(k), names)
}

/// The index of the first occurrence of `x` in `s` (`s.len()` when absent).
pub open spec fn first_index<A>(s: Seq<A>, x: A) -> int
    decreases s.len(),
{
    if s.len() == 0 {
        0
    } else if s[0] == x {
        0
    } else {
        1 + first_index(s.drop_first(), x)
    }
}

/// `s` without the first occurrence of `x` (`s` itself when `x` does not
/// occur).
pub open spec fn remove_first<A>(s: Seq<A>, x: A) -> Seq<A> {
    if first_index(s, x) < s.len() {
        s.remove(first_index(s, x))
    } else {
        s
    }
}

/// `names` after removing, one by one, the first occurrence of each name of
/// `parsed`.
pub open spec fn after_excluding(names: Seq<Seq<char>>, parsed: Seq<Seq<char>>) -> Seq<Seq<char>>
    decreases parsed.len(),
{
    if parsed.len() == 0 {
        names
    } else {
        remove_first(after_excluding(names, parsed.drop_last()), parsed.last())
    }
}

/// Whether excluding `parsed` from `names` runs out of a name: some name
/// that is known (and preceded only by known names) was already removed as
/// many times as `names` holds it.
#[verifier::opaque]
pub open spec fn exclusion_exhausts(names: Seq<Seq<char>>, parsed: Seq<Seq<char>>) -> bool {
    exists|k: int|
        0 <= k < parsed.len() && all_known(parsed.take(k + 1), names) && !after_excluding(
            names,
            parsed.take(k),
        ).contains(#[trigger] parsed[k])
}

/// Why a list of detectors was refused.
#[derive(Debug)]
pub enum DetectorError {
    /// The named detector is not one of the available ones.
    NotFound(String),
}

impl DetectorError {
    /// The name that the error is about.
    pub open spec fn name(self) -> Seq<char> {
        match self {
            DetectorError::NotFound(d) => d@,
        }
    }

    /// The error message: `The detector '<name>' doesn't exist`.
    pub fn message(&self) -> (m: String)
        ensures
            m@ == "The detector '"@ + self.name() + "' doesn't exist"@,
    {
        let mut m = String::new();
        m.append("The detector '");
        match self {
            DetectorError::NotFound(d) => m.append(d.as_str()),
        }
        m.append("' doesn't exist");
        m
    }
}

// ---------------------------------------------------------------------
// Lemmas
// ---------------------------------------------------------------------

/// The first index of `x` is the index before which `x` does not occur and
/// at which it does.
proof fn lemma_first_index<A>(s: Seq<A>, x: A, p: int)
    requires
        0 <= p < s.len(),
        s[p] == x,
        forall|j: int| 0 <= j < p ==> s[j] != x,
    ensures
        first_index(s, x) == p,
    decreases p,
{
    if p > 0 {
        lemma_first_index(s.drop_first(), x, p - 1);
    }
}

/// One more known name keeps a prefix all known.
proof fn lemma_all_known_extend(p: Seq<Seq<char>>, names: Seq<Seq<char>>, i: int)
    requires
        0 <= i < p.len(),
        all_known(p.take(i), names),
        names.contains(p[i]),
    ensures
        all_known(p.take(i + 1), names),
{
    assert forall|k: int| 0 <= k < p.take(i + 1).len() implies names.contains(
        #[trigger] p.take(i + 1)[k],
    ) by {
        if k < i {
            assert(p.take(i + 1)[k] == p.take(i)[k]);
        }
    }
}

/// An unknown name makes every prefix that holds it not all known.
proof fn lemma_unknown_blocks(p: Seq<Seq<char>>, names: Seq<Seq<char>>, i: int, k: int)
    requires
        0 <= i <= k < p.len(),
        !names.contains(p[i]),
    ensures
        !all_known(p.take(k + 1), names),
{
    assert(p.take(k + 1)[i] == p[i]);
}

/// One more step of excluding.
proof fn lemma_after_excluding_step(names: Seq<Seq<char>>, p: Seq<Seq<char>>, i: int)
    requires
        0 <= i < p.len(),
    ensures
        after_excluding(names, p.take(i + 1)) == remove_first(after_excluding(names, p.take(i)), p[i]),
{
    assert(p.take(i + 1).drop_last() =~= p.take(i));
}

/// Views commute with removing an element.
proof fn lemma_views_remove(v: Seq<String>, i: int)
    requires
        0 <= i < v.len(),
    ensures
        views(v.remove(i)) == views(v).remove(i),
{
    assert(views(v.remove(i)) =~= views(v).remove(i));
}

// ---------------------------------------------------------------------
// Executable functions
// ---------------------------------------------------------------------

/// Splits a comma-separated list of detector names: lower-cases and trims
/// it, turns underscores into dashes, and trims each piece.
pub fn get_parsed_detectors(detectors: String) -> (r: Vec<String>)
    ensures
        views(r@) == parsed_detectors(detectors@),
{
    let lower = str_to_lowercase(detectors.as_str());
    let trimmed = trim_string(lower.as_str());
    let replaced = replace_char_string(trimmed.as_str(), '_', '-');
    let v = chars_of(replaced.as_str());
    let ranges = split_ranges(v.as_slice(), ',');
    let ghost pieces = split_on(v@, ',');
    let mut r: Vec<String> = Vec::new();
    let mut i: usize = 0;
    while i < ranges.len()
        invariant
            0 <= i <= ranges@.len(),
            ranges@.len() == pieces.len(),
            pieces == split_on(v@, ','),
            forall|k: int|
                0 <= k < ranges@.len() ==> {
                    &&& (#[trigger] ranges@[k]).0 <= ranges@[k].1 <= v@.len()
                    &&& v@.subrange(ranges@[k].0 as int, ranges@[k].1 as int) == pieces[k]
                },
            views(r@) == pieces.take(i as int).map_values(|p: Seq<char>| trim(p)),
        decreases ranges@.len() - i,
    {
        let (from, to) = ranges[i];
        let (lo, hi) = trim_bounds(v.as_slice(), from, to);
        let piece = string_from_chars(v.as_slice(), lo, hi);
        assert(piece@ == trim(pieces[i as int]));
        let ghost before = r@;
        r.push(piece);
        assert(views(r@) =~= views(before).push(piece@));
        i = i + 1;
        assert(views(r@) =~= pieces.take(i as int).map_values(|p: Seq<char>| trim(p)));
    }
    assert(pieces.take(pieces.len() as int) =~= pieces);
    r
}

/// Whether `name` is one of `names`.
pub fn contains_name(names: &Vec<String>, name: &String) -> (b: bool)
    ensures
        b == views(names@).contains(name@),
{
    let mut i: usize = 0;
    while i < names.len()
        invariant
            0 <= i <= names@.len(),
            forall|j: int| 0 <= j < i ==> (#[trigger] names@[j])@ != name@,
        decreases names@.len() - i,
    {
        if names[i] == *name {
            assert(views(names@)[i as int] == name@);
            return true;
        }
        i = i + 1;
    }
    assert forall|j: int| 0 <= j < views(names@).len() implies views(names@)[j] != name@ by {
        assert(names@[j]@ != name@);
    }
    false
}

/// The index of the first name equal to `name`, if any.
fn position_of(names: &Vec<String>, name: &String) -> (r: Option<usize>)
    ensures
        match r {
            Some(p) => p < names@.len() && names@[p as int]@ == name@ && p == first_index(
                views(names@),
                name@,
            ),
            None => !views(names@).contains(name@),
        },
{
    let mut i: usize = 0;
    while i < names.len()
        invariant
            0 <= i <= names@.len(),
            forall|j: int| 0 <= j < i ==> (#[trigger] names@[j])@ != name@,
        decreases names@.len() - i,
    {
        if names[i] == *name {
            proof {
                assert forall|j: int| 0 <= j < i implies views(names@)[j] != name@ by {
                    assert(names@[j]@ != name@);
                }
                lemma_first_index(views(names@), name@, i as int);
            }
            return Some(i);
        }
        i = i + 1;
    }
    assert forall|j: int| 0 <= j < views(names@).len() implies views(names@)[j] != name@ by {
        assert(names@[j]@ != name@);
    }
    None
}

/// The detectors named in `filter`, in the order given, provided that every
/// one of them is among `detectors_names`; otherwise the error names the
/// first one that is not.
pub fn get_filtered_detectors(filter: String, detectors_names: Vec<String>) -> (r: Result<
    Vec<String>,
    DetectorError,
>)
    ensures
        filtered_outcome(filter@, views(detectors_names@), r),
{
    let parsed = get_parsed_detectors(filter);
    let ghost p = views(parsed@);
    let ghost names = views(detectors_names@);
    let mut used: Vec<String> = Vec::new();
    let mut i: usize = 0;
    while i < parsed.len()
        invariant
            0 <= i <= parsed@.len(),
            p == views(parsed@),
            p == parsed_detectors(filter@),
            names == views(detectors_names@),
            all_known(p.take(i as int), names),
            views(used@) == p.take(i as int),
        decreases parsed@.len() - i,
    {
        let d = &parsed[i];
        assert(p[i as int] == d@);
        if contains_name(&detectors_names, d) {
            proof {
                lemma_all_known_extend(p, names, i as int);
            }
            let ghost before = used@;
            used.push(d.clone());
            assert(views(used@) =~= views(before).push(d@));
            assert(p.take(i + 1) =~= p.take(i as int).push(p[i as int]));
            i = i + 1;
        } else {
            assert(first_unknown_at(p, names, i as int));
            let e = DetectorError::NotFound(d.clone());
            assert(e.name() == p[i as int]);
            return Err(e);
        }
    }
    assert(p.take(p.len() as int) =~= p);
    Ok(used)
}

/// Whether excluding the names of `parsed` from `detectors_names` would run
/// out of a name (see `exclusion_exhausts`).
pub fn exclusion_would_exhaust(parsed: &Vec<String>, detectors_names: &Vec<String>) -> (b: bool)
    ensures
        b == exclusion_exhausts(views(detectors_names@), views(parsed@)),
{
    let ghost p = views(parsed@);
    let ghost names = views(detectors_names@);
    let mut used = detectors_names.clone();
    let mut i: usize = 0;
    while i < parsed.len()
        invariant
            0 <= i <= parsed@.len(),
            p == views(parsed@),
            names == views(detectors_names@),
            all_known(p.take(i as int), names),
            views(used@) == after_excluding(names, p.take(i as int)),
            forall|k: int|
                0 <= k < i ==> after_excluding(names, p.take(k)).contains(#[trigger] p[k]),
        decreases parsed@.len() - i,
    {
        let d = &parsed[i];
        assert(p[i as int] == d@);
        if !contains_name(detectors_names, d) {
            // Excluding stops at the first unknown name, before any later one.
            reveal(exclusion_exhausts);
            assert forall|k: int| 0 <= k < p.len() implies !(all_known(p.take(k + 1), names)
                && !after_excluding(names, p.take(k)).contains(#[trigger] p[k])) by {
                if k >= i {
                    lemma_unknown_blocks(p, names, i as int, k);
                }
            }
            return false;
        }
        proof {
            lemma_all_known_extend(p, names, i as int);
            lemma_after_excluding_step(names, p, i as int);
        }
        match position_of(&used, d) {
            Some(idx) => {
                proof {
                    assert(views(used@)[idx as int] == p[i as int]);
                    lemma_views_remove(used@, idx as int);
                }
                used.remove(idx);
            },
            None => {
                proof {
                    reveal(exclusion_exhausts);
                    assert(all_known(p.take(i + 1), names) && !after_excluding(
                        names,
                        p.take(i as int),
                    ).contains(p[i as int]));
                }
                return true;
            },
        }
        i = i + 1;
    }
    assert(p.take(p.len() as int) =~= p);
    reveal(exclusion_exhausts);
    assert forall|k: int| 0 <= k < p.len() implies !(all_known(p.take(k + 1), names)
        && !after_excluding(names, p.take(k)).contains(#[trigger] p[k])) by {}
    false
}

/// The detectors of `detectors_names` without those named in `excluded`
/// (each name removes its first remaining occurrence), provided that every
/// excluded one is among `detectors_names`; otherwise the error names the
/// first one that is not.
pub fn get_excluded_detectors(excluded: String, detectors_names: Vec<String>) -> (r: Result<
    Vec<String>,
    DetectorError,
>)
    requires
        !exclusion_exhausts(views(detectors_names@), parsed_detectors(excluded@)),
    ensures
        excluded_outcome(excluded@, views(detectors_names@), r),
{
    let parsed = get_parsed_detectors(excluded);
    let ghost p = views(parsed@);
    let ghost names = views(detectors_names@);
    let mut used = detectors_names.clone();
    let mut i: usize = 0;
    while i < parsed.len()
        invariant
            0 <= i <= parsed@.len(),
            p == views(parsed@),
            p == parsed_detectors(excluded@),
            names == views(detectors_names@),
            !exclusion_exhausts(names, p),
            all_known(p.take(i as int), names),
            views(used@) == after_excluding(names, p.take(i as int)),
        decreases parsed@.len() - i,
    {
        let d = &parsed[i];
        assert(p[i as int] == d@);
        if !contains_name(&detectors_names, d) {
            assert(first_unknown_at(p, names, i as int));
            let e = DetectorError::NotFound(d.clone());
            assert(e.name() == p[i as int]);
            return Err(e);
        }
        proof {
            lemma_all_known_extend(p, names, i as int);
            lemma_after_excluding_step(names, p, i as int);
        }
        match position_of(&used, d) {
            Some(idx) => {
                proof {
                    lemma_views_remove(used@, idx as int);
                }
                used.remove(idx);
            },
            None => {
                proof {
                    reveal(exclusion_exhausts);
                    assert(!after_excluding(names, p.take(i as int)).contains(p[i as int]));
                    assert(all_known(p.take(i + 1), names));
                }
                assert(false);
            },
        }
        i = i + 1;
    }
    assert(p.take(p.len() as int) =~= p);
    Ok(used)
}

/// `get_excluded_detectors`, or `None` where excluding would run out of a
/// name (a list that names an available detector more often than it is
/// available).
pub fn get_excluded_detectors_checked(excluded: String, detectors_names: Vec<String>) -> (r: Option<
    Result<Vec<String>, DetectorError>,
>)
    ensures
        r is None <==> exclusion_exhausts(views(detectors_names@), parsed_detectors(excluded@)),
        r matches Some(res) ==> excluded_outcome(excluded@, views(detectors_names@), res),
{
    let parsed = get_parsed_detectors(excluded.clone());
    if exclusion_would_exhaust(&parsed, &detectors_names) {
        None
    } else {
        Some(get_excluded_detectors(excluded, detectors_names))
    }
}

/// What filtering `names` by the list `list` gives (see `get_filtered_detectors`).
pub open spec fn filtered_outcome(
    list: Seq<char>,
    names: Seq<Seq<char>>,
    r: Result<Vec<String>, DetectorError>,
) -> bool {
    match r {
        Ok(used) => {
            &&& all_known(parsed_detectors(list), names)
            &&& views(used@) == parsed_detectors(list)
        },
        Err(e) => exists|k: int|
            first_unknown_at(parsed_detectors(list), names, k) && e.name()
                == #[trigger] parsed_detectors(list)[k],
    }
}

/// What excluding the list `list` from `names` gives (see
/// `get_excluded_detectors`).
pub open spec fn excluded_outcome(
    list: Seq<char>,
    names: Seq<Seq<char>>,
    r: Result<Vec<String>, DetectorError>,
) -> bool {
    match r {
        Ok(used) => {
            &&& all_known(parsed_detectors(list), names)
            &&& views(used@) == after_excluding(names, parsed_detectors(list))
        },
        Err(e) => exists|k: int|
            first_unknown_at(parsed_detectors(list), names, k) && e.name()
                == #[trigger] parsed_detectors(list)[k],
    }
}

/// What choosing among `names` by `filter` or else `exclude` gives (see
/// `get_used_detectors`).
pub open spec fn used_outcome(
    filter: Option<String>,
    exclude: Option<String>,
    names: Seq<String>,
    r: Result<Vec<String>, DetectorError>,
) -> bool {
    match filter {
        Some(f) => filtered_outcome(f@, views(names), r),
        None => match exclude {
            Some(x) => excluded_outcome(x@, views(names), r),
            None => r matches Ok(used) && used@ == names,
        },
    }
}

/// Whether the exclusion list (used only when there is no filter) would run
/// out of a name.
pub open spec fn used_exhausts(filter: Option<String>, exclude: Option<String>, names: Seq<String>) -> bool {
    match filter {
        Some(_) => false,
        None => match exclude {
            Some(x) => exclusion_exhausts(views(names), parsed_detectors(x@)),
            None => false,
        },
    }
}

/// The detectors to run: those named by `filter` when it is given, else all
/// but those named by `exclude` when it is given, else all of them.
pub fn get_used_detectors(
    filter: Option<String>,
    exclude: Option<String>,
    detectors_names: Vec<String>,
) -> (r: Result<Vec<String>, DetectorError>)
    requires
        !used_exhausts(filter, exclude, detectors_names@),
    ensures
        used_outcome(filter, exclude, detectors_names@, r),
{
    match filter {
        Some(f) => get_filtered_detectors(f, detectors_names),
        None => match exclude {
            Some(x) => get_excluded_detectors(x, detectors_names),
            None => Ok(detectors_names),
        },
    }
}

/// `get_used_detectors`, or `None` where excluding would run out of a name.
pub fn get_used_detectors_checked(
    filter: Option<String>,
    exclude: Option<String>,
    detectors_names: Vec<String>,
) -> (r: Option<Result<Vec<String>, DetectorError>>)
    ensures
        r is None <==> used_exhausts(filter, exclude, detectors_names@),
        r matches Some(res) ==> used_outcome(filter, exclude, detectors_names@, res),
{
    if filter.is_none() {
        if let Some(x) = &exclude {
            let parsed = get_parsed_detectors(x.clone());
            if exclusion_would_exhaust(&parsed, &detectors_names) {
                return None;
            }
        }
    }
    Some(get_used_detectors(filter, exclude, detectors_names))
}

// ---------------------------------------------------------------------
// Laws
// ---------------------------------------------------------------------

/// Law: a filter selects only available detectors, each as the list names
/// it, in the list's order.
pub proof fn lemma_filtered_are_available(list: Seq<char>, names: Seq<Seq<char>>, used: Vec<String>)
    requires
        filtered_outcome(list, names, Ok(used)),
    ensures
        forall|k: int| 0 <= k < used@.len() ==> names.contains(#[trigger] used@[k]@),
        views(used@) == parsed_detectors(list),
{
    assert forall|k: int| 0 <= k < used@.len() implies names.contains(#[trigger] used@[k]@) by {
        assert(views(used@)[k] == used@[k]@);
        assert(parsed_detectors(list)[k] == used@[k]@);
    }
}

proof fn lemma_remove_first_subset(s: Seq<Seq<char>>, x: Seq<char>)
    ensures
        forall|y: Seq<char>| remove_first(s, x).contains(y) ==> s.contains(y),
    decreases s.len(),
{
    if s.len() > 0 && s[0] != x {
        lemma_remove_first_subset(s.drop_first(), x);
    }
    assert forall|y: Seq<char>| remove_first(s, x).contains(y) implies s.contains(y) by {
        let r = remove_first(s, x);
        let i = first_index(s, x);
        let j = choose|j: int| 0 <= j < r.len() && r[j] == y;
        lemma_first_index_range(s, x);
        if i < s.len() {
            if j < i {
                assert(r[j] == s[j]);
            } else {
                assert(r[j] == s[j + 1]);
            }
        }
    }
}

proof fn lemma_first_index_range(s: Seq<Seq<char>>, x: Seq<char>)
    ensures
        0 <= first_index(s, x) <= s.len(),
    decreases s.len(),
{
    if s.len() > 0 && s[0] != x {
        lemma_first_index_range(s.drop_first(), x);
    }
}

/// Law: excluding detectors leaves only available detectors.
pub proof fn lemma_excluded_leave_available(names: Seq<Seq<char>>, parsed: Seq<Seq<char>>)
    ensures
        forall|y: Seq<char>| after_excluding(names, parsed).contains(y) ==> names.contains(y),
    decreases parsed.len(),
{
    if parsed.len() > 0 {
        lemma_excluded_leave_available(names, parsed.drop_last());
        lemma_remove_first_subset(after_excluding(names, parsed.drop_last()), parsed.last());
    }
}

} // verus!
