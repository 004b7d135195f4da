//! The lazy-mut-get-not-set detector.
//!
//! A mutable copy of a storage field read with `self.field.get()` changes
//! nothing in storage until it is written back with `self.field.set(..)`.
//! The detector records, per field, the last `get` and the last `set` seen
//! in a function body, and reports the `get`s of fields that were never
//! `set`. The compiler's walk visits the statements of the body; the
//! detector decides which expressions it looks into.
use vstd::prelude::*;
use crate::mir::Span;
use crate::hir::{Expr, ExprKind, QPath, Stmt, PathSegment};
use crate::text::{text_eq, views};

verus! {

/// The names along a chain of method calls and field accesses, from the
/// path at its root: `self.a.b()` gives `self`, `a`, `b`.
pub open spec fn chain_names(e: Expr) -> Seq<Seq<char>>
    decreases e,
{
    match e.kind {
        ExprKind::MethodCall { name, receiver, .. } => chain_names(*receiver).push(name@),
        ExprKind::Field(base, name) => chain_names(*base).push(name@),
        ExprKind::Path(QPath::Resolved { segments, .. }) => segments@.map_values(
            |s: PathSegment| s.name@,
        ),
        _ => Seq::empty(),
    }
}

/// The names of the method path of `e` (`get_method_path_names`): the chain
/// names when `e` is a method call or a field access, nothing otherwise.
pub open spec fn method_path_names(e: Expr) -> Seq<Seq<char>> {
    match e.kind {
        ExprKind::MethodCall { .. } => chain_names(e),
        ExprKind::Field(..) => chain_names(e),
        _ => Seq::empty(),
    }
}

fn chain_names_exec(e: &Expr) -> (r: Vec<String>)
    ensures
        views(r@) == chain_names(*e),
    decreases e,
{
    match &e.kind {
        ExprKind::MethodCall { name, receiver, .. } => {
            let mut r = chain_names_exec(receiver);
            r.push(name.clone());
            assert(views(r@) =~= chain_names(*e));
            r
        },
        ExprKind::Field(base, name) => {
            let mut r = chain_names_exec(base);
            r.push(name.clone());
            assert(views(r@) =~= chain_names(*e));
            r
        },
        ExprKind::Path(QPath::Resolved { segments, .. }) => {
            let mut r: Vec<String> = Vec::new();
            let mut i: usize = 0;
            while i < segments.len()
                invariant
                    0 <= i <= segments@.len(),
                    views(r@) == segments@.take(i as int).map_values(|s: PathSegment| s.name@),
                decreases segments@.len() - i,
            {
                let ghost prev = r@;
                let n = segments[i].name.clone();
                r.push(n);
                assert(r@.drop_last() =~= prev);
                assert(views(r@) =~= views(prev).push(segments@[i as int].name@));
                assert(segments@.take(i + 1) =~= segments@.take(i as int).push(segments@[i as int]));
                i = i + 1;
                assert(views(r@) =~= segments@.take(i as int).map_values(|s: PathSegment| s.name@));
            }
            assert(segments@.take(segments@.len() as int) =~= segments@);
            r
        },
        _ => {
            let r: Vec<String> = Vec::new();
            assert(views(r@) =~= Seq::<Seq<char>>::empty());
            r
        },
    }
}

/// The names of the method path of `e`.
pub fn get_method_path_names(e: &Expr) -> (r: Vec<String>)
    ensures
        views(r@) == method_path_names(*e),
{
    match &e.kind {
        ExprKind::MethodCall { .. } => chain_names_exec(e),
        ExprKind::Field(..) => chain_names_exec(e),
        _ => {
            let r: Vec<String> = Vec::new();
            assert(views(r@) =~= Seq::<Seq<char>>::empty());
            r
        },
    }
}

// ---------------------------------------------------------------------
// Maps from names to spans, kept as lists of entries with distinct names
// ---------------------------------------------------------------------

/// The map that a list of `(name, span)` entries stands for.
pub open spec fn name_map(v: Seq<(String, Span)>) -> Map<Seq<char>, Span>
    decreases v.len(),
{
    if v.len() == 0 {
        Map::empty()
    } else {
        name_map(v.drop_last()).insert(v.last().0@, v.last().1)
    }
}

/// No two entries have the same name.
pub open spec fn names_distinct(v: Seq<(String, Span)>) -> bool {
    forall|i: int, j: int| 0 <= i < j < v.len() ==> v[i].0@ != v[j].0@
}

/// Whether the map of `v` has `k`.
fn name_map_has(v: &Vec<(String, Span)>, k: &String) -> (b: bool)
    ensures
        b == name_map(v@).contains_key(k@),
{
    let mut i: usize = v.len();
    assert(v@.take(i as int) =~= v@);
    while i > 0
        invariant
            0 <= i <= v@.len(),
            name_map(v@).contains_key(k@) == name_map(v@.take(i as int)).contains_key(k@),
        decreases i,
    {
        assert(v@.take(i as int).drop_last() =~= v@.take(i - 1));
        if v[i - 1].0 == *k {
            return true;
        }
        i = i - 1;
    }
    false
}

/// The entries of `v` without the one named `k`.
fn name_map_remove(v: &Vec<(String, Span)>, k: &String) -> (r: Vec<(String, Span)>)
    requires
        names_distinct(v@),
    ensures
        name_map(r@) == name_map(v@).remove(k@),
        names_distinct(r@),
{
    let mut r: Vec<(String, Span)> = Vec::new();
    let mut j: usize = 0;
    assert(name_map(r@) =~= name_map(v@.take(0)).remove(k@));
    while j < v.len()
        invariant
            0 <= j <= v@.len(),
            names_distinct(v@),
            name_map(r@) == name_map(v@.take(j as int)).remove(k@),
            names_distinct(r@),
            forall|i: int|
                0 <= i < r@.len() ==> exists|t: int| 0 <= t < j && (#[trigger] r@[i]).0@ == v@[t].0@,
        decreases v@.len() - j,
    {
        assert(v@.take(j + 1).drop_last() =~= v@.take(j as int));
        let ghost prev = r@;
        if v[j].0 != *k {
            let e = (v[j].0.clone(), v[j].1);
            r.push(e);
            assert(r@.drop_last() =~= prev);
            assert forall|a: int, b: int| 0 <= a < b < r@.len() implies r@[a].0@ != r@[b].0@ by {
                if b == r@.len() - 1 {
                    assert(r@[a] == prev[a]);
                    let t = choose|t: int| 0 <= t < j && prev[a].0@ == v@[t].0@;
                }
            }
            assert forall|i: int|
                0 <= i < r@.len() implies exists|t: int|
                0 <= t < j + 1 && (#[trigger] r@[i]).0@ == v@[t].0@ by {
                if i < r@.len() - 1 {
                    assert(r@[i] == prev[i]);
                    let t = choose|t: int| 0 <= t < j && prev[i].0@ == v@[t].0@;
                    assert(0 <= t < j + 1 && r@[i].0@ == v@[t].0@);
                } else {
                    assert(r@[i].0@ == v@[j as int].0@);
                }
            }
            assert(name_map(r@) =~= name_map(v@.take(j + 1)).remove(k@));
        } else {
            assert(name_map(r@) =~= name_map(v@.take(j + 1)).remove(k@));
        }
        j = j + 1;
    }
    assert(v@.take(v@.len() as int) =~= v@);
    r
}

/// Sets the span of name `k` in the map of `v`.
fn name_map_insert(v: &mut Vec<(String, Span)>, k: String, s: Span)
    requires
        names_distinct(old(v)@),
    ensures
        name_map(final(v)@) == name_map(old(v)@).insert(k@, s),
        names_distinct(final(v)@),
{
    let mut r = name_map_remove(v, &k);
    let ghost before = r@;
    proof {
        assert(!name_map(before).contains_key(k@));
        assert forall|i: int| 0 <= i < before.len() implies before[i].0@ != k@ by {
            lemma_name_map_has_entries(before, i);
        }
    }
    r.push((k, s));
    assert(r@.drop_last() =~= before);
    assert(name_map(r@) =~= name_map(old(v)@).insert(k@, s));
    *v = r;
}

proof fn lemma_name_map_has_entries(v: Seq<(String, Span)>, i: int)
    requires
        0 <= i < v.len(),
    ensures
        name_map(v).contains_key(v[i].0@),
    decreases v.len(),
{
    if i < v.len() - 1 {
        lemma_name_map_has_entries(v.drop_last(), i);
        assert(v.drop_last()[i] == v[i]);
    }
}

// ---------------------------------------------------------------------
// The detector
// ---------------------------------------------------------------------

/// Whether `names` is `self.<field>.<method>` for a known field.
pub open spec fn self_field_call(names: Seq<Seq<char>>, fields: Map<Seq<char>, Span>, method: Seq<char>) -> bool {
    names.len() > 2 && names[0] == "self"@ && fields.contains_key(names[1]) && names[2] == method
}

/// The expression that visiting a statement looks into: the initializer of
/// a `let mut`, or the expression of an expression statement.
pub open spec fn stmt_target(s: Stmt) -> Option<Expr> {
    match s {
        Stmt::Local { mutable, init } => if mutable {
            init
        } else {
            None
        },
        Stmt::Semi(e) => Some(e),
        Stmt::Expr(e) => Some(e),
        _ => None,
    }
}

/// The expression that visiting a statement looks into.
pub fn stmt_target_of(s: &Stmt) -> (r: Option<&Expr>)
    ensures
        match r {
            Some(e) => stmt_target(*s) == Some(*e),
            None => stmt_target(*s) is None,
        },
{
    match s {
        Stmt::Local { mutable, init } => if *mutable {
            match init {
                Some(e) => Some(e),
                None => None,
            }
        } else {
            None
        },
        Stmt::Semi(e) => Some(e),
        Stmt::Expr(e) => Some(e),
        _ => None,
    }
}

/// The detector, with the struct fields it has seen.
pub struct LazyMutGetNotSet {
    pub lazy_fields: Vec<(String, Span)>,
}

/// The state of the walk of a function body: the last `get` and the last
/// `set` of each field.
pub struct LazyMutGetNotSetVisitor {
    pub get_span: Vec<(String, Span)>,
    pub set_span: Vec<(String, Span)>,
}

impl LazyMutGetNotSetVisitor {
    /// The visitor's entries are well formed.
    pub open spec fn wf(&self) -> bool {
        names_distinct(self.get_span@) && names_distinct(self.set_span@)
    }

    /// Nothing seen yet.
    pub fn new() -> (r: Self)
        ensures
            r.wf(),
            name_map(r.get_span@) == Map::<Seq<char>, Span>::empty(),
            name_map(r.set_span@) == Map::<Seq<char>, Span>::empty(),
    {
        LazyMutGetNotSetVisitor { get_span: Vec::new(), set_span: Vec::new() }
    }

    /// Whether `methods` is `self.<field>.get` for a field of `fields`.
    pub fn method_is_self_lazy_field_get(&self, fields: &Vec<(String, Span)>, methods: &Vec<String>) -> (b: bool)
        ensures
            b == self_field_call(views(methods@), name_map(fields@), "get"@),
    {
        methods.len() > 2 && text_eq(methods[0].as_str(), "self") && name_map_has(fields, &methods[1])
            && text_eq(methods[2].as_str(), "get")
    }

    /// Whether `methods` is `self.<field>.set` for a field of `fields`.
    pub fn method_is_self_lazy_field_set(&self, fields: &Vec<(String, Span)>, methods: &Vec<String>) -> (b: bool)
        ensures
            b == self_field_call(views(methods@), name_map(fields@), "set"@),
    {
        methods.len() > 2 && text_eq(methods[0].as_str(), "self") && name_map_has(fields, &methods[1])
            && text_eq(methods[2].as_str(), "set")
    }

    /// Visits `e`, given the struct fields `fields`: a `self.<field>.get(..)`
    /// or `.set(..)` records its span for the field; any other method call or
    /// field access is walked into (the result is true); anything else is
    /// not looked into.
    pub fn visit_expr(&mut self, fields: &Vec<(String, Span)>, e: &Expr) -> (walk: bool)
        requires
            old(self).wf(),
        ensures
            final(self).wf(),
            ({
                let names = method_path_names(*e);
                let fm = name_map(fields@);
                if names.len() == 0 {
                    !walk && name_map(final(self).get_span@) == name_map(old(self).get_span@)
                        && name_map(final(self).set_span@) == name_map(old(self).set_span@)
                } else if self_field_call(names, fm, "get"@) {
                    !walk && name_map(final(self).get_span@) == name_map(old(self).get_span@).insert(
                        names[1],
                        e.span,
                    ) && name_map(final(self).set_span@) == name_map(old(self).set_span@)
                } else if self_field_call(names, fm, "set"@) {
                    !walk && name_map(final(self).get_span@) == name_map(old(self).get_span@)
                        && name_map(final(self).set_span@) == name_map(old(self).set_span@).insert(
                        names[1],
                        e.span,
                    )
                } else {
                    walk && name_map(final(self).get_span@) == name_map(old(self).get_span@)
                        && name_map(final(self).set_span@) == name_map(old(self).set_span@)
                }
            }),
    {
        let methods = get_method_path_names(e);
        if methods.len() == 0 {
            return false;
        }
        if self.method_is_self_lazy_field_get(fields, &methods) {
            let key = methods[1].clone();
            name_map_insert(&mut self.get_span, key, e.span);
            return false;
        }
        if self.method_is_self_lazy_field_set(fields, &methods) {
            let key = methods[1].clone();
            name_map_insert(&mut self.set_span, key, e.span);
            return false;
        }
        true
    }

    /// The `get`s of fields that were never `set`, each with its span.
    pub fn unset_gets(&self) -> (r: Vec<(String, Span)>)
        requires
            self.wf(),
        ensures
            names_distinct(r@),
            name_map(r@) == name_map(self.get_span@).remove_keys(
                name_map(self.set_span@).dom(),
            ),
    {
        let mut r: Vec<(String, Span)> = Vec::new();
        let ghost setk = name_map(self.set_span@).dom();
        let mut i: usize = 0;
        assert(name_map(r@) =~= name_map(self.get_span@.take(0)).remove_keys(setk));
        while i < self.get_span.len()
            invariant
                0 <= i <= self.get_span@.len(),
                self.wf(),
                setk == name_map(self.set_span@).dom(),
                names_distinct(r@),
                name_map(r@) == name_map(self.get_span@.take(i as int)).remove_keys(setk),
                forall|a: int|
                    0 <= a < r@.len() ==> exists|t: int|
                        0 <= t < i && (#[trigger] r@[a]).0@ == self.get_span@[t].0@,
            decreases self.get_span@.len() - i,
        {
            assert(self.get_span@.take(i + 1).drop_last() =~= self.get_span@.take(i as int));
            let ghost prev = r@;
            let key = &self.get_span[i].0;
            if !name_map_has(&self.set_span, key) {
                r.push((key.clone(), self.get_span[i].1));
                assert(r@.drop_last() =~= prev);
                assert forall|a: int, b: int| 0 <= a < b < r@.len() implies r@[a].0@ != r@[b].0@ by {
                    if b == r@.len() - 1 {
                        assert(r@[a] == prev[a]);
                        let t = choose|t: int| 0 <= t < i && prev[a].0@ == self.get_span@[t].0@;
                    }
                }
                assert forall|a: int|
                    0 <= a < r@.len() implies exists|t: int|
                    0 <= t < i + 1 && (#[trigger] r@[a]).0@ == self.get_span@[t].0@ by {
                    if a < r@.len() - 1 {
                        assert(r@[a] == prev[a]);
                        let t = choose|t: int| 0 <= t < i && prev[a].0@ == self.get_span@[t].0@;
                        assert(0 <= t < i + 1 && r@[a].0@ == self.get_span@[t].0@);
                    } else {
                        assert(r@[a].0@ == self.get_span@[i as int].0@);
                    }
                }
            }
            assert(name_map(r@) =~= name_map(self.get_span@.take(i + 1)).remove_keys(setk));
            i = i + 1;
        }
        assert(self.get_span@.take(self.get_span@.len() as int) =~= self.get_span@);
        r
    }
}

impl LazyMutGetNotSet {
    /// The detector, before any field was seen.
    pub fn new() -> (r: Self)
        ensures
            names_distinct(r.lazy_fields@),
            name_map(r.lazy_fields@) == Map::<Seq<char>, Span>::empty(),
    {
        LazyMutGetNotSet { lazy_fields: Vec::new() }
    }

    /// A struct field definition: its name is recorded with its span.
    pub fn check_field_def(&mut self, name: String, span: Span)
        requires
            names_distinct(old(self).lazy_fields@),
        ensures
            names_distinct(final(self).lazy_fields@),
            name_map(final(self).lazy_fields@) == name_map(old(self).lazy_fields@).insert(
                name@,
                span,
            ),
    {
        name_map_insert(&mut self.lazy_fields, name, span);
    }
}

/// A field read with `get` and set afterwards is not reported.
pub proof fn lemma_set_field_not_reported(get: Map<Seq<char>, Span>, set: Map<Seq<char>, Span>, f: Seq<char>)
    requires
        set.contains_key(f),
    ensures
        !get.remove_keys(set.dom()).contains_key(f),
{
}

} // verus!
