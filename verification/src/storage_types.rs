//! Detectors that read the declared types of a contract's storage fields:
//! buffered storage of unsized values, and lazily stored fields without a
//! manual key in an upgradable contract.
//!
//! A storage item's field of declared type `T` reaches the compiler as
//! `<T as ..>::Type`; the detectors read `T`.
use vstd::prelude::*;
use crate::mir::Span;
use crate::hir::{Expr, ExprKind, QPath, PathSegment, walk_nodes};
use crate::span_probes::walk_node_refs;
use crate::text::{join_with, text_eq, views};

verus! {

/// A generic argument.
#[derive(Debug)]
pub enum GenericArg {
    /// A type written as a path.
    Type(TyPath),
    /// Any other type.
    OtherType,
    /// A lifetime or a constant.
    Other,
}

/// A segment of a type path, with its generic arguments if it has any.
#[derive(Debug)]
pub struct TySegment {
    pub name: String,
    pub args: Option<Vec<GenericArg>>,
}

/// A type path, with the definition path of the type it resolves to (by
/// segment names), when it resolves to a definition.
#[derive(Debug)]
pub struct TyPath {
    pub def_path: Option<Vec<String>>,
    pub segments: Vec<TySegment>,
}

/// A struct field: its name, span, and the declared type `T` when the
/// field's type is `<T as ..>::..` with `T` a plain path.
#[derive(Debug)]
pub struct FieldDef {
    pub name: String,
    pub span: Span,
    pub storage_type: Option<TyPath>,
}

/// The definition path joined with `::`.
pub open spec fn def_path_text(p: Seq<String>) -> Seq<char> {
    join_with(views(p), "::"@)
}

fn def_path_string(p: &Vec<String>) -> (r: String)
    ensures
        r@ == def_path_text(p@),
{
    let mut r = String::new();
    let mut i: usize = 0;
    assert(views(p@).take(0) =~= Seq::<Seq<char>>::empty());
    while i < p.len()
        invariant
            0 <= i <= p@.len(),
            r@ == join_with(views(p@).take(i as int), "::"@),
        decreases p@.len() - i,
    {
        if i > 0 {
            r.append("::");
        }
        r.append(p[i].as_str());
        proof {
            assert(views(p@).take(i + 1).drop_last() =~= views(p@).take(i as int));
            if i == 0 {
                assert(views(p@).take(1) =~= seq![p@[0]@]);
            }
        }
        assert(r@ =~= join_with(views(p@).take(i + 1), "::"@));
        i = i + 1;
    }
    assert(views(p@).take(p@.len() as int) =~= views(p@));
    r
}

/// Whether a type path has a segment named `String` or `Vec`.
pub open spec fn names_unsized(p: TyPath) -> bool {
    exists|k: int|
        0 <= k < p.segments@.len() && ((#[trigger] p.segments@[k]).name@ == "String"@
            || p.segments@[k].name@ == "Vec"@)
}

/// Whether a generic argument is a path type naming `String` or `Vec`.
pub open spec fn unsized_arg(a: GenericArg) -> bool {
    match a {
        GenericArg::Type(p) => names_unsized(p),
        _ => false,
    }
}

/// Whether some generic argument of some segment of `p` is `String` or
/// `Vec`.
pub open spec fn has_unsized_arg(p: TyPath) -> bool {
    exists|k: int, j: int|
        #![trigger p.segments@[k].args->0@[j]]
        0 <= k < p.segments@.len() && p.segments@[k].args is Some && 0 <= j
            < p.segments@[k].args->0@.len() && unsized_arg(p.segments@[k].args->0@[j])
}

/// The definition path of a field's storage type that has an unsized
/// generic argument (`is_lazy_type_with_unsized_generic_arg`).
pub open spec fn lazy_unsized_def_path(f: FieldDef) -> Option<Seq<char>> {
    match f.storage_type {
        Some(p) => match p.def_path {
            Some(d) => if has_unsized_arg(p) && d@.len() > 0 {
                Some(def_path_text(d@))
            } else {
                None
            },
            None => None,
        },
        None => None,
    }
}

fn segment_names_unsized(segments: &Vec<TySegment>) -> (b: bool)
    ensures
        b == exists|k: int|
            0 <= k < segments@.len() && ((#[trigger] segments@[k]).name@ == "String"@
                || segments@[k].name@ == "Vec"@),
{
    let mut k: usize = 0;
    while k < segments.len()
        invariant
            0 <= k <= segments@.len(),
            forall|j: int|
                0 <= j < k ==> !((#[trigger] segments@[j]).name@ == "String"@ || segments@[j].name@
                    == "Vec"@),
        decreases segments@.len() - k,
    {
        if text_eq(segments[k].name.as_str(), "String") || text_eq(segments[k].name.as_str(), "Vec") {
            return true;
        }
        k = k + 1;
    }
    false
}

fn args_unsized(args: &Vec<GenericArg>) -> (b: bool)
    ensures
        b == exists|j: int| 0 <= j < args@.len() && unsized_arg(#[trigger] args@[j]),
{
    let mut j: usize = 0;
    while j < args.len()
        invariant
            0 <= j <= args@.len(),
            forall|t: int| 0 <= t < j ==> !unsized_arg(#[trigger] args@[t]),
        decreases args@.len() - j,
    {
        let hit = match &args[j] {
            GenericArg::Type(p) => segment_names_unsized(&p.segments),
            _ => false,
        };
        if hit {
            return true;
        }
        j = j + 1;
    }
    false
}

fn has_unsized_arg_exec(p: &TyPath) -> (b: bool)
    ensures
        b == has_unsized_arg(*p),
{
    let mut k: usize = 0;
    while k < p.segments.len()
        invariant
            0 <= k <= p.segments@.len(),
            forall|a: int, j: int|
                #![trigger p.segments@[a].args->0@[j]]
                0 <= a < k && p.segments@[a].args is Some && 0 <= j < p.segments@[a].args->0@.len()
                    ==> !unsized_arg(p.segments@[a].args->0@[j]),
        decreases p.segments@.len() - k,
    {
        if let Some(args) = &p.segments[k].args {
            if args_unsized(args) {
                let ghost j = choose|j: int| 0 <= j < args@.len() && unsized_arg(#[trigger] args@[j]);
                assert(unsized_arg(p.segments@[k as int].args->0@[j]));
                return true;
            }
        }
        k = k + 1;
    }
    false
}

/// The definition path of the field's storage type, when that type has an
/// unsized generic argument.
pub fn is_lazy_type_with_unsized_generic_arg(f: &FieldDef) -> (r: Option<String>)
    ensures
        match lazy_unsized_def_path(*f) {
            Some(t) => r matches Some(s) && s@ == t,
            None => r is None,
        },
{
    if let Some(p) = &f.storage_type {
        if let Some(d) = &p.def_path {
            if has_unsized_arg_exec(p) && d.len() > 0 {
                return Some(def_path_string(d));
            }
        }
    }
    None
}

/// Whether a definition path is buffered storage (`Mapping` or
/// `StorageVec` of `ink_storage`).
pub open spec fn is_buffered_storage_path(t: Seq<char>) -> bool {
    t == "ink_storage::lazy::mapping::Mapping"@ || t == "ink_storage::lazy::vec::StorageVec"@
}

/// The storage methods that buffer their value.
pub open spec fn wanted_method(m: Seq<char>) -> bool {
    m == "insert"@ || m == "pop"@ || m == "push"@ || m == "set"@ || m == "peek"@ || m == "get"@
}

/// Whether `method` is one of the storage methods that buffer their value.
pub fn method_is_wanted(method: &str) -> (b: bool)
    ensures
        b == wanted_method(method@),
{
    text_eq(method, "insert") || text_eq(method, "pop") || text_eq(method, "push") || text_eq(
        method,
        "set",
    ) || text_eq(method, "peek") || text_eq(method, "get")
}

/// Whether some segment of a path is `self`.
pub open spec fn has_self_segment(segments: Seq<PathSegment>) -> bool {
    exists|k: int| 0 <= k < segments.len() && (#[trigger] segments[k]).name@ == "self"@
}

fn has_self_segment_exec(segments: &Vec<PathSegment>) -> (b: bool)
    ensures
        b == has_self_segment(segments@),
{
    let mut k: usize = 0;
    while k < segments.len()
        invariant
            0 <= k <= segments@.len(),
            forall|j: int| 0 <= j < k ==> (#[trigger] segments@[j]).name@ != "self"@,
        decreases segments@.len() - k,
    {
        if text_eq(segments[k].name.as_str(), "self") {
            return true;
        }
        k = k + 1;
    }
    false
}

/// A warning of the buffering detector: where, the method and field named,
/// and the span of the field's definition.
#[derive(Debug)]
pub struct BufferingLint {
    pub span: Span,
    pub method: String,
    pub field: String,
    pub field_span: Span,
}

/// The method and field of `e` when it is `self.<field>.<method>(..)` with a
/// buffering method.
pub open spec fn buffered_call(e: Expr) -> Option<(Seq<char>, Seq<char>)> {
    match e.kind {
        ExprKind::MethodCall { name, receiver, .. } => if wanted_method(name@) {
            match receiver.kind {
                ExprKind::Field(base, fname) => match base.kind {
                    ExprKind::Path(QPath::Resolved { segments, .. }) => if has_self_segment(
                        segments@,
                    ) {
                        Some((name@, fname@))
                    } else {
                        None
                    },
                    _ => None,
                },
                _ => None,
            }
        } else {
            None
        },
        _ => None,
    }
}

fn buffered_call_exec(e: &Expr) -> (r: Option<(String, String)>)
    ensures
        match buffered_call(*e) {
            Some((m, f)) => r matches Some((rm, rf)) && rm@ == m && rf@ == f,
            None => r is None,
        },
{
    if let ExprKind::MethodCall { name, receiver, .. } = &e.kind {
        if method_is_wanted(name.as_str()) {
            if let ExprKind::Field(base, fname) = &receiver.kind {
                if let ExprKind::Path(QPath::Resolved { segments, .. }) = &base.kind {
                    if has_self_segment_exec(segments) {
                        return Some((name.clone(), fname.clone()));
                    }
                }
            }
        }
    }
    None
}

/// The field map of the buffering detector, as a map from names to spans
/// (a later entry replaces an earlier one).
pub open spec fn field_map(v: Seq<(String, Span)>) -> Map<Seq<char>, Span>
    decreases v.len(),
{
    if v.len() == 0 {
        Map::empty()
    } else {
        field_map(v.drop_last()).insert(v.last().0@, v.last().1)
    }
}

fn field_lookup(v: &Vec<(String, Span)>, k: &String) -> (r: Option<Span>)
    ensures
        match r {
            Some(s) => field_map(v@).contains_key(k@) && field_map(v@)[k@] == s,
            None => !field_map(v@).contains_key(k@),
        },
{
    let mut i: usize = v.len();
    assert(v@.take(i as int) =~= v@);
    while i > 0
        invariant
            0 <= i <= v@.len(),
            field_map(v@).contains_key(k@) == field_map(v@.take(i as int)).contains_key(k@),
            field_map(v@).contains_key(k@) ==> field_map(v@)[k@] == field_map(v@.take(i as int))[k@],
        decreases i,
    {
        assert(v@.take(i as int).drop_last() =~= v@.take(i - 1));
        if v[i - 1].0 == *k {
            return Some(v[i - 1].1);
        }
        i = i - 1;
    }
    None
}

/// The warnings that the buffering detector gives for the expressions
/// `nodes`, given its field map.
pub open spec fn buffering_lints(nodes: Seq<Expr>, fields: Map<Seq<char>, Span>) -> Seq<(Span, Seq<char>, Seq<char>, Span)>
    decreases nodes.len(),
{
    if nodes.len() == 0 {
        Seq::empty()
    } else {
        let e = nodes.last();
        buffering_lints(nodes.drop_last(), fields) + match buffered_call(e) {
            Some((m, f)) => if fields.contains_key(f) {
                seq![(e.span, m, f, fields[f])]
            } else {
                Seq::empty()
            },
            None => Seq::empty(),
        }
    }
}

/// The view of a buffering warning.
pub open spec fn lint_view(l: BufferingLint) -> (Span, Seq<char>, Seq<char>, Span) {
    (l.span, l.method@, l.field@, l.field_span)
}

/// The buffering-unsized-types detector: the storage fields of buffered
/// storage type with an unsized value, by name.
pub struct BufferingUnsizedTypes {
    pub mapping_fields: Vec<(String, Span)>,
}

impl BufferingUnsizedTypes {
    /// The detector, before any field was seen.
    pub fn new() -> (r: Self)
        ensures
            field_map(r.mapping_fields@) == Map::<Seq<char>, Span>::empty(),
    {
        BufferingUnsizedTypes { mapping_fields: Vec::new() }
    }

    /// Whether a field is buffered storage of an unsized value.
    pub fn is_lazy_storage(&self, f: &FieldDef) -> (b: bool)
        ensures
            b == (lazy_unsized_def_path(*f) matches Some(t) && is_buffered_storage_path(t)),
    {
        match is_lazy_type_with_unsized_generic_arg(f) {
            Some(t) => text_eq(t.as_str(), "ink_storage::lazy::mapping::Mapping") || text_eq(
                t.as_str(),
                "ink_storage::lazy::vec::StorageVec",
            ),
            None => false,
        }
    }

    /// A struct field definition: buffered storage of an unsized value is
    /// recorded with its span.
    pub fn check_field_def(&mut self, f: &FieldDef)
        ensures
            field_map(final(self).mapping_fields@) == if lazy_unsized_def_path(*f) matches Some(t)
                && is_buffered_storage_path(t) {
                field_map(old(self).mapping_fields@).insert(f.name@, f.span)
            } else {
                field_map(old(self).mapping_fields@)
            },
    {
        if self.is_lazy_storage(f) {
            let ghost before = self.mapping_fields@;
            self.mapping_fields.push((f.name.clone(), f.span));
            assert(self.mapping_fields@.drop_last() =~= before);
        }
    }

    /// The warnings for a function body: each buffering call on a recorded
    /// field, in walk order.
    pub fn check_fn(&self, body: &Expr) -> (r: Vec<BufferingLint>)
        ensures
            r@.map_values(|l: BufferingLint| lint_view(l)) == buffering_lints(
                walk_nodes(*body),
                field_map(self.mapping_fields@),
            ),
    {
        let nodes = walk_node_refs(body);
        let ghost ns = walk_nodes(*body);
        let ghost fm = field_map(self.mapping_fields@);
        let mut r: Vec<BufferingLint> = Vec::new();
        let mut i: usize = 0;
        assert(ns.take(0) =~= Seq::<Expr>::empty());
        while i < nodes.len()
            invariant
                0 <= i <= nodes@.len(),
                nodes@.len() == ns.len(),
                forall|k: int| 0 <= k < nodes@.len() ==> *nodes@[k] == ns[k],
                fm == field_map(self.mapping_fields@),
                r@.map_values(|l: BufferingLint| lint_view(l)) == buffering_lints(ns.take(i as int), fm),
            decreases nodes@.len() - i,
        {
            let e: &Expr = nodes[i];
            assert(ns.take(i + 1).drop_last() =~= ns.take(i as int));
            assert(ns.take(i + 1).last() == *e);
            let ghost prev = r@;
            if let Some((m, f)) = buffered_call_exec(e) {
                if let Some(fs) = field_lookup(&self.mapping_fields, &f) {
                    r.push(BufferingLint { span: e.span, method: m, field: f, field_span: fs });
                    assert(r@.drop_last() =~= prev);
                }
            }
            assert(r@.map_values(|l: BufferingLint| lint_view(l)) =~= buffering_lints(
                ns.take(i + 1),
                fm,
            ));
            i = i + 1;
        }
        assert(ns.take(ns.len() as int) =~= ns);
        r
    }
}

/// The lint message of the buffering detector for method `m`.
pub open spec fn buffering_message(m: Seq<char>) -> Seq<char> {
    "Do not use `"@ + m + "` with an unsized type. Use the `try_"@ + m + "` method instead."@
}

/// The help of the buffering detector for field `f`.
pub open spec fn buffering_help(f: Seq<char>) -> Seq<char> {
    "The variable `"@ + f + "` is a storage type with a dinamically sized value."@
}

impl BufferingLint {
    /// The warning's message.
    pub fn message(&self) -> (r: String)
        ensures
            r@ == buffering_message(self.method@),
    {
        let mut r = String::from_str("Do not use `");
        r.append(self.method.as_str());
        r.append("` with an unsized type. Use the `try_");
        r.append(self.method.as_str());
        r.append("` method instead.");
        r
    }

    /// The warning's help.
    pub fn help(&self) -> (r: String)
        ensures
            r@ == buffering_help(self.field@),
    {
        let mut r = String::from_str("The variable `");
        r.append(self.field.as_str());
        r.append("` is a storage type with a dinamically sized value.");
        r
    }
}

// ---------------------------------------------------------------------
// Lazy fields without a manual key
// ---------------------------------------------------------------------

/// Whether a definition path is lazy storage (`Lazy`, `Mapping` or
/// `StorageVec` of `ink_storage`).
pub open spec fn lazy_type_spec(t: Seq<char>) -> bool {
    t == "ink_storage::lazy::Lazy"@ || t == "ink_storage::lazy::mapping::Mapping"@ || t
        == "ink_storage::lazy::vec::StorageVec"@
}

/// Whether a definition path is lazy storage.
pub fn is_lazy_type(def_path: &String) -> (b: bool)
    ensures
        b == lazy_type_spec(def_path@),
{
    text_eq(def_path.as_str(), "ink_storage::lazy::Lazy") || text_eq(
        def_path.as_str(),
        "ink_storage::lazy::mapping::Mapping",
    ) || text_eq(def_path.as_str(), "ink_storage::lazy::vec::StorageVec")
}

/// The last generic argument of the first segment of `p`, when it is a
/// path type.
pub open spec fn last_type_arg(p: TyPath) -> Option<TyPath> {
    if p.segments@.len() > 0 {
        match p.segments@[0].args {
            Some(args) => if args@.len() > 0 {
                match args@.last() {
                    GenericArg::Type(q) => Some(q),
                    _ => None,
                }
            } else {
                None
            },
            None => None,
        }
    } else {
        None
    }
}

/// Whether a field is lazy storage whose key is generated automatically:
/// its storage type is lazy, and the last generic argument of the type's
/// first segment is not a path to `ManualKey`.
pub open spec fn auto_key_spec(f: FieldDef) -> bool {
    match f.storage_type {
        Some(p) => match p.def_path {
            Some(d) => lazy_type_spec(def_path_text(d@)) && match last_type_arg(p) {
                Some(q) => q.segments@[0].name@ != "ManualKey"@,
                None => true,
            },
            None => false,
        },
        None => false,
    }
}

/// Type paths have at least one segment.
pub open spec fn paths_nonempty(f: FieldDef) -> bool {
    match f.storage_type {
        Some(p) => p.segments@.len() > 0 && match last_type_arg(p) {
            Some(q) => q.segments@.len() > 0,
            None => true,
        },
        None => true,
    }
}

/// The avoid-autokey-upgradable detector: the spans of the lazy fields with
/// an automatic key, in the order seen.
pub struct AvoidAutokeyUpgradable {
    pub lazy_fields: Vec<Span>,
}

/// A warning of the autokey detector: the lazy fields with an automatic key
/// (consecutive repeats removed), the last of them, and the `set_code_hash`
/// call that makes the contract upgradable.
#[derive(Debug)]
pub struct AutokeyLint {
    pub fields: Vec<Span>,
    pub last_field: Span,
    pub call: Span,
}

/// The name of the method that `e` calls, looking through unary operators
/// (`Expr::method_ident`).
pub open spec fn method_ident(e: Expr) -> Option<Seq<char>>
    decreases e,
{
    match e.kind {
        ExprKind::MethodCall { name, .. } => Some(name@),
        ExprKind::Unary(_, x) => method_ident(*x),
        _ => None,
    }
}

fn method_ident_is(e: &Expr, m: &str) -> (b: bool)
    ensures
        b == (method_ident(*e) == Some(m@)),
    decreases e,
{
    match &e.kind {
        ExprKind::MethodCall { name, .. } => text_eq(name.as_str(), m),
        ExprKind::Unary(_, x) => method_ident_is(x, m),
        _ => false,
    }
}

/// `v` without consecutive repeats (`dedup`).
pub open spec fn dedup_spans(v: Seq<Span>) -> Seq<Span>
    decreases v.len(),
{
    if v.len() <= 1 {
        v
    } else if v.last() == v[v.len() - 2] {
        dedup_spans(v.drop_last())
    } else {
        dedup_spans(v.drop_last()).push(v.last())
    }
}

proof fn lemma_dedup_last(v: Seq<Span>)
    requires
        v.len() > 0,
    ensures
        dedup_spans(v).len() > 0,
        dedup_spans(v).last() == v.last(),
    decreases v.len(),
{
    if v.len() > 1 && v.last() == v[v.len() - 2] {
        lemma_dedup_last(v.drop_last());
    }
}

fn dedup_exec(v: &Vec<Span>) -> (r: Vec<Span>)
    ensures
        r@ == dedup_spans(v@),
{
    let mut r: Vec<Span> = Vec::new();
    let mut i: usize = 0;
    while i < v.len()
        invariant
            0 <= i <= v@.len(),
            r@ == dedup_spans(v@.take(i as int)),
        decreases v@.len() - i,
    {
        assert(v@.take(i + 1).drop_last() =~= v@.take(i as int));
        if i > 0 {
            proof {
                lemma_dedup_last(v@.take(i as int));
            }
            if v[i] != v[i - 1] {
                r.push(v[i]);
            }
        } else {
            r.push(v[i]);
            assert(r@ =~= v@.take(1));
        }
        i = i + 1;
    }
    assert(v@.take(v@.len() as int) =~= v@);
    r
}

/// The calls in `nodes` that the autokey detector reports, given the lazy
/// fields recorded.
pub open spec fn autokey_calls(nodes: Seq<Expr>, fields: Seq<Span>) -> Seq<Span>
    decreases nodes.len(),
{
    if nodes.len() == 0 {
        Seq::empty()
    } else {
        autokey_calls(nodes.drop_last(), fields) + if method_ident(nodes.last()) == Some(
            "set_code_hash"@,
        ) && fields.len() > 0 {
            seq![nodes.last().span]
        } else {
            Seq::empty()
        }
    }
}

impl AvoidAutokeyUpgradable {
    /// The detector, before any field was seen.
    pub fn new() -> (r: Self)
        ensures
            r.lazy_fields@.len() == 0,
    {
        AvoidAutokeyUpgradable { lazy_fields: Vec::new() }
    }

    /// Whether a field is lazy storage with an automatic key.
    pub fn lazy_value_has_manual_key(&self, f: &FieldDef) -> (b: bool)
        requires
            paths_nonempty(*f),
        ensures
            b == auto_key_spec(*f),
    {
        if let Some(p) = &f.storage_type {
            if let Some(d) = &p.def_path {
                let text = def_path_string(d);
                if is_lazy_type(&text) {
                    if let Some(args) = &p.segments[0].args {
                        if args.len() > 0 {
                            if let GenericArg::Type(q) = &args[args.len() - 1] {
                                return !text_eq(q.segments[0].name.as_str(), "ManualKey");
                            }
                        }
                    }
                    return true;
                }
            }
        }
        false
    }

    /// A struct field definition: a lazy field with an automatic key is
    /// recorded.
    pub fn check_field_def(&mut self, f: &FieldDef)
        requires
            paths_nonempty(*f),
        ensures
            final(self).lazy_fields@ == if auto_key_spec(*f) {
                old(self).lazy_fields@.push(f.span)
            } else {
                old(self).lazy_fields@
            },
    {
        if self.lazy_value_has_manual_key(f) {
            self.lazy_fields.push(f.span);
        }
    }

    /// The warnings for a function body: one per `set_code_hash` call, in
    /// walk order, once some lazy field with an automatic key was recorded.
    pub fn check_fn(&self, body: &Expr) -> (r: Vec<AutokeyLint>)
        ensures
            r@.len() == autokey_calls(walk_nodes(*body), self.lazy_fields@).len(),
            forall|k: int|
                0 <= k < r@.len() ==> {
                    &&& (#[trigger] r@[k]).call == autokey_calls(walk_nodes(*body), self.lazy_fields@)[k]
                    &&& r@[k].fields@ == dedup_spans(self.lazy_fields@)
                    &&& r@[k].last_field == self.lazy_fields@.last()
                },
    {
        let nodes = walk_node_refs(body);
        let ghost ns = walk_nodes(*body);
        let ghost calls = autokey_calls(ns, self.lazy_fields@);
        let mut r: Vec<AutokeyLint> = Vec::new();
        let mut i: usize = 0;
        assert(ns.take(0) =~= Seq::<Expr>::empty());
        while i < nodes.len()
            invariant
                0 <= i <= nodes@.len(),
                nodes@.len() == ns.len(),
                forall|k: int| 0 <= k < nodes@.len() ==> *nodes@[k] == ns[k],
                r@.len() == autokey_calls(ns.take(i as int), self.lazy_fields@).len(),
                forall|k: int|
                    0 <= k < r@.len() ==> {
                        &&& (#[trigger] r@[k]).call == autokey_calls(
                            ns.take(i as int),
                            self.lazy_fields@,
                        )[k]
                        &&& r@[k].fields@ == dedup_spans(self.lazy_fields@)
                        &&& r@[k].last_field == self.lazy_fields@.last()
                    },
            decreases nodes@.len() - i,
        {
            let e: &Expr = nodes[i];
            assert(ns.take(i + 1).drop_last() =~= ns.take(i as int));
            assert(ns.take(i + 1).last() == *e);
            if method_ident_is(e, "set_code_hash") && self.lazy_fields.len() > 0 {
                let fields = dedup_exec(&self.lazy_fields);
                let last = self.lazy_fields[self.lazy_fields.len() - 1];
                r.push(AutokeyLint { fields, last_field: last, call: e.span });
            }
            i = i + 1;
        }
        assert(ns.take(ns.len() as int) =~= ns);
        r
    }
}

/// Law: a call `self.field.m(..)` on a storage field is a buffered call,
/// naming `m` and the field, exactly when `m` is one of the storage
/// methods that buffer their value: `insert`, `pop`, `push`, `set`, `peek`
/// and `get`.
pub proof fn lemma_buffering_methods(e: Expr)
    ensures
        match e.kind {
            ExprKind::MethodCall { name, receiver, .. } => match receiver.kind {
                ExprKind::Field(base, fname) => match base.kind {
                    ExprKind::Path(QPath::Resolved { segments, .. }) => has_self_segment(segments@)
                        ==> buffered_call(e) == if {
                        ||| name@ == "insert"@
                        ||| name@ == "pop"@
                        ||| name@ == "push"@
                        ||| name@ == "set"@
                        ||| name@ == "peek"@
                        ||| name@ == "get"@
                    } {
                        Some((name@, fname@))
                    } else {
                        None
                    },
                    _ => buffered_call(e) is None,
                },
                _ => buffered_call(e) is None,
            },
            _ => buffered_call(e) is None,
        },
{
}

} // verus!
