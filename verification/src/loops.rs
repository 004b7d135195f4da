//! Detectors on `for` loops, read in their desugared form: the compiler
//! turns `for x in it { body }` into `match IntoIterator::into_iter(it) {
//! mut iter => loop { match Iterator::next(&mut iter) { None => break,
//! Some(x) => body } } }`.
//!
//! A loop whose range ends in an integer literal runs a fixed number of
//! times; any other loop may not. A fixed-count loop that indexes with its
//! loop variable is better written with an iterator.
use vstd::prelude::*;
use crate::mir::Span;
use crate::hir::{
    Arm, BinOp, Expr, ExprKind, LangItem, LoopSource, MatchSource, Pat, QPath, arm_nodes, local_of,
    visit_arms, visit_list, visit_node, walk_nodes,
};
use crate::span_probes::walk_node_refs;

verus! {

// ---------------------------------------------------------------------
// The shape of a desugared `for` loop
// ---------------------------------------------------------------------

/// Whether `e` is a path to the language item `item`.
pub open spec fn lang_path(e: Expr, item: LangItem) -> bool {
    match e.kind {
        ExprKind::Path(QPath::LangItem { item: i, .. }) => i == item,
        _ => false,
    }
}

/// The arguments of `IntoIterator::into_iter` when `e` is the `match` that
/// a `for` loop desugars to.
pub open spec fn for_loop_args(e: Expr) -> Option<Seq<Expr>> {
    match e.kind {
        ExprKind::Match { source: MatchSource::ForLoopDesugar, scrutinee, .. } => match scrutinee.kind {
            ExprKind::Call { func, args } => if lang_path(*func, LangItem::IntoIterIntoIter) {
                Some(args@)
            } else {
                None
            },
            _ => None,
        },
        _ => None,
    }
}

/// Whether a language item is one of the range structs.
pub open spec fn range_item(i: LangItem) -> bool {
    i == LangItem::Range || i == LangItem::RangeInclusiveStruct || i == LangItem::RangeInclusiveNew
}

/// Whether the first argument is a range literal whose last field is an
/// integer literal: the loop runs a fixed number of times.
pub open spec fn literal_end_range(args: Seq<Expr>) -> bool {
    args.len() > 0 && match args[0].kind {
        ExprKind::Struct { path: QPath::LangItem { item, .. }, fields, .. } => range_item(item)
            && fields@.len() > 0 && fields@.last().kind matches ExprKind::Lit {
            int_value: Some(_),
            ..
        },
        _ => false,
    }
}

/// The arms of the `match` on the iterator's next item, when the first arm
/// of the `match` `e` is a `for` loop whose block starts with that `match`
/// as an expression statement.
pub open spec fn next_item_arms(e: Expr) -> Option<Seq<Arm>> {
    match e.kind {
        ExprKind::Match { arms, .. } => if arms@.len() > 0 {
            match arms@[0].body.kind {
                ExprKind::Loop { loop_source: LoopSource::ForLoop, first_stmt_is_expr: true, body } =>
                    if body@.len() > 0 {
                    match body@[0].kind {
                        ExprKind::Match { source: MatchSource::ForLoopDesugar, arms: inner, .. } =>
                            Some(inner@),
                        _ => None,
                    }
                } else {
                    None
                },
                _ => None,
            }
        } else {
            None
        },
        _ => None,
    }
}

/// The variable that the pattern `Some(x)` binds, when `p` is such a
/// pattern whose last field is a binding.
pub open spec fn some_binding(p: Pat) -> Option<u64> {
    match p {
        Pat::Struct { path: QPath::LangItem { item: LangItem::OptionSome, .. }, fields } =>
            if fields@.len() > 0 {
            match fields@.last() {
                Pat::Binding(id) => Some(id),
                _ => None,
            }
        } else {
            None
        },
        _ => None,
    }
}

/// Whether `e` indexes with the local `id` (`_[id]`).
pub open spec fn indexes_local(e: Expr, id: u64) -> bool {
    match e.kind {
        ExprKind::Index(_, i) => local_of(*i) == Some(id),
        _ => false,
    }
}

/// Whether the arm binds the loop variable with `Some(x)` and its body
/// indexes with `x` somewhere inside.
pub open spec fn arm_indexes_binding(a: Arm) -> bool {
    match some_binding(a.pat) {
        Some(id) => exists|k: int|
            0 <= k < walk_nodes(a.body).len() && indexes_local(#[trigger] walk_nodes(a.body)[k], id),
        None => false,
    }
}

/// Whether `e` is a `for` loop over a range ending in an integer literal
/// whose body indexes with the loop variable.
pub open spec fn indexed_range_loop(e: Expr) -> bool {
    &&& for_loop_args(e) matches Some(args) && literal_end_range(args)
    &&& next_item_arms(e) matches Some(arms) && exists|j: int|
        0 <= j < arms.len() && arm_indexes_binding(#[trigger] arms[j])
}

/// The spans of the expressions of `nodes` that `keep` holds of, in order.
pub open spec fn spans_where(nodes: Seq<Expr>, keep: spec_fn(Expr) -> bool) -> Seq<Span>
    decreases nodes.len(),
{
    if nodes.len() == 0 {
        Seq::empty()
    } else {
        spans_where(nodes.drop_last(), keep) + if keep(nodes.last()) {
            seq![nodes.last().span]
        } else {
            Seq::empty()
        }
    }
}

// ---------------------------------------------------------------------
// Telling the shapes apart
// ---------------------------------------------------------------------

/// Whether `e` is a path to the language item `item`.
pub fn is_lang_path(e: &Expr, item: LangItem) -> (b: bool)
    ensures
        b == lang_path(*e, item),
{
    match &e.kind {
        ExprKind::Path(QPath::LangItem { item: i, .. }) => *i == item,
        _ => false,
    }
}

/// The arguments of `IntoIterator::into_iter` when `e` is a desugared `for`
/// loop.
pub fn get_for_loop_args(e: &Expr) -> (r: Option<&Vec<Expr>>)
    ensures
        match for_loop_args(*e) {
            Some(args) => r matches Some(v) && v@ == args,
            None => r is None,
        },
{
    match &e.kind {
        ExprKind::Match { source: MatchSource::ForLoopDesugar, scrutinee, .. } => match &scrutinee.kind {
            ExprKind::Call { func, args } => if is_lang_path(func, LangItem::IntoIterIntoIter) {
                Some(args)
            } else {
                None
            },
            _ => None,
        },
        _ => None,
    }
}

/// Whether `args` start with a range literal that ends in an integer
/// literal.
pub fn is_literal_end_range(args: &Vec<Expr>) -> (b: bool)
    ensures
        b == literal_end_range(args@),
{
    if args.len() == 0 {
        return false;
    }
    match &args[0].kind {
        ExprKind::Struct { path: QPath::LangItem { item, .. }, fields, .. } => {
            let is_range = *item == LangItem::Range || *item == LangItem::RangeInclusiveStruct
                || *item == LangItem::RangeInclusiveNew;
            if !is_range || fields.len() == 0 {
                return false;
            }
            match &fields[fields.len() - 1].kind {
                ExprKind::Lit { int_value: Some(_), .. } => true,
                _ => false,
            }
        },
        _ => false,
    }
}

/// The arms of the `match` on the iterator's next item (see
/// `next_item_arms`).
pub fn get_next_item_arms(e: &Expr) -> (r: Option<&Vec<Arm>>)
    ensures
        match next_item_arms(*e) {
            Some(arms) => r matches Some(v) && v@ == arms,
            None => r is None,
        },
{
    if let ExprKind::Match { arms, .. } = &e.kind {
        if arms.len() > 0 {
            if let ExprKind::Loop { loop_source: LoopSource::ForLoop, first_stmt_is_expr: true, body } =
                &arms[0].body.kind {
                if body.len() > 0 {
                    if let ExprKind::Match { source: MatchSource::ForLoopDesugar, arms: inner, .. } =
                        &body[0].kind {
                        return Some(inner);
                    }
                }
            }
        }
    }
    None
}

/// The variable that a `Some(x)` pattern binds.
pub fn get_some_binding(p: &Pat) -> (r: Option<u64>)
    ensures
        r == some_binding(*p),
{
    match p {
        Pat::Struct { path: QPath::LangItem { item: LangItem::OptionSome, .. }, fields } => {
            if fields.len() == 0 {
                return None;
            }
            match &fields[fields.len() - 1] {
                Pat::Binding(id) => Some(*id),
                _ => None,
            }
        },
        _ => None,
    }
}

/// Whether some expression inside `body` indexes with the local `id`.
pub fn body_indexes_local(body: &Expr, id: u64) -> (b: bool)
    ensures
        b == exists|k: int|
            0 <= k < walk_nodes(*body).len() && indexes_local(#[trigger] walk_nodes(*body)[k], id),
{
    let nodes = walk_node_refs(body);
    let ghost ns = walk_nodes(*body);
    let mut k: usize = 0;
    while k < nodes.len()
        invariant
            0 <= k <= nodes@.len(),
            nodes@.len() == ns.len(),
            ns == walk_nodes(*body),
            forall|j: int| 0 <= j < nodes@.len() ==> *nodes@[j] == ns[j],
            forall|j: int| 0 <= j < k ==> !indexes_local(#[trigger] ns[j], id),
        decreases nodes@.len() - k,
    {
        let n = nodes[k];
        if let ExprKind::Index(_, i) = &n.kind {
            if let ExprKind::Path(QPath::Resolved { res_local: Some(l), .. }) = &i.kind {
                if *l == id {
                    assert(indexes_local(ns[k as int], id));
                    return true;
                }
            }
        }
        assert(!indexes_local(ns[k as int], id));
        k = k + 1;
    }
    false
}

/// Whether `e` is a loop over a range ending in an integer literal whose
/// body indexes with the loop variable.
pub fn is_indexed_range_loop(e: &Expr) -> (b: bool)
    ensures
        b == indexed_range_loop(*e),
{
    let args = match get_for_loop_args(e) {
        Some(a) => a,
        None => {
            return false;
        },
    };
    if !is_literal_end_range(args) {
        return false;
    }
    let arms = match get_next_item_arms(e) {
        Some(a) => a,
        None => {
            return false;
        },
    };
    let mut j: usize = 0;
    while j < arms.len()
        invariant
            0 <= j <= arms@.len(),
            next_item_arms(*e) == Some(arms@),
            for_loop_args(*e) == Some(args@),
            literal_end_range(args@),
            forall|i: int| 0 <= i < j ==> !arm_indexes_binding(#[trigger] arms@[i]),
        decreases arms@.len() - j,
    {
        match get_some_binding(&arms[j].pat) {
            Some(id) => {
                if body_indexes_local(&arms[j].body, id) {
                    proof {
                        let xs = next_item_arms(*e).unwrap();
                        assert(xs[j as int] == arms@[j as int]);
                        assert(arm_indexes_binding(xs[j as int]));
                    }
                    return true;
                }
            },
            None => {},
        }
        j = j + 1;
    }
    false
}

// ---------------------------------------------------------------------
// Indexing where an iterator would do
// ---------------------------------------------------------------------

/// The help of the iterators-over-indexing detector.
pub open spec fn iterator_help() -> Seq<char> {
    "Instead, use an iterator or index to `.len()`."@
}

/// The iterators-over-indexing detector.
pub struct IteratorOverIndexing {}

impl IteratorOverIndexing {
    /// The detector.
    pub fn new() -> (r: Self) {
        IteratorOverIndexing {  }
    }

    /// The spans to report in the body `body` of a function: in a method,
    /// every loop over a range ending in an integer literal that indexes
    /// with its loop variable, in walk order; nothing in other functions.
    pub fn check_fn(&self, is_method: bool, body: &Expr) -> (r: Vec<Span>)
        ensures
            r@ == if is_method {
                spans_where(walk_nodes(*body), |n: Expr| indexed_range_loop(n))
            } else {
                Seq::empty()
            },
    {
        let mut r: Vec<Span> = Vec::new();
        if !is_method {
            return r;
        }
        let nodes = walk_node_refs(body);
        let ghost ns = walk_nodes(*body);
        let ghost keep = |n: Expr| indexed_range_loop(n);
        let mut i: usize = 0;
        assert(ns.take(0) =~= Seq::<Expr>::empty());
        while i < nodes.len()
            invariant
                0 <= i <= nodes@.len(),
                nodes@.len() == ns.len(),
                ns == walk_nodes(*body),
                keep == (|n: Expr| indexed_range_loop(n)),
                forall|k: int| 0 <= k < nodes@.len() ==> *nodes@[k] == ns[k],
                r@ == spans_where(ns.take(i as int), keep),
            decreases nodes@.len() - i,
        {
            let n = nodes[i];
            assert(ns.take(i as int + 1).drop_last() =~= ns.take(i as int));
            assert(ns.take(i as int + 1).last() == *n);
            if is_indexed_range_loop(n) {
                r.push(n.span);
            }
            i = i + 1;
        }
        assert(ns.take(ns.len() as int) =~= ns);
        r
    }

    /// The help of a warning.
    pub fn help(&self) -> (r: String)
        ensures
            r@ == iterator_help(),
    {
        String::from_str("Instead, use an iterator or index to `.len()`.")
    }
}

// ---------------------------------------------------------------------
// Loops without a fixed number of iterations
// ---------------------------------------------------------------------

/// The condition of `e` when it is a `while` loop.
pub open spec fn while_cond(e: Expr) -> Option<Expr> {
    match e.kind {
        ExprKind::Loop { loop_source: LoopSource::While, body, .. } => if body@.len() > 0 {
            match body@.last().kind {
                ExprKind::If { cond, .. } => Some(*cond),
                _ => None,
            }
        } else {
            None
        },
        _ => None,
    }
}

/// Whether a binary operator is an ordering comparison.
pub open spec fn ordering_op(op: BinOp) -> bool {
    op == BinOp::Lt || op == BinOp::Le || op == BinOp::Gt || op == BinOp::Ge
}

/// Whether `e` is an integer literal.
pub open spec fn int_literal(e: Expr) -> bool {
    e.kind matches ExprKind::Lit { int_value: Some(_), .. }
}

/// Whether a loop condition compares with an integer literal, so that the
/// loop runs a fixed number of times.
pub open spec fn literal_bound(c: Expr) -> bool {
    c.kind matches ExprKind::Binary(op, l, r) && ordering_op(op) && (int_literal(*l) || int_literal(
        *r,
    ))
}

/// Whether `e` is a `while` loop whose condition is not bounded by an
/// integer literal.
pub open spec fn unbounded_while(e: Expr) -> bool {
    while_cond(e) matches Some(c) && !literal_bound(c)
}

/// What the unbounded-loop visitor reports when it visits `e`: a `for`
/// loop whose range does not end in an integer literal, and a `while` loop
/// whose condition is not bounded by an integer literal, is reported
/// itself; a `for` loop whose range does end in one has its subexpressions
/// walked one extra time (so that loops inside it are reported twice); then
/// the subexpressions of `e` are walked.
pub open spec fn dos_visit(e: Expr) -> Seq<Span>
    decreases e, 2nat,
{
    let own = match for_loop_args(e) {
        Some(args) => if literal_end_range(args) {
            dos_walk(e)
        } else {
            seq![e.span]
        },
        None => if unbounded_while(e) {
            seq![e.span]
        } else {
            Seq::empty()
        },
    };
    own + dos_walk(e)
}

/// What walking the subexpressions of `e` reports, in walk order.
pub open spec fn dos_walk(e: Expr) -> Seq<Span>
    decreases e, 1nat,
{
    match e.kind {
        ExprKind::Lit { .. } => Seq::empty(),
        ExprKind::Path(_) => Seq::empty(),
        ExprKind::MethodCall { receiver, args, .. } => dos_visit(*receiver) + dos_list(args@),
        ExprKind::Call { func, args } => dos_visit(*func) + dos_list(args@),
        ExprKind::Unary(_, x) => dos_visit(*x),
        ExprKind::Binary(_, l, r) => dos_visit(*l) + dos_visit(*r),
        ExprKind::AssignOp(_, l, r) => dos_visit(*r) + dos_visit(*l),
        ExprKind::Assign(l, r) => dos_visit(*r) + dos_visit(*l),
        ExprKind::Index(a, b) => dos_visit(*a) + dos_visit(*b),
        ExprKind::Field(x, _) => dos_visit(*x),
        ExprKind::Tup(es) => dos_list(es@),
        ExprKind::Array(es) => dos_list(es@),
        ExprKind::Struct { fields, base, .. } => dos_list(fields@) + match base {
            Some(b) => dos_visit(*b),
            None => Seq::empty(),
        },
        ExprKind::Repeat(x) => dos_visit(*x),
        ExprKind::If { cond, then, els } => dos_visit(*cond) + dos_visit(*then) + match els {
            Some(x) => dos_visit(*x),
            None => Seq::empty(),
        },
        ExprKind::Ret(v) => match v {
            Some(x) => dos_visit(*x),
            None => Seq::empty(),
        },
        ExprKind::Match { scrutinee, arms, .. } => dos_visit(*scrutinee) + dos_arms(arms@),
        ExprKind::Loop { body, .. } => dos_list(body@),
        ExprKind::MacCall(_) => Seq::empty(),
        ExprKind::UnsafeBlock(es) => dos_list(es@),
        ExprKind::Other(es) => dos_list(es@),
    }
}

/// What visiting an arm reports: its guard, then its body.
pub open spec fn dos_arm(a: Arm) -> Seq<Span>
    decreases a, 0nat,
{
    let g = match a.guard {
        Some(g) => dos_visit(g),
        None => Seq::empty(),
    };
    g + dos_visit(a.body)
}

/// What visiting each of `arms` in turn reports.
pub open spec fn dos_arms(arms: Seq<Arm>) -> Seq<Span>
    decreases arms, 0nat,
{
    if arms.len() == 0 {
        Seq::empty()
    } else {
        dos_arms(arms.subrange(0, arms.len() - 1)) + dos_arm(arms[arms.len() - 1])
    }
}

/// What visiting each of `es` in turn reports.
pub open spec fn dos_list(es: Seq<Expr>) -> Seq<Span>
    decreases es, 0nat,
{
    if es.len() == 0 {
        Seq::empty()
    } else {
        dos_list(es.subrange(0, es.len() - 1)) + dos_visit(es[es.len() - 1])
    }
}

fn join_spans(mut a: Vec<Span>, mut b: Vec<Span>) -> (r: Vec<Span>)
    ensures
        r@ == a@ + b@,
{
    a.append(&mut b);
    a
}

/// Whether `e` is an integer literal.
fn is_int_literal(e: &Expr) -> (b: bool)
    ensures
        b == int_literal(*e),
{
    match &e.kind {
        ExprKind::Lit { int_value: Some(_), .. } => true,
        _ => false,
    }
}

/// Whether `e` is a `while` loop whose condition is not bounded by an
/// integer literal.
pub fn is_unbounded_while(e: &Expr) -> (b: bool)
    ensures
        b == unbounded_while(*e),
{
    match &e.kind {
        ExprKind::Loop { loop_source: LoopSource::While, body, .. } => {
            if body.len() == 0 {
                return false;
            }
            match &body[body.len() - 1].kind {
                ExprKind::If { cond, .. } => match &cond.kind {
                    ExprKind::Binary(op, l, r) => {
                        let ordering = *op == BinOp::Lt || *op == BinOp::Le || *op == BinOp::Gt
                            || *op == BinOp::Ge;
                        !(ordering && (is_int_literal(l) || is_int_literal(r)))
                    },
                    _ => true,
                },
                _ => false,
            }
        },
        _ => false,
    }
}

/// What the unbounded-loop visitor reports when it visits `e`.
pub fn dos_visit_expr(e: &Expr) -> (r: Vec<Span>)
    ensures
        r@ == dos_visit(*e),
    decreases e, 2nat,
{
    let own = match get_for_loop_args(e) {
        Some(args) => if is_literal_end_range(args) {
            dos_walk_expr(e)
        } else {
            let mut v: Vec<Span> = Vec::new();
            v.push(e.span);
            v
        },
        None => if is_unbounded_while(e) {
            let mut v: Vec<Span> = Vec::new();
            v.push(e.span);
            v
        } else {
            Vec::new()
        },
    };
    let rest = dos_walk_expr(e);
    join_spans(own, rest)
}

fn dos_list_exprs(es: &Vec<Expr>) -> (r: Vec<Span>)
    ensures
        r@ == dos_list(es@),
    decreases es, 0nat,
{
    let mut r: Vec<Span> = Vec::new();
    let mut i: usize = 0;
    assert(es@.subrange(0, 0) =~= Seq::<Expr>::empty());
    while i < es.len()
        invariant
            0 <= i <= es@.len(),
            r@ == dos_list(es@.subrange(0, i as int)),
        decreases es@.len() - i,
    {
        assert(decreases_to!(es => es@[i as int]));
        let more = dos_visit_expr(&es[i]);
        proof {
            let s = es@.subrange(0, i + 1);
            assert(s.subrange(0, s.len() - 1) =~= es@.subrange(0, i as int));
            assert(s[s.len() - 1] == es@[i as int]);
        }
        r = join_spans(r, more);
        i = i + 1;
    }
    assert(es@.subrange(0, es@.len() as int) =~= es@);
    r
}

fn dos_arms_exprs(arms: &Vec<Arm>) -> (r: Vec<Span>)
    ensures
        r@ == dos_arms(arms@),
    decreases arms, 0nat,
{
    let mut r: Vec<Span> = Vec::new();
    let mut i: usize = 0;
    assert(arms@.subrange(0, 0) =~= Seq::<Arm>::empty());
    while i < arms.len()
        invariant
            0 <= i <= arms@.len(),
            r@ == dos_arms(arms@.subrange(0, i as int)),
        decreases arms@.len() - i,
    {
        let a = &arms[i];
        assert(decreases_to!(arms => arms@[i as int].body));
        let g = match &a.guard {
            Some(g) => {
                assert(decreases_to!(arms => g));
                dos_visit_expr(g)
            },
            None => Vec::new(),
        };
        let more = join_spans(g, dos_visit_expr(&a.body));
        assert(more@ == dos_arm(*a));
        proof {
            let s = arms@.subrange(0, i + 1);
            assert(s.subrange(0, s.len() - 1) =~= arms@.subrange(0, i as int));
            assert(s[s.len() - 1] == arms@[i as int]);
        }
        r = join_spans(r, more);
        i = i + 1;
    }
    assert(arms@.subrange(0, arms@.len() as int) =~= arms@);
    r
}

/// What walking the subexpressions of `e` reports.
pub fn dos_walk_expr(e: &Expr) -> (r: Vec<Span>)
    ensures
        r@ == dos_walk(*e),
    decreases e, 1nat,
{
    match &e.kind {
        ExprKind::Lit { .. } => Vec::new(),
        ExprKind::Path(_) => Vec::new(),
        ExprKind::MethodCall { receiver, args, .. } => join_spans(
            dos_visit_expr(receiver),
            dos_list_exprs(args),
        ),
        ExprKind::Call { func, args } => join_spans(dos_visit_expr(func), dos_list_exprs(args)),
        ExprKind::Unary(_, x) => dos_visit_expr(x),
        ExprKind::Binary(_, l, rr) => join_spans(dos_visit_expr(l), dos_visit_expr(rr)),
        ExprKind::AssignOp(_, l, rr) => join_spans(dos_visit_expr(rr), dos_visit_expr(l)),
        ExprKind::Assign(l, rr) => join_spans(dos_visit_expr(rr), dos_visit_expr(l)),
        ExprKind::Index(x, y) => join_spans(dos_visit_expr(x), dos_visit_expr(y)),
        ExprKind::Field(x, _) => dos_visit_expr(x),
        ExprKind::Tup(es) => dos_list_exprs(es),
        ExprKind::Array(es) => dos_list_exprs(es),
        ExprKind::Struct { fields, base, .. } => {
            let a = dos_list_exprs(fields);
            match base {
                Some(b) => join_spans(a, dos_visit_expr(b)),
                None => a,
            }
        },
        ExprKind::Repeat(x) => dos_visit_expr(x),
        ExprKind::If { cond, then, els } => {
            let a = join_spans(dos_visit_expr(cond), dos_visit_expr(then));
            match els {
                Some(x) => join_spans(a, dos_visit_expr(x)),
                None => a,
            }
        },
        ExprKind::Ret(v) => match v {
            Some(x) => dos_visit_expr(x),
            None => Vec::new(),
        },
        ExprKind::Match { scrutinee, arms, .. } => join_spans(
            dos_visit_expr(scrutinee),
            dos_arms_exprs(arms),
        ),
        ExprKind::Loop { body, .. } => dos_list_exprs(body),
        ExprKind::MacCall(_) => Vec::new(),
        ExprKind::UnsafeBlock(es) => dos_list_exprs(es),
        ExprKind::Other(es) => dos_list_exprs(es),
    }
}

/// The help of the unbounded-operation detector.
pub open spec fn unbounded_help() -> Seq<char> {
    "This loop seems to do not have a fixed number of iterations"@
}

/// The unbounded-operation detector.
pub struct DosUnboundedOperation {}

impl DosUnboundedOperation {
    /// The detector.
    pub fn new() -> (r: Self) {
        DosUnboundedOperation {  }
    }

    /// The spans to report in the body `body` of a function: in a method,
    /// what walking the body reports (see `dos_visit`); nothing in other
    /// functions.
    pub fn check_fn(&self, is_method: bool, body: &Expr) -> (r: Vec<Span>)
        ensures
            r@ == if is_method {
                dos_walk(*body)
            } else {
                Seq::empty()
            },
    {
        if is_method {
            dos_walk_expr(body)
        } else {
            Vec::new()
        }
    }

    /// The help of a warning.
    pub fn help(&self) -> (r: String)
        ensures
            r@ == unbounded_help(),
    {
        String::from_str("This loop seems to do not have a fixed number of iterations")
    }
}

// ---------------------------------------------------------------------
// What the two detectors report
// ---------------------------------------------------------------------

/// Whether `n` is a `for` loop whose range does not end in an integer
/// literal, or a `while` loop whose condition is not bounded by one.
pub open spec fn unbounded_loop(n: Expr) -> bool {
    ||| for_loop_args(n) matches Some(args) && !literal_end_range(args)
    ||| unbounded_while(n)
}

/// Every span of `out` is the span of an expression of `ns` that `keep`
/// holds of.
pub open spec fn spans_sound(out: Seq<Span>, ns: Seq<Expr>, keep: spec_fn(Expr) -> bool) -> bool {
    forall|k: int| 0 <= k < out.len() ==> #[trigger] kept_span(ns, keep, out[k])
}

/// Whether `s` is the span of an expression of `ns` that `keep` holds of.
pub open spec fn kept_span(ns: Seq<Expr>, keep: spec_fn(Expr) -> bool, s: Span) -> bool {
    exists|i: int| 0 <= i < ns.len() && keep(#[trigger] ns[i]) && ns[i].span == s
}

/// The span of every expression of `ns` that `keep` holds of is in `out`.
pub open spec fn spans_complete(out: Seq<Span>, ns: Seq<Expr>, keep: spec_fn(Expr) -> bool) -> bool {
    forall|i: int|
        0 <= i < ns.len() && keep(#[trigger] ns[i]) ==> exists|k: int|
            0 <= k < out.len() && out[k] == ns[i].span
}

proof fn lemma_spans_join(
    a: Seq<Span>,
    na: Seq<Expr>,
    b: Seq<Span>,
    nb: Seq<Expr>,
    keep: spec_fn(Expr) -> bool,
)
    requires
        spans_sound(a, na, keep),
        spans_complete(a, na, keep),
        spans_sound(b, nb, keep),
        spans_complete(b, nb, keep),
    ensures
        spans_sound(a + b, na + nb, keep),
        spans_complete(a + b, na + nb, keep),
{
    let out = a + b;
    let ns = na + nb;
    assert forall|k: int| 0 <= k < out.len() implies #[trigger] kept_span(ns, keep, out[k]) by {
        if k < a.len() {
            assert(out[k] == a[k]);
            assert(kept_span(na, keep, a[k]));
            let i = choose|i: int| 0 <= i < na.len() && keep(#[trigger] na[i]) && na[i].span == a[k];
            assert(ns[i] == na[i]);
        } else {
            assert(out[k] == b[k - a.len()]);
            assert(kept_span(nb, keep, b[k - a.len()]));
            let i = choose|i: int|
                0 <= i < nb.len() && keep(#[trigger] nb[i]) && nb[i].span == b[k - a.len()];
            assert(ns[na.len() + i] == nb[i]);
        }
    }
    assert forall|i: int| 0 <= i < ns.len() && keep(#[trigger] ns[i]) implies exists|k: int|
        0 <= k < out.len() && out[k] == ns[i].span by {
        if i < na.len() {
            assert(ns[i] == na[i]);
            let k = choose|k: int| 0 <= k < a.len() && a[k] == na[i].span;
            assert(out[k] == a[k]);
        } else {
            assert(ns[i] == nb[i - na.len()]);
            let k = choose|k: int| 0 <= k < b.len() && b[k] == nb[i - na.len()].span;
            assert(out[a.len() + k] == b[k]);
        }
    }
}

proof fn lemma_spans_single(e: Expr, keep: spec_fn(Expr) -> bool)
    ensures
        keep(e) ==> spans_sound(seq![e.span], seq![e], keep),
        spans_complete(if keep(e) { seq![e.span] } else { Seq::empty() }, seq![e], keep),
        spans_sound(Seq::empty(), seq![e], keep),
{
    if keep(e) {
        assert(seq![e][0] == e);
        assert(seq![e.span][0] == e.span);
        assert(kept_span(seq![e], keep, e.span));
    }
}

/// What `spans_where` gives is exactly the spans of the expressions that
/// `keep` holds of.
proof fn lemma_spans_where(nodes: Seq<Expr>, keep: spec_fn(Expr) -> bool)
    ensures
        spans_sound(spans_where(nodes, keep), nodes, keep),
        spans_complete(spans_where(nodes, keep), nodes, keep),
    decreases nodes.len(),
{
    if nodes.len() > 0 {
        let init = nodes.drop_last();
        let last = nodes.last();
        lemma_spans_where(init, keep);
        lemma_spans_single(last, keep);
        lemma_spans_join(
            spans_where(init, keep),
            init,
            if keep(last) { seq![last.span] } else { Seq::empty() },
            seq![last],
            keep,
        );
        assert(init + seq![last] =~= nodes);
    }
}

/// Law: the iterators-over-indexing detector reports, in a method's body,
/// exactly the loops over a range ending in an integer literal that index
/// with their loop variable: every reported span is the span of such a
/// loop inside the body, and every such loop is reported.
pub proof fn lemma_iterator_reports_exactly_indexed_loops(body: Expr)
    ensures
        spans_sound(
            spans_where(walk_nodes(body), |n: Expr| indexed_range_loop(n)),
            walk_nodes(body),
            |n: Expr| indexed_range_loop(n),
        ),
        spans_complete(
            spans_where(walk_nodes(body), |n: Expr| indexed_range_loop(n)),
            walk_nodes(body),
            |n: Expr| indexed_range_loop(n),
        ),
{
    lemma_spans_where(walk_nodes(body), |n: Expr| indexed_range_loop(n));
}

proof fn lemma_dos_visit(e: Expr)
    ensures
        spans_sound(dos_visit(e), visit_node(e), |n: Expr| unbounded_loop(n)),
        spans_complete(dos_visit(e), visit_node(e), |n: Expr| unbounded_loop(n)),
    decreases e, 2nat,
{
    let keep = |n: Expr| unbounded_loop(n);
    lemma_dos_walk(e);
    let w = dos_walk(e);
    let wn = walk_nodes(e);
    lemma_spans_single(e, keep);
    assert(visit_node(e) == seq![e] + wn);
    match for_loop_args(e) {
        Some(args) => if literal_end_range(args) {
            assert(!keep(e));
            lemma_spans_join(w, wn, w, wn, keep);
            let out = w + w;
            let ns = seq![e] + wn;
            assert forall|k: int| 0 <= k < out.len() implies #[trigger] kept_span(ns, keep, out[k]) by {
                let j = if k < w.len() { k } else { k - w.len() };
                assert(out[k] == w[j]);
                assert(kept_span(wn, keep, w[j]));
                let i = choose|i: int| 0 <= i < wn.len() && keep(#[trigger] wn[i]) && wn[i].span == w[j];
                assert(ns[i + 1] == wn[i]);
            }
            assert forall|i: int| 0 <= i < ns.len() && keep(#[trigger] ns[i]) implies exists|k: int|
                0 <= k < out.len() && out[k] == ns[i].span by {
                assert(i != 0);
                assert(ns[i] == wn[i - 1]);
                let k = choose|k: int| 0 <= k < w.len() && w[k] == wn[i - 1].span;
                assert(out[k] == w[k]);
            }
            assert(dos_visit(e) == out);
        } else {
            assert(keep(e));
            lemma_spans_join(seq![e.span], seq![e], w, wn, keep);
            assert(dos_visit(e) == seq![e.span] + w);
        },
        None => if unbounded_while(e) {
            assert(keep(e));
            lemma_spans_join(seq![e.span], seq![e], w, wn, keep);
            assert(dos_visit(e) == seq![e.span] + w);
        } else {
            assert(!keep(e));
            lemma_spans_join(Seq::empty(), seq![e], w, wn, keep);
            assert(Seq::<Span>::empty() + w =~= w);
            assert(dos_visit(e) == Seq::<Span>::empty() + w);
        },
    }
}

proof fn lemma_spans_empty(keep: spec_fn(Expr) -> bool)
    ensures
        spans_sound(Seq::empty(), Seq::empty(), keep),
        spans_complete(Seq::empty(), Seq::empty(), keep),
{
}

proof fn lemma_dos_walk(e: Expr)
    ensures
        spans_sound(dos_walk(e), walk_nodes(e), |n: Expr| unbounded_loop(n)),
        spans_complete(dos_walk(e), walk_nodes(e), |n: Expr| unbounded_loop(n)),
    decreases e, 1nat,
{
    let keep = |n: Expr| unbounded_loop(n);
    lemma_spans_empty(keep);
    match e.kind {
        ExprKind::Lit { .. } => {},
        ExprKind::Path(_) => {},
        ExprKind::MethodCall { receiver, args, .. } => {
            lemma_dos_visit(*receiver);
            lemma_dos_list(args@);
            lemma_spans_join(dos_visit(*receiver), visit_node(*receiver), dos_list(args@), visit_list(args@), keep);
        },
        ExprKind::Call { func, args } => {
            lemma_dos_visit(*func);
            lemma_dos_list(args@);
            lemma_spans_join(dos_visit(*func), visit_node(*func), dos_list(args@), visit_list(args@), keep);
        },
        ExprKind::Unary(_, x) => lemma_dos_visit(*x),
        ExprKind::Binary(_, l, r) => {
            lemma_dos_visit(*l);
            lemma_dos_visit(*r);
            lemma_spans_join(dos_visit(*l), visit_node(*l), dos_visit(*r), visit_node(*r), keep);
        },
        ExprKind::AssignOp(_, l, r) => {
            lemma_dos_visit(*l);
            lemma_dos_visit(*r);
            lemma_spans_join(dos_visit(*r), visit_node(*r), dos_visit(*l), visit_node(*l), keep);
        },
        ExprKind::Assign(l, r) => {
            lemma_dos_visit(*l);
            lemma_dos_visit(*r);
            lemma_spans_join(dos_visit(*r), visit_node(*r), dos_visit(*l), visit_node(*l), keep);
        },
        ExprKind::Index(a, b) => {
            lemma_dos_visit(*a);
            lemma_dos_visit(*b);
            lemma_spans_join(dos_visit(*a), visit_node(*a), dos_visit(*b), visit_node(*b), keep);
        },
        ExprKind::Field(x, _) => lemma_dos_visit(*x),
        ExprKind::Tup(es) => lemma_dos_list(es@),
        ExprKind::Array(es) => lemma_dos_list(es@),
        ExprKind::Struct { fields, base, .. } => {
            lemma_dos_list(fields@);
            match base {
                Some(b) => {
                    lemma_dos_visit(*b);
                    lemma_spans_join(dos_list(fields@), visit_list(fields@), dos_visit(*b), visit_node(*b), keep);
                },
                None => {
                    lemma_spans_join(dos_list(fields@), visit_list(fields@), Seq::empty(), Seq::empty(), keep);
                    assert(dos_list(fields@) + Seq::<Span>::empty() =~= dos_list(fields@));
                    assert(visit_list(fields@) + Seq::<Expr>::empty() =~= visit_list(fields@));
                },
            }
        },
        ExprKind::Repeat(x) => lemma_dos_visit(*x),
        ExprKind::If { cond, then, els } => {
            lemma_dos_visit(*cond);
            lemma_dos_visit(*then);
            lemma_spans_join(dos_visit(*cond), visit_node(*cond), dos_visit(*then), visit_node(*then), keep);
            let a = dos_visit(*cond) + dos_visit(*then);
            let na = visit_node(*cond) + visit_node(*then);
            match els {
                Some(x) => {
                    lemma_dos_visit(*x);
                    lemma_spans_join(a, na, dos_visit(*x), visit_node(*x), keep);
                },
                None => {
                    lemma_spans_join(a, na, Seq::empty(), Seq::empty(), keep);
                    assert(a + Seq::<Span>::empty() =~= a);
                    assert(na + Seq::<Expr>::empty() =~= na);
                },
            }
        },
        ExprKind::Ret(v) => match v {
            Some(x) => lemma_dos_visit(*x),
            None => {},
        },
        ExprKind::Match { scrutinee, arms, .. } => {
            lemma_dos_visit(*scrutinee);
            lemma_dos_arms(arms@);
            lemma_spans_join(dos_visit(*scrutinee), visit_node(*scrutinee), dos_arms(arms@), visit_arms(arms@), keep);
        },
        ExprKind::Loop { body, .. } => lemma_dos_list(body@),
        ExprKind::MacCall(_) => {},
        ExprKind::UnsafeBlock(es) => lemma_dos_list(es@),
        ExprKind::Other(es) => lemma_dos_list(es@),
    }
}

proof fn lemma_dos_list(es: Seq<Expr>)
    ensures
        spans_sound(dos_list(es), visit_list(es), |n: Expr| unbounded_loop(n)),
        spans_complete(dos_list(es), visit_list(es), |n: Expr| unbounded_loop(n)),
    decreases es, 0nat,
{
    let keep = |n: Expr| unbounded_loop(n);
    lemma_spans_empty(keep);
    if es.len() > 0 {
        let init = es.subrange(0, es.len() - 1);
        let last = es[es.len() - 1];
        lemma_dos_list(init);
        lemma_dos_visit(last);
        lemma_spans_join(dos_list(init), visit_list(init), dos_visit(last), visit_node(last), keep);
    }
}

proof fn lemma_dos_arm(a: Arm)
    ensures
        spans_sound(dos_arm(a), arm_nodes(a), |n: Expr| unbounded_loop(n)),
        spans_complete(dos_arm(a), arm_nodes(a), |n: Expr| unbounded_loop(n)),
    decreases a, 0nat,
{
    let keep = |n: Expr| unbounded_loop(n);
    lemma_spans_empty(keep);
    lemma_dos_visit(a.body);
    match a.guard {
        Some(g) => {
            lemma_dos_visit(g);
            lemma_spans_join(dos_visit(g), visit_node(g), dos_visit(a.body), visit_node(a.body), keep);
        },
        None => {
            lemma_spans_join(Seq::empty(), Seq::empty(), dos_visit(a.body), visit_node(a.body), keep);
            assert(Seq::<Span>::empty() + dos_visit(a.body) =~= dos_visit(a.body));
            assert(Seq::<Expr>::empty() + visit_node(a.body) =~= visit_node(a.body));
        },
    }
}

proof fn lemma_dos_arms(arms: Seq<Arm>)
    ensures
        spans_sound(dos_arms(arms), visit_arms(arms), |n: Expr| unbounded_loop(n)),
        spans_complete(dos_arms(arms), visit_arms(arms), |n: Expr| unbounded_loop(n)),
    decreases arms, 0nat,
{
    let keep = |n: Expr| unbounded_loop(n);
    lemma_spans_empty(keep);
    if arms.len() > 0 {
        let init = arms.subrange(0, arms.len() - 1);
        let last = arms[arms.len() - 1];
        lemma_dos_arms(init);
        lemma_dos_arm(last);
        lemma_spans_join(dos_arms(init), visit_arms(init), dos_arm(last), arm_nodes(last), keep);
    }
}

/// Law: the unbounded-operation detector reports, in a method's body,
/// exactly the `for` loops whose range does not end in an integer literal
/// and the `while` loops whose condition is not bounded by one: every
/// reported span is the span of such a loop inside the body (a loop with a
/// literal bound is never reported itself), and every such loop is
/// reported.
pub proof fn lemma_dos_reports_exactly_unbounded_loops(body: Expr)
    ensures
        spans_sound(dos_walk(body), walk_nodes(body), |n: Expr| unbounded_loop(n)),
        spans_complete(dos_walk(body), walk_nodes(body), |n: Expr| unbounded_loop(n)),
{
    lemma_dos_walk(body);
}

} // verus!
