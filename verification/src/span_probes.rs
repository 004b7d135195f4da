//! Detectors that report every expression of one shape inside a body or an
//! expression: `^` used as if it were exponentiation, `unwrap` calls, and
//! divisions inside a multiplication. The walk over the subexpressions is the
//! compiler visitor's walk over the model (`walk_nodes`).
use vstd::prelude::*;
use crate::mir::Span;
use crate::hir::{Arm, BinOp, Expr, ExprKind, PathSegment, QPath, arm_nodes, visit_arms, visit_list, visit_node, walk_nodes, Attribute};
use crate::early_lints::{attr_is_present, ink_attr_present};
use crate::text::text_eq;

verus! {

/// The shape of expression that a detector looks for.
#[derive(Clone, Copy, PartialEq, Eq, Structural, Debug)]
pub enum Probe {
    /// A binary `^`.
    BitXor,
    /// A binary `/`.
    Division,
    /// A method call named `unwrap`.
    UnwrapCall,
    /// A method call named `instantiate_contract_v1`.
    InstantiateContractV1Call,
    /// A path with a segment named `invoke_contract_v1`.
    InvokeContractV1Path,
    /// `self.env().transferred_value()`.
    SelfEnvTransferredValue,
}

/// Whether `e` is `self.env().transferred_value()`.
pub open spec fn self_env_transferred_value(e: Expr) -> bool {
    match e.kind {
        ExprKind::MethodCall { name, receiver, .. } => name@ == "transferred_value"@
            && match receiver.kind {
            ExprKind::MethodCall { name, receiver, .. } => name@ == "env"@ && match receiver.kind {
                ExprKind::Path(QPath::Resolved { with_self_type, segments, .. }) => !with_self_type
                    && segments@.len() == 1 && segments@[0].name@ == "self"@,
                _ => false,
            },
            _ => false,
        },
        _ => false,
    }
}

/// Whether `e` is a path with a segment named `invoke_contract_v1`.
pub open spec fn invoke_v1_path(e: Expr) -> bool {
    match e.kind {
        ExprKind::Path(QPath::Resolved { segments, .. }) => exists|k: int|
            0 <= k < segments@.len() && (#[trigger] segments@[k]).name@ == "invoke_contract_v1"@,
        _ => false,
    }
}

/// Whether `e` has the shape `p` looks for.
pub open spec fn probe_hit(p: Probe, e: Expr) -> bool {
    match p {
        Probe::BitXor => e.kind matches ExprKind::Binary(op, _, _) && op == BinOp::BitXor,
        Probe::Division => e.kind matches ExprKind::Binary(op, _, _) && op == BinOp::Div,
        Probe::UnwrapCall => e.kind matches ExprKind::MethodCall { name, .. } && name@ == "unwrap"@,
        Probe::InstantiateContractV1Call => e.kind matches ExprKind::MethodCall { name, .. }
            && name@ == "instantiate_contract_v1"@,
        Probe::InvokeContractV1Path => invoke_v1_path(e),
        Probe::SelfEnvTransferredValue => self_env_transferred_value(e),
    }
}

/// The spans of the expressions of `nodes` that have the shape `p`, in order.
pub open spec fn probe_spans(nodes: Seq<Expr>, p: Probe) -> Seq<Span>
    decreases nodes.len(),
{
    if nodes.len() == 0 {
        Seq::empty()
    } else {
        probe_spans(nodes.drop_last(), p) + if probe_hit(p, nodes.last()) {
            seq![nodes.last().span]
        } else {
            Seq::empty()
        }
    }
}

proof fn lemma_probe_spans_add(a: Seq<Expr>, b: Seq<Expr>, p: Probe)
    ensures
        probe_spans(a + b, p) == probe_spans(a, p) + probe_spans(b, p),
    decreases b.len(),
{
    if b.len() == 0 {
        assert(a + b =~= a);
        assert(probe_spans(b, p) =~= Seq::<Span>::empty());
        assert(probe_spans(a, p) + probe_spans(b, p) =~= probe_spans(a, p));
    } else {
        lemma_probe_spans_add(a, b.drop_last(), p);
        assert((a + b).drop_last() =~= a + b.drop_last());
        assert((a + b).last() == b.last());
        assert(probe_spans(a + b, p) =~= probe_spans(a, p) + probe_spans(b, p));
    }
}

/// The expressions that walking the subexpressions of `e` visits, in walk
/// order, by reference.
pub fn walk_node_refs<'a>(e: &'a Expr) -> (r: Vec<&'a Expr>)
    ensures
        r@.len() == walk_nodes(*e).len(),
        forall|i: int| 0 <= i < r@.len() ==> *r@[i] == walk_nodes(*e)[i],
    decreases e, 1nat,
{
    match &e.kind {
        ExprKind::Lit { .. } => Vec::new(),
        ExprKind::Path(_) => Vec::new(),
        ExprKind::MethodCall { receiver, args, .. } => join_refs(
            visit_node_refs(receiver),
            list_node_refs(args),
        ),
        ExprKind::Call { func, args } => join_refs(visit_node_refs(func), list_node_refs(args)),
        ExprKind::Unary(_, x) => visit_node_refs(x),
        ExprKind::Binary(_, l, rr) => join_refs(visit_node_refs(l), visit_node_refs(rr)),
        ExprKind::AssignOp(_, l, rr) => join_refs(visit_node_refs(rr), visit_node_refs(l)),
        ExprKind::Assign(l, rr) => join_refs(visit_node_refs(rr), visit_node_refs(l)),
        ExprKind::Index(x, y) => join_refs(visit_node_refs(x), visit_node_refs(y)),
        ExprKind::Field(x, _) => visit_node_refs(x),
        ExprKind::Tup(es) => list_node_refs(es),
        ExprKind::Array(es) => list_node_refs(es),
        ExprKind::Struct { fields, base, .. } => {
            let a = list_node_refs(fields);
            match base {
                Some(b) => join_refs(a, visit_node_refs(b)),
                None => a,
            }
        },
        ExprKind::Repeat(x) => visit_node_refs(x),
        ExprKind::If { cond, then, els } => {
            let a = join_refs(visit_node_refs(cond), visit_node_refs(then));
            match els {
                Some(x) => join_refs(a, visit_node_refs(x)),
                None => a,
            }
        },
        ExprKind::Ret(v) => match v {
            Some(x) => visit_node_refs(x),
            None => Vec::new(),
        },
        ExprKind::Match { scrutinee, arms, .. } => join_refs(
            visit_node_refs(scrutinee),
            arms_node_refs(arms),
        ),
        ExprKind::Loop { body, .. } => list_node_refs(body),
        ExprKind::MacCall(_) => Vec::new(),
        ExprKind::UnsafeBlock(es) => list_node_refs(es),
        ExprKind::Other(es) => list_node_refs(es),
    }
}

fn join_refs<'a>(mut a: Vec<&'a Expr>, mut b: Vec<&'a Expr>) -> (r: Vec<&'a Expr>)
    ensures
        r@ == a@ + b@,
{
    a.append(&mut b);
    a
}

/// The expressions that visiting `e` visits, by reference.
pub fn visit_node_refs<'a>(e: &'a Expr) -> (r: Vec<&'a Expr>)
    ensures
        r@.len() == visit_node(*e).len(),
        forall|i: int| 0 <= i < r@.len() ==> *r@[i] == visit_node(*e)[i],
    decreases e, 2nat,
{
    let mut r: Vec<&'a Expr> = Vec::new();
    r.push(e);
    let rest = walk_node_refs(e);
    join_refs(r, rest)
}

fn arms_node_refs<'a>(arms: &'a Vec<Arm>) -> (r: Vec<&'a Expr>)
    ensures
        r@.len() == visit_arms(arms@).len(),
        forall|i: int| 0 <= i < r@.len() ==> *r@[i] == visit_arms(arms@)[i],
    decreases arms, 0nat,
{
    let mut r: Vec<&'a Expr> = Vec::new();
    let mut i: usize = 0;
    assert(arms@.subrange(0, 0) =~= Seq::<Arm>::empty());
    while i < arms.len()
        invariant
            0 <= i <= arms@.len(),
            r@.len() == visit_arms(arms@.subrange(0, i as int)).len(),
            forall|k: int|
                0 <= k < r@.len() ==> *r@[k] == visit_arms(arms@.subrange(0, i as int))[k],
        decreases arms@.len() - i,
    {
        let a = &arms[i];
        assert(decreases_to!(arms => arms@[i as int].body));
        let g = match &a.guard {
            Some(g) => {
                assert(decreases_to!(arms => g));
                visit_node_refs(g)
            },
            None => Vec::new(),
        };
        let more = join_refs(g, visit_node_refs(&a.body));
        assert(more@.len() == arm_nodes(arms@[i as int]).len());
        assert(forall|k: int| 0 <= k < more@.len() ==> *more@[k] == arm_nodes(arms@[i as int])[k]);
        proof {
            let s = arms@.subrange(0, i + 1);
            assert(s.subrange(0, s.len() - 1) =~= arms@.subrange(0, i as int));
            assert(s[s.len() - 1] == arms@[i as int]);
        }
        r = join_refs(r, more);
        i = i + 1;
    }
    assert(arms@.subrange(0, arms@.len() as int) =~= arms@);
    r
}

fn list_node_refs<'a>(es: &'a Vec<Expr>) -> (r: Vec<&'a Expr>)
    ensures
        r@.len() == visit_list(es@).len(),
        forall|i: int| 0 <= i < r@.len() ==> *r@[i] == visit_list(es@)[i],
    decreases es, 0nat,
{
    let mut r: Vec<&'a Expr> = Vec::new();
    let mut i: usize = 0;
    assert(es@.subrange(0, 0) =~= Seq::<Expr>::empty());
    while i < es.len()
        invariant
            0 <= i <= es@.len(),
            r@.len() == visit_list(es@.subrange(0, i as int)).len(),
            forall|k: int| 0 <= k < r@.len() ==> *r@[k] == visit_list(es@.subrange(0, i as int))[k],
        decreases es@.len() - i,
    {
        assert(decreases_to!(es => es@[i as int]));
        let more = visit_node_refs(&es[i]);
        proof {
            let s = es@.subrange(0, i + 1);
            assert(s.subrange(0, s.len() - 1) =~= es@.subrange(0, i as int));
            assert(s[s.len() - 1] == es@[i as int]);
        }
        r = join_refs(r, more);
        i = i + 1;
    }
    assert(es@.subrange(0, es@.len() as int) =~= es@);
    r
}

/// Whether `e` has the shape `p`.
pub fn probe_matches(p: Probe, e: &Expr) -> (b: bool)
    ensures
        b == probe_hit(p, *e),
{
    match p {
        Probe::BitXor => match &e.kind {
            ExprKind::Binary(op, _, _) => *op == BinOp::BitXor,
            _ => false,
        },
        Probe::Division => match &e.kind {
            ExprKind::Binary(op, _, _) => *op == BinOp::Div,
            _ => false,
        },
        Probe::UnwrapCall => match &e.kind {
            ExprKind::MethodCall { name, .. } => text_eq(name.as_str(), "unwrap"),
            _ => false,
        },
        Probe::InstantiateContractV1Call => match &e.kind {
            ExprKind::MethodCall { name, .. } => text_eq(name.as_str(), "instantiate_contract_v1"),
            _ => false,
        },
        Probe::InvokeContractV1Path => match &e.kind {
            ExprKind::Path(QPath::Resolved { segments, .. }) => names_invoke_v1(segments),
            _ => false,
        },
        Probe::SelfEnvTransferredValue => is_self_env_transferred_value(e),
    }
}

fn names_invoke_v1(segments: &Vec<PathSegment>) -> (b: bool)
    ensures
        b == exists|k: int|
            0 <= k < segments@.len() && (#[trigger] segments@[k]).name@ == "invoke_contract_v1"@,
{
    let mut k: usize = 0;
    while k < segments.len()
        invariant
            0 <= k <= segments@.len(),
            forall|j: int| 0 <= j < k ==> (#[trigger] segments@[j]).name@ != "invoke_contract_v1"@,
        decreases segments@.len() - k,
    {
        if text_eq(segments[k].name.as_str(), "invoke_contract_v1") {
            return true;
        }
        k = k + 1;
    }
    false
}

/// Whether `e` is `self.env().transferred_value()`.
pub fn is_self_env_transferred_value(e: &Expr) -> (b: bool)
    ensures
        b == self_env_transferred_value(*e),
{
    if let ExprKind::MethodCall { name, receiver, .. } = &e.kind {
        if text_eq(name.as_str(), "transferred_value") {
            if let ExprKind::MethodCall { name: inner, receiver: base, .. } = &receiver.kind {
                if text_eq(inner.as_str(), "env") {
                    if let ExprKind::Path(QPath::Resolved { with_self_type, segments, .. }) =
                        &base.kind {
                        return !*with_self_type && segments.len() == 1 && text_eq(
                            segments[0].name.as_str(),
                            "self",
                        );
                    }
                }
            }
        }
    }
    false
}

fn join_spans(mut a: Vec<Span>, mut b: Vec<Span>) -> (r: Vec<Span>)
    ensures
        r@ == a@ + b@,
{
    a.append(&mut b);
    a
}

/// The spans of the expressions of shape `p` that visiting `e` visits.
pub fn visit_spans(e: &Expr, p: Probe) -> (r: Vec<Span>)
    ensures
        r@ == probe_spans(visit_node(*e), p),
    decreases e, 2nat,
{
    let inner = walk_spans(e, p);
    let mut r: Vec<Span> = Vec::new();
    if probe_matches(p, e) {
        r.push(e.span);
    }
    proof {
        lemma_probe_spans_add(seq![*e], walk_nodes(*e), p);
        assert(seq![*e].drop_last() =~= Seq::<Expr>::empty());
        assert(seq![*e].last() == *e);
        assert(probe_spans(Seq::<Expr>::empty(), p) =~= Seq::<Span>::empty());
        assert(probe_spans(seq![*e], p) =~= r@);
    }
    join_spans(r, inner)
}

/// The spans of the expressions of shape `p` that walking the
/// subexpressions of `e` visits, in walk order.
pub fn walk_spans(e: &Expr, p: Probe) -> (r: Vec<Span>)
    ensures
        r@ == probe_spans(walk_nodes(*e), p),
{
    let nodes = walk_node_refs(e);
    let ghost ns = walk_nodes(*e);
    let mut r: Vec<Span> = Vec::new();
    let mut i: usize = 0;
    assert(ns.take(0) =~= Seq::<Expr>::empty());
    while i < nodes.len()
        invariant
            0 <= i <= nodes@.len(),
            nodes@.len() == ns.len(),
            ns == walk_nodes(*e),
            forall|k: int| 0 <= k < nodes@.len() ==> *nodes@[k] == ns[k],
            r@ == probe_spans(ns.take(i as int), p),
        decreases nodes@.len() - i,
    {
        let n = nodes[i];
        assert(ns.take(i as int + 1).drop_last() =~= ns.take(i as int));
        assert(ns.take(i as int + 1).last() == *n);
        if probe_matches(p, n) {
            r.push(n.span);
        }
        i = i + 1;
    }
    assert(ns.take(ns.len() as int) =~= ns);
    r
}

/// The divisions inside `e`, in walk order.
pub fn get_divisions_inside_expr(e: &Expr) -> (r: Vec<Span>)
    ensures
        r@ == probe_spans(walk_nodes(*e), Probe::Division),
{
    walk_spans(e, Probe::Division)
}

/// The divide-before-multiply detector: a multiplication reports every
/// division inside it, which loses precision before the product is formed.
pub struct DivideBeforeMultiply {}

impl DivideBeforeMultiply {
    /// The detector.
    pub fn new() -> (r: Self) {
        DivideBeforeMultiply {  }
    }

    /// The spans to report for the expression `e`: the divisions inside it
    /// when it is a multiplication, nothing otherwise.
    pub fn check_expr(&self, e: &Expr) -> (r: Vec<Span>)
        ensures
            r@ == if e.kind matches ExprKind::Binary(op, _, _) && op == BinOp::Mul {
                probe_spans(walk_nodes(*e), Probe::Division)
            } else {
                Seq::empty()
            },
    {
        if let ExprKind::Binary(op, _, _) = &e.kind {
            if *op == BinOp::Mul {
                return get_divisions_inside_expr(e);
            }
        }
        Vec::new()
    }
}

/// The incorrect-exponentiation detector: every `^` in a function body is
/// reported, since it is a bitwise XOR and not a power.
pub struct IncorrectExponentiation {}

impl IncorrectExponentiation {
    /// The detector.
    pub fn new() -> (r: Self) {
        IncorrectExponentiation {  }
    }

    /// The spans of the `^` operations in the body `body`, in walk order.
    pub fn check_fn(&self, body: &Expr) -> (r: Vec<Span>)
        ensures
            r@ == probe_spans(walk_nodes(*body), Probe::BitXor),
    {
        walk_spans(body, Probe::BitXor)
    }
}

/// The unsafe-unwrap detector: every `unwrap` call in a function body is
/// reported.
pub struct UnsafeUnwrap {}

impl UnsafeUnwrap {
    /// The detector.
    pub fn new() -> (r: Self) {
        UnsafeUnwrap {  }
    }

    /// The spans of the `unwrap` calls in the body `body`, in walk order.
    pub fn check_fn(&self, body: &Expr) -> (r: Vec<Span>)
        ensures
            r@ == probe_spans(walk_nodes(*body), Probe::UnwrapCall),
    {
        walk_spans(body, Probe::UnwrapCall)
    }
}

/// The detector of `instantiate_contract_v1` calls.
pub struct DontUseInstantiateContractV1 {}

impl DontUseInstantiateContractV1 {
    /// The detector.
    pub fn new() -> (r: Self) {
        DontUseInstantiateContractV1 {  }
    }

    /// The spans of the `instantiate_contract_v1` calls in the body `body`.
    pub fn check_fn(&self, body: &Expr) -> (r: Vec<Span>)
        ensures
            r@ == probe_spans(walk_nodes(*body), Probe::InstantiateContractV1Call),
    {
        walk_spans(body, Probe::InstantiateContractV1Call)
    }
}

/// The detector of paths to `invoke_contract_v1`.
pub struct DontUseInvokeContractV1 {}

impl DontUseInvokeContractV1 {
    /// The detector.
    pub fn new() -> (r: Self) {
        DontUseInvokeContractV1 {  }
    }

    /// The spans of the paths naming `invoke_contract_v1` in the body
    /// `body`, the body expression itself included.
    pub fn check_fn(&self, body: &Expr) -> (r: Vec<Span>)
        ensures
            r@ == probe_spans(visit_node(*body), Probe::InvokeContractV1Path),
    {
        visit_spans(body, Probe::InvokeContractV1Path)
    }
}

/// The non-payable-transferred-value detector: an `#[ink(message)]` that is
/// not `#[ink(payable)]` reads `self.env().transferred_value()`, which is
/// always zero there.
pub struct NonPayableTransferredValue {}

impl NonPayableTransferredValue {
    /// The detector.
    pub fn new() -> (r: Self) {
        NonPayableTransferredValue {  }
    }

    /// The spans to report for an associated item with attributes `attrs`:
    /// for a function (`is_fn`) with a body that is a message and not
    /// payable, every read of the transferred value in the body.
    pub fn check_impl_item(&self, attrs: &Vec<Attribute>, is_fn: bool, body: Option<&Expr>) -> (r:
        Vec<Span>)
        ensures
            r@ == if is_fn && !ink_attr_present(attrs@, "payable"@) && ink_attr_present(
                attrs@,
                "message"@,
            ) && body is Some {
                probe_spans(walk_nodes(*body->0), Probe::SelfEnvTransferredValue)
            } else {
                Seq::empty()
            },
    {
        if is_fn && !attr_is_present(attrs, "payable") && attr_is_present(attrs, "message") {
            if let Some(b) = body {
                return walk_spans(b, Probe::SelfEnvTransferredValue);
            }
        }
        Vec::new()
    }
}

/// Every reported span is the span of an expression of the probed shape
/// among the walked ones.
pub proof fn lemma_probe_spans_sound(nodes: Seq<Expr>, p: Probe, k: int)
    requires
        0 <= k < probe_spans(nodes, p).len(),
    ensures
        exists|i: int|
            0 <= i < nodes.len() && probe_hit(p, #[trigger] nodes[i]) && nodes[i].span
                == probe_spans(nodes, p)[k],
    decreases nodes.len(),
{
    let prev = probe_spans(nodes.drop_last(), p);
    if k < prev.len() {
        lemma_probe_spans_sound(nodes.drop_last(), p, k);
        let i = choose|i: int|
            0 <= i < nodes.drop_last().len() && probe_hit(p, #[trigger] nodes.drop_last()[i])
                && nodes.drop_last()[i].span == prev[k];
        assert(nodes[i] == nodes.drop_last()[i]);
    } else {
        assert(probe_hit(p, nodes[nodes.len() - 1]));
    }
}

/// Every expression of the probed shape is reported: the number of reports
/// is the number of such expressions.
pub proof fn lemma_probe_spans_complete(nodes: Seq<Expr>, p: Probe)
    ensures
        probe_spans(nodes, p).len() == nodes.filter(|e: Expr| probe_hit(p, e)).len(),
    decreases nodes.len(),
{
    reveal(Seq::filter);
    if nodes.len() > 0 {
        lemma_probe_spans_complete(nodes.drop_last(), p);
    }
}

} // verus!
