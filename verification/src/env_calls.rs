//! Finding, in a function body, the functions that method calls resolve
//! to. The compiler resolves a method call to the function it calls, and
//! knows the type of each receiver; the converter hands both over, as lists
//! of pairs of a node id and the called function's number, and of a node id
//! and the printed type of that expression.
use crate::hir::{Expr, ExprKind, QPath, walk_nodes};
use crate::span_probes::walk_node_refs;
use crate::text::{contains_text, text_contains, text_eq};
use vstd::prelude::*;

verus! {

/// Whether `e` is a call `self.env().method()`: a method call named
/// `method` on a call of `env` on a plain path whose first segment is
/// `self`.
pub open spec fn self_env_call(e: Expr, method: Seq<char>) -> bool {
    match e.kind {
        ExprKind::MethodCall { name, receiver, .. } => name@ == method && match receiver.kind {
            ExprKind::MethodCall { name, receiver, .. } => name@ == "env"@ && match receiver.kind {
                ExprKind::Path(QPath::Resolved { with_self_type, segments, .. }) => !with_self_type
                    && segments@.len() > 0 && segments@[0].name@ == "self"@,
                _ => false,
            },
            _ => false,
        },
        _ => false,
    }
}

/// The function that the call with node id `id` resolves to: the first
/// entry of `resolved` for that node, if there is one.
pub open spec fn resolved_def(resolved: Seq<(u64, u64)>, id: u64) -> Option<u64>
    decreases resolved.len(),
{
    if resolved.len() == 0 {
        None
    } else if resolved[0].0 == id {
        Some(resolved[0].1)
    } else {
        resolved_def(resolved.drop_first(), id)
    }
}

/// What the last `self.env().method()` call among `nodes` resolves to
/// (`None` when there is no such call, or the last one is unresolved).
pub open spec fn last_env_call_def(nodes: Seq<Expr>, method: Seq<char>, resolved: Seq<(u64, u64)>) -> Option<u64>
    decreases nodes.len(),
{
    if nodes.len() == 0 {
        None
    } else if self_env_call(nodes.last(), method) {
        resolved_def(resolved, nodes.last().hir_id)
    } else {
        last_env_call_def(nodes.drop_last(), method, resolved)
    }
}

/// Whether `e` is a call `self.env().method()`.
pub fn is_self_env_call(e: &Expr, method: &str) -> (b: bool)
    ensures
        b == self_env_call(*e, method@),
{
    if let ExprKind::MethodCall { name, receiver, .. } = &e.kind {
        if text_eq(name.as_str(), method) {
            if let ExprKind::MethodCall { name: inner, receiver: base, .. } = &receiver.kind {
                if text_eq(inner.as_str(), "env") {
                    if let ExprKind::Path(QPath::Resolved { with_self_type, segments, .. }) =
                        &base.kind {
                        return !*with_self_type && segments.len() > 0 && text_eq(
                            segments[0].name.as_str(),
                            "self",
                        );
                    }
                }
            }
        }
    }
    false
}

/// The function that the call with node id `id` resolves to.
pub fn resolved_def_of(resolved: &Vec<(u64, u64)>, id: u64) -> (r: Option<u64>)
    ensures
        r == resolved_def(resolved@, id),
{
    let mut i: usize = 0;
    assert(resolved@.subrange(0, resolved@.len() as int) =~= resolved@);
    while i < resolved.len()
        invariant
            0 <= i <= resolved@.len(),
            resolved_def(resolved@, id) == resolved_def(
                resolved@.subrange(i as int, resolved@.len() as int),
                id,
            ),
        decreases resolved@.len() - i,
    {
        let ghost rest = resolved@.subrange(i as int, resolved@.len() as int);
        assert(rest[0] == resolved@[i as int]);
        if resolved[i].0 == id {
            return Some(resolved[i].1);
        }
        assert(rest.drop_first() =~= resolved@.subrange(i + 1, resolved@.len() as int));
        i = i + 1;
    }
    None
}

/// What the last `self.env().method()` call in the body `body` resolves
/// to, walking the body as the compiler's visitor does.
pub fn env_call_def(body: &Expr, method: &str, resolved: &Vec<(u64, u64)>) -> (r: Option<u64>)
    ensures
        r == last_env_call_def(walk_nodes(*body), method@, resolved@),
{
    let nodes = walk_node_refs(body);
    let ghost ns = walk_nodes(*body);
    let mut cur: Option<u64> = None;
    let mut i: usize = 0;
    assert(ns.take(0) =~= Seq::<Expr>::empty());
    while i < nodes.len()
        invariant
            0 <= i <= nodes@.len(),
            nodes@.len() == ns.len(),
            ns == walk_nodes(*body),
            forall|k: int| 0 <= k < nodes@.len() ==> *nodes@[k] == ns[k],
            cur == last_env_call_def(ns.take(i as int), method@, resolved@),
        decreases nodes@.len() - i,
    {
        let n = nodes[i];
        assert(ns.take(i as int + 1).drop_last() =~= ns.take(i as int));
        assert(ns.take(i as int + 1).last() == *n);
        if is_self_env_call(n, method) {
            cur = resolved_def_of(resolved, n.hir_id);
        }
        i = i + 1;
    }
    assert(ns.take(ns.len() as int) =~= ns);
    cur
}

/// The printed type of the expression with node id `id`: the first entry
/// of `types` for that node, if there is one.
pub open spec fn type_text(types: Seq<(u64, String)>, id: u64) -> Option<Seq<char>>
    decreases types.len(),
{
    if types.len() == 0 {
        None
    } else if types[0].0 == id {
        Some(types[0].1@)
    } else {
        type_text(types.drop_first(), id)
    }
}

/// Whether the printed type of the expression `id` contains `pattern`.
pub open spec fn typed_as(types: Seq<(u64, String)>, id: u64, pattern: Seq<char>) -> bool {
    type_text(types, id) matches Some(t) && contains_text(t, pattern)
}

/// What the last expression among `nodes` that `keep` holds of resolves to
/// (`None` when there is none, or the last one is unresolved).
pub open spec fn last_def_where(nodes: Seq<Expr>, resolved: Seq<(u64, u64)>, keep: spec_fn(Expr) -> bool) -> Option<u64>
    decreases nodes.len(),
{
    if nodes.len() == 0 {
        None
    } else if keep(nodes.last()) {
        resolved_def(resolved, nodes.last().hir_id)
    } else {
        last_def_where(nodes.drop_last(), resolved, keep)
    }
}

/// Whether the printed type of the expression `id` contains `pattern`.
pub fn is_typed_as(types: &Vec<(u64, String)>, id: u64, pattern: &str) -> (b: bool)
    ensures
        b == typed_as(types@, id, pattern@),
{
    let mut i: usize = 0;
    assert(types@.subrange(0, types@.len() as int) =~= types@);
    while i < types.len()
        invariant
            0 <= i <= types@.len(),
            type_text(types@, id) == type_text(types@.subrange(i as int, types@.len() as int), id),
        decreases types@.len() - i,
    {
        let ghost rest = types@.subrange(i as int, types@.len() as int);
        assert(rest[0] == types@[i as int]);
        if types[i].0 == id {
            return text_contains(types[i].1.as_str(), pattern);
        }
        assert(rest.drop_first() =~= types@.subrange(i + 1, types@.len() as int));
        i = i + 1;
    }
    false
}

/// Whether `e` is a method call named `method`.
pub open spec fn method_call_named(e: Expr, method: Seq<char>) -> bool {
    e.kind matches ExprKind::MethodCall { name, .. } && name@ == method
}

/// What the last method call named `method` in the body `body` resolves
/// to, walking the body as the compiler's visitor does.
pub fn method_call_def(body: &Expr, method: &str, resolved: &Vec<(u64, u64)>) -> (r: Option<u64>)
    ensures
        r == last_def_where(walk_nodes(*body), resolved@, |n: Expr| method_call_named(n, method@)),
{
    let nodes = walk_node_refs(body);
    let ghost ns = walk_nodes(*body);
    let mut cur: Option<u64> = None;
    let mut i: usize = 0;
    assert(ns.take(0) =~= Seq::<Expr>::empty());
    while i < nodes.len()
        invariant
            0 <= i <= nodes@.len(),
            nodes@.len() == ns.len(),
            ns == walk_nodes(*body),
            forall|k: int| 0 <= k < nodes@.len() ==> *nodes@[k] == ns[k],
            cur == last_def_where(ns.take(i as int), resolved@, |n: Expr| method_call_named(n, method@)),
        decreases nodes@.len() - i,
    {
        let n = nodes[i];
        assert(ns.take(i as int + 1).drop_last() =~= ns.take(i as int));
        assert(ns.take(i as int + 1).last() == *n);
        if let ExprKind::MethodCall { name, .. } = &n.kind {
            if text_eq(name.as_str(), method) {
                cur = resolved_def_of(resolved, n.hir_id);
            }
        }
        i = i + 1;
    }
    assert(ns.take(ns.len() as int) =~= ns);
    cur
}

} // verus!
