//! The decisions of the delegate-call detector.
//!
//! The detector warns about a `delegate(..)` call one of whose arguments
//! refers to a parameter of the enclosing function: the caller would choose
//! the code that runs with the contract's storage. The compiler's visitor
//! walks every expression of the body; the visitor's state is a
//! `DelegateCallStorage`.
use vstd::prelude::*;
use crate::mir::Span;
use crate::hir::{Expr, ExprKind, QPath, PathSegment, segment_ids};
use crate::text::text_eq;

verus! {

/// The node ids that an argument expression refers to: its own, and for a
/// resolved path the local it names and the ids of its segments, for a
/// language-item path the id it carries.
pub open spec fn arg_ids(arg: Expr) -> Set<u64> {
    let own = set![arg.hir_id];
    match arg.kind {
        ExprKind::Path(QPath::Resolved { res_local, segments, .. }) => {
            let named = match res_local {
                Some(l) => own.insert(l),
                None => own,
            };
            named.union(segment_ids(segments@).to_set())
        },
        ExprKind::Path(QPath::LangItem { hir_id: Some(l), .. }) => own.insert(l),
        _ => own,
    }
}

/// The span of `e` if it is a `delegate` call with an argument that refers
/// to one of the parameter bindings `params` (a parameter whose pattern is
/// not a plain binding is `None`).
pub open spec fn delegate_span(e: Expr, params: Seq<Option<u64>>) -> Option<Span> {
    match e.kind {
        ExprKind::MethodCall { name, args, .. } => if name@ == "delegate"@ && exists|p: int, a: int|
            #![trigger args@[a], params[p]]
            0 <= p < params.len() && 0 <= a < args@.len() && params[p] is Some && arg_ids(
                args@[a],
            ).contains(params[p]->0) {
            Some(e.span)
        } else {
            None
        },
        _ => None,
    }
}

fn segment_has_id(segments: &Vec<PathSegment>, id: u64) -> (b: bool)
    ensures
        b == segment_ids(segments@).contains(id),
{
    let mut j: usize = 0;
    while j < segments.len()
        invariant
            0 <= j <= segments@.len(),
            forall|t: int| 0 <= t < j ==> (#[trigger] segments@[t]).hir_id != id,
        decreases segments@.len() - j,
    {
        if segments[j].hir_id == id {
            assert(segment_ids(segments@)[j as int] == id);
            return true;
        }
        j = j + 1;
    }
    assert(!segment_ids(segments@).contains(id)) by {
        assert forall|t: int|
            0 <= t < segments@.len() implies #[trigger] segment_ids(segments@)[t] != id by {
            assert(segments@[t].hir_id != id);
        }
    }
    false
}

/// Whether the parameter binding `id` is among the ids that `arg` refers to.
fn refers_to(arg: &Expr, id: u64) -> (b: bool)
    ensures
        b == arg_ids(*arg).contains(id),
{
    if arg.hir_id == id {
        return true;
    }
    match &arg.kind {
        ExprKind::Path(QPath::Resolved { res_local, segments, .. }) => {
            if *res_local == Some(id) {
                return true;
            }
            segment_has_id(segments, id)
        },
        ExprKind::Path(QPath::LangItem { hir_id: Some(l), .. }) => *l == id,
        _ => false,
    }
}

/// Whether some argument refers to some parameter binding.
fn any_param_referenced(args: &Vec<Expr>, params: &Vec<Option<u64>>) -> (b: bool)
    ensures
        b == exists|p: int, a: int|
            #![trigger args@[a], params@[p]]
            0 <= p < params@.len() && 0 <= a < args@.len() && params@[p] is Some && arg_ids(
                args@[a],
            ).contains(params@[p]->0),
{
    let mut p: usize = 0;
    while p < params.len()
        invariant
            0 <= p <= params@.len(),
            forall|q: int, a: int|
                #![trigger args@[a], params@[q]]
                0 <= q < p && 0 <= a < args@.len() && params@[q] is Some ==> !arg_ids(
                    args@[a],
                ).contains(params@[q]->0),
        decreases params@.len() - p,
    {
        if let Some(pid) = params[p] {
            let mut a: usize = 0;
            while a < args.len()
                invariant
                    0 <= a <= args@.len(),
                    p < params@.len(),
                    params@[p as int] == Some(pid),
                    forall|c: int| 0 <= c < a ==> !arg_ids(#[trigger] args@[c]).contains(pid),
                decreases args@.len() - a,
            {
                if refers_to(&args[a], pid) {
                    assert(arg_ids(args@[a as int]).contains(params@[p as int]->0));
                    return true;
                }
                a = a + 1;
            }
        }
        p = p + 1;
    }
    false
}

/// The span of `e` if it is a `delegate` call with an argument that refers
/// to a parameter of the function.
pub fn check_delegate_call(e: &Expr, params: &Vec<Option<u64>>) -> (r: Option<Span>)
    ensures
        r == delegate_span(*e, params@),
{
    if let ExprKind::MethodCall { name, args, .. } = &e.kind {
        if text_eq(name.as_str(), "delegate") && any_param_referenced(args, params) {
            return Some(e.span);
        }
    }
    None
}

/// The state of the delegate-call visitor.
pub struct DelegateCallStorage {
    /// The span of the last vulnerable `delegate` call seen.
    pub span: Option<Span>,
    pub has_vulnerable_delegate: bool,
}

impl DelegateCallStorage {
    /// A vulnerable call was recorded only together with its span.
    pub open spec fn wf(&self) -> bool {
        self.has_vulnerable_delegate ==> self.span.is_some()
    }

    /// The state at the start of a function body.
    pub fn new() -> (r: Self)
        ensures
            r.wf(),
            !r.has_vulnerable_delegate,
            r.span.is_none(),
    {
        DelegateCallStorage { span: None, has_vulnerable_delegate: false }
    }

    /// Visits an expression of a body whose parameters bind `params`; its
    /// children are walked afterwards.
    pub fn visit_expr(&mut self, e: &Expr, params: &Vec<Option<u64>>)
        requires
            old(self).wf(),
        ensures
            final(self).wf(),
            final(self).has_vulnerable_delegate == (old(self).has_vulnerable_delegate
                || delegate_span(*e, params@).is_some()),
            final(self).span == if delegate_span(*e, params@).is_some() {
                delegate_span(*e, params@)
            } else {
                old(self).span
            },
    {
        let span = check_delegate_call(e, params);
        if span.is_some() {
            self.has_vulnerable_delegate = true;
            self.span = span;
        }
    }

    /// The span to warn about once the body has been walked.
    pub fn finding(&self) -> (r: Option<Span>)
        requires
            self.wf(),
        ensures
            r == if self.has_vulnerable_delegate {
                self.span
            } else {
                None
            },
            r.is_some() == self.has_vulnerable_delegate,
    {
        if self.has_vulnerable_delegate {
            self.span
        } else {
            None
        }
    }
}

} // verus!
