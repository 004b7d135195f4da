//! The decisions of the syntax-based reentrancy detector.
//!
//! The detector warns about a contract call (`invoke_contract`) made after
//! reentry was allowed (`set_allow_reentry(true)`) when a later statement
//! changes the contract's state (assigns to a field of `self`, or calls
//! `insert` on one). The compiler's visitor walks the function body; the
//! visitor's state is a `ReentrantStorage` and each visit is a function
//! from that state and the node to the next state (and, for a statement,
//! whether to walk into it).
use vstd::prelude::*;
use crate::mir::Span;
use crate::hir::{Expr, ExprKind, QPath, Stmt, PathSegment};
use crate::text::{text_eq, text_contains, contains_text};

verus! {

/// The span of an `invoke_contract` method call.
pub open spec fn invoke_contract_span(e: Expr) -> Option<Span> {
    match e.kind {
        ExprKind::MethodCall { name, .. } => if name@ == "invoke_contract"@ {
            Some(e.span)
        } else {
            None
        },
        _ => None,
    }
}

/// Whether `e` is a method call whose name contains `set_allow_reentry`; the
/// detector then reads its first argument.
pub open spec fn names_allow_reentry(e: Expr) -> bool {
    match e.kind {
        ExprKind::MethodCall { name, .. } => contains_text(name@, "set_allow_reentry"@),
        _ => false,
    }
}

/// Whether `e` allows reentry: a `set_allow_reentry` call whose first
/// argument is the literal `true`.
pub open spec fn allows_reentry_spec(e: Expr) -> bool {
    match e.kind {
        ExprKind::MethodCall { name, args, .. } => contains_text(name@, "set_allow_reentry"@)
            && args@.len() > 0 && match args@[0].kind {
            ExprKind::Lit { text, .. } => text@ == "true"@,
            _ => false,
        },
        _ => false,
    }
}

/// Whether some segment of a path names `self`.
pub open spec fn mentions_self(segments: Seq<PathSegment>) -> bool {
    exists|k: int| 0 <= k < segments.len() && contains_text(#[trigger] segments[k].name@, "self"@)
}

/// Whether `e` is a field of a plain path that mentions `self` (`self.x`).
pub open spec fn is_self_field(e: Expr) -> bool {
    match e.kind {
        ExprKind::Field(base, _) => match base.kind {
            ExprKind::Path(QPath::Resolved { with_self_type, segments, .. }) => !with_self_type
                && mentions_self(segments@),
            _ => false,
        },
        _ => false,
    }
}

/// Whether a statement changes the contract's state: `self.x = ..;` or
/// `self.x.insert(..);`.
pub open spec fn state_change_spec(s: Stmt) -> bool {
    match s {
        Stmt::Semi(e) => match e.kind {
            ExprKind::Assign(lhs, _) => is_self_field(*lhs),
            ExprKind::MethodCall { name, receiver, .. } => name@ == "insert"@ && is_self_field(
                *receiver,
            ),
            _ => false,
        },
        _ => false,
    }
}

fn mentions_self_exec(segments: &Vec<PathSegment>) -> (b: bool)
    ensures
        b == mentions_self(segments@),
{
    let mut k: usize = 0;
    while k < segments.len()
        invariant
            0 <= k <= segments@.len(),
            forall|j: int| 0 <= j < k ==> !contains_text(#[trigger] segments@[j].name@, "self"@),
        decreases segments@.len() - k,
    {
        if text_contains(segments[k].name.as_str(), "self") {
            assert(contains_text(segments@[k as int].name@, "self"@));
            return true;
        }
        k = k + 1;
    }
    false
}

fn is_self_field_exec(e: &Expr) -> (b: bool)
    ensures
        b == is_self_field(*e),
{
    if let ExprKind::Field(base, _) = &e.kind {
        if let ExprKind::Path(QPath::Resolved { with_self_type, segments, .. }) = &base.kind {
            return !*with_self_type && mentions_self_exec(segments);
        }
    }
    false
}

/// Whether a statement changes the contract's state.
pub fn check_state_change(s: &Stmt) -> (b: bool)
    ensures
        b == state_change_spec(*s),
{
    match s {
        Stmt::Semi(e) => match &e.kind {
            ExprKind::Assign(lhs, _) => is_self_field_exec(lhs),
            ExprKind::MethodCall { name, receiver, .. } => text_eq(name.as_str(), "insert")
                && is_self_field_exec(receiver),
            _ => false,
        },
        _ => false,
    }
}

/// The span of `e` if it is an `invoke_contract` call.
pub fn check_invoke_contract_call(e: &Expr) -> (r: Option<Span>)
    ensures
        r == invoke_contract_span(*e),
{
    match &e.kind {
        ExprKind::MethodCall { name, .. } => if text_eq(name.as_str(), "invoke_contract") {
            Some(e.span)
        } else {
            None
        },
        _ => None,
    }
}

/// Whether `e` allows reentry. A `set_allow_reentry` call needs an argument.
pub fn check_allow_reentrancy(e: &Expr) -> (b: bool)
    requires
        names_allow_reentry(*e) ==> (e.kind matches ExprKind::MethodCall { args, .. } && args@.len()
            > 0),
    ensures
        b == allows_reentry_spec(*e),
{
    match &e.kind {
        ExprKind::MethodCall { name, args, .. } => {
            if text_contains(name.as_str(), "set_allow_reentry") {
                match &args[0].kind {
                    ExprKind::Lit { text, .. } => text_eq(text.as_str(), "true"),
                    _ => false,
                }
            } else {
                false
            }
        },
        _ => false,
    }
}

/// The state of the reentrancy visitor.
pub struct ReentrantStorage {
    /// The span of the last `invoke_contract` call seen after reentry was
    /// allowed.
    pub span: Option<Span>,
    pub has_invoke_contract_call: bool,
    pub allow_reentrancy_flag: bool,
    pub state_change: bool,
}

impl ReentrantStorage {
    /// A call was recorded only together with its span.
    pub open spec fn wf(&self) -> bool {
        self.has_invoke_contract_call ==> self.span.is_some()
    }

    /// Whether the flags of `self` include those of `other`.
    pub open spec fn extends(&self, other: &ReentrantStorage) -> bool {
        &&& other.has_invoke_contract_call ==> self.has_invoke_contract_call
        &&& other.allow_reentrancy_flag ==> self.allow_reentrancy_flag
        &&& other.state_change ==> self.state_change
    }

    /// The state at the start of a function body.
    pub fn new() -> (r: Self)
        ensures
            r.wf(),
            r.span.is_none(),
            !r.has_invoke_contract_call,
            !r.allow_reentrancy_flag,
            !r.state_change,
    {
        ReentrantStorage {
            span: None,
            has_invoke_contract_call: false,
            allow_reentrancy_flag: false,
            state_change: false,
        }
    }

    /// Visits a statement. Once reentry is allowed and a call was made, a
    /// statement is only tested for a state change and not walked into;
    /// before that it is walked into. Returns whether to walk into it.
    pub fn visit_stmt(&mut self, s: &Stmt) -> (walk: bool)
        requires
            old(self).wf(),
        ensures
            final(self).wf(),
            final(self).extends(&*old(self)),
            walk == !(old(self).has_invoke_contract_call && old(self).allow_reentrancy_flag),
            final(self).span == old(self).span,
            final(self).has_invoke_contract_call == old(self).has_invoke_contract_call,
            final(self).allow_reentrancy_flag == old(self).allow_reentrancy_flag,
            final(self).state_change == (old(self).state_change || (!walk && state_change_spec(
                *s,
            ))),
    {
        if self.has_invoke_contract_call && self.allow_reentrancy_flag {
            if check_state_change(s) {
                self.state_change = true;
            }
            false
        } else {
            true
        }
    }

    /// Visits an expression (its children are walked afterwards): after
    /// reentry was allowed an `invoke_contract` call is recorded, and a
    /// `set_allow_reentry(true)` call allows reentry.
    pub fn visit_expr(&mut self, e: &Expr)
        requires
            old(self).wf(),
            names_allow_reentry(*e) ==> (e.kind matches ExprKind::MethodCall { args, .. }
                && args@.len() > 0),
        ensures
            final(self).wf(),
            final(self).extends(&*old(self)),
            final(self).span == if old(self).allow_reentrancy_flag && invoke_contract_span(
                *e,
            ).is_some() {
                invoke_contract_span(*e)
            } else {
                old(self).span
            },
            final(self).has_invoke_contract_call == (old(self).has_invoke_contract_call || (old(
                self,
            ).allow_reentrancy_flag && invoke_contract_span(*e).is_some())),
            final(self).allow_reentrancy_flag == (old(self).allow_reentrancy_flag
                || allows_reentry_spec(*e)),
            final(self).state_change == old(self).state_change,
    {
        if self.allow_reentrancy_flag {
            let span = check_invoke_contract_call(e);
            if span.is_some() {
                self.has_invoke_contract_call = true;
                self.span = span;
            }
        }
        if check_allow_reentrancy(e) {
            self.allow_reentrancy_flag = true;
        }
    }

    /// The span to warn about once the body has been walked: the recorded
    /// call, when reentry was allowed, a call was made and the state changed.
    pub fn finding(&self) -> (r: Option<Span>)
        requires
            self.wf(),
        ensures
            r == if self.has_invoke_contract_call && self.allow_reentrancy_flag
                && self.state_change {
                self.span
            } else {
                None
            },
            r.is_some() == (self.has_invoke_contract_call && self.allow_reentrancy_flag
                && self.state_change),
    {
        if self.has_invoke_contract_call && self.allow_reentrancy_flag && self.state_change {
            self.span
        } else {
            None
        }
    }
}

} // verus!
