//! The unprotected `set_contract_storage` detector.
//!
//! A call of `env::set_contract_storage` outside any `if` is reported
//! unless the last comparison seen inside an `if` condition compared an
//! `owner` field with a `caller()` call. The detector walks the body; an
//! `if` is walked twice, first as a conditional (where comparisons are
//! recorded and calls are not reported) and then again as plain code.
use vstd::prelude::*;
use crate::mir::Span;
use crate::hir::{Arm, Expr, ExprKind, QPath, PathSegment};
use crate::text::{text_eq, text_contains, contains_text};

verus! {

/// Whether `e` is a field access whose name contains `owner`.
pub open spec fn owner_field(e: Expr) -> bool {
    match e.kind {
        ExprKind::Field(_, name) => contains_text(name@, "owner"@),
        _ => false,
    }
}

/// Whether `e` is a method call whose name contains `caller`.
pub open spec fn caller_call(e: Expr) -> bool {
    match e.kind {
        ExprKind::MethodCall { name, .. } => contains_text(name@, "caller"@),
        _ => false,
    }
}

/// Whether `segments` is the path `env::set_contract_storage`.
pub open spec fn is_set_storage_path(segments: Seq<PathSegment>) -> bool {
    segments.len() == 2 && segments[0].name@ == "env"@ && segments[1].name@
        == "set_contract_storage"@
}

/// Whether `e` calls `env::set_contract_storage`.
pub open spec fn set_storage_call(e: Expr) -> bool {
    match e.kind {
        ExprKind::Call { func, .. } => match func.kind {
            ExprKind::Path(QPath::Resolved { with_self_type, segments, .. }) => !with_self_type
                && is_set_storage_path(segments@),
            _ => false,
        },
        _ => false,
    }
}

/// The state of the detector's walk.
#[derive(Clone, Copy, PartialEq, Eq, Structural, Debug)]
pub struct SetContractStorage {
    /// The span of the last unprotected call.
    pub span: Option<Span>,
    pub unprotected: bool,
    pub in_conditional: bool,
    pub has_caller_in_if: bool,
    pub has_owner_in_if: bool,
    pub has_set_contract: bool,
}

/// Visiting `e` from state `st`: inside a condition a comparison records
/// whether it involves an owner field and a caller call; an `if` is walked as
/// a conditional and then again; a `set_contract_storage` call outside a
/// condition without both records is unprotected; then the subexpressions
/// are walked.
pub open spec fn sc_visit(e: Expr, st: SetContractStorage) -> SetContractStorage
    decreases e, 2nat,
{
    let st1 = match e.kind {
        ExprKind::Binary(_, l, r) => if st.in_conditional {
            SetContractStorage {
                has_owner_in_if: owner_field(*r) || owner_field(*l),
                has_caller_in_if: caller_call(*r) || caller_call(*l),
                ..st
            }
        } else {
            st
        },
        _ => st,
    };
    if e.kind is If {
        let st2 = sc_walk(e, SetContractStorage { in_conditional: true, ..st1 });
        sc_walk(e, SetContractStorage { in_conditional: false, ..st2 })
    } else if set_storage_call(e) {
        let st2 = SetContractStorage { has_set_contract: true, ..st1 };
        let st3 = if !st1.in_conditional && (!st1.has_owner_in_if || !st1.has_caller_in_if) {
            SetContractStorage { unprotected: true, span: Some(e.span), ..st2 }
        } else {
            st2
        };
        sc_walk(e, st3)
    } else {
        sc_walk(e, st1)
    }
}

/// Walking the subexpressions of `e` from state `st`, in walk order.
pub open spec fn sc_walk(e: Expr, st: SetContractStorage) -> SetContractStorage
    decreases e, 1nat,
{
    match e.kind {
        ExprKind::Lit { .. } => st,
        ExprKind::Path(_) => st,
        ExprKind::MethodCall { receiver, args, .. } => sc_list(args@, sc_visit(*receiver, st)),
        ExprKind::Call { func, args } => sc_list(args@, sc_visit(*func, st)),
        ExprKind::Unary(_, x) => sc_visit(*x, st),
        ExprKind::Binary(_, l, r) => sc_visit(*r, sc_visit(*l, st)),
        ExprKind::AssignOp(_, l, r) => sc_visit(*l, sc_visit(*r, st)),
        ExprKind::Assign(l, r) => sc_visit(*l, sc_visit(*r, st)),
        ExprKind::Index(a, b) => sc_visit(*b, sc_visit(*a, st)),
        ExprKind::Field(x, _) => sc_visit(*x, st),
        ExprKind::Tup(es) => sc_list(es@, st),
        ExprKind::Array(es) => sc_list(es@, st),
        ExprKind::Struct { fields, base, .. } => {
            let s2 = sc_list(fields@, st);
            match base {
                Some(b) => sc_visit(*b, s2),
                None => s2,
            }
        },
        ExprKind::Repeat(x) => sc_visit(*x, st),
        ExprKind::If { cond, then, els } => {
            let s2 = sc_visit(*then, sc_visit(*cond, st));
            match els {
                Some(x) => sc_visit(*x, s2),
                None => s2,
            }
        },
        ExprKind::Ret(v) => match v {
            Some(x) => sc_visit(*x, st),
            None => st,
        },
        ExprKind::Match { scrutinee, arms, .. } => sc_arms(arms@, sc_visit(*scrutinee, st)),
        ExprKind::Loop { body, .. } => sc_list(body@, st),
        ExprKind::MacCall(_) => st,
        ExprKind::UnsafeBlock(es) => sc_list(es@, st),
        ExprKind::Other(es) => sc_list(es@, st),
    }
}

/// Visiting an arm (its guard, then its body) from state `st`.
pub open spec fn sc_arm(a: Arm, st: SetContractStorage) -> SetContractStorage
    decreases a, 0nat,
{
    let s1 = match a.guard {
        Some(g) => sc_visit(g, st),
        None => st,
    };
    sc_visit(a.body, s1)
}

/// Visiting each of `arms` in turn from state `st`.
pub open spec fn sc_arms(arms: Seq<Arm>, st: SetContractStorage) -> SetContractStorage
    decreases arms, 0nat,
{
    if arms.len() == 0 {
        st
    } else {
        sc_arm(arms[arms.len() - 1], sc_arms(arms.subrange(0, arms.len() - 1), st))
    }
}

/// Visiting each of `es` in turn from state `st`.
pub open spec fn sc_list(es: Seq<Expr>, st: SetContractStorage) -> SetContractStorage
    decreases es, 0nat,
{
    if es.len() == 0 {
        st
    } else {
        sc_visit(es[es.len() - 1], sc_list(es.subrange(0, es.len() - 1), st))
    }
}

/// An unprotected call was recorded only with its span.
pub open spec fn sc_wf(st: SetContractStorage) -> bool {
    st.unprotected ==> st.span is Some
}

proof fn lemma_sc_wf(e: Expr, st: SetContractStorage)
    requires
        sc_wf(st),
    ensures
        sc_wf(sc_visit(e, st)),
        sc_wf(sc_walk(e, st)),
    decreases e, 2nat,
{
    lemma_sc_walk_wf(e, st);
    let st1 = match e.kind {
        ExprKind::Binary(_, l, r) => if st.in_conditional {
            SetContractStorage {
                has_owner_in_if: owner_field(*r) || owner_field(*l),
                has_caller_in_if: caller_call(*r) || caller_call(*l),
                ..st
            }
        } else {
            st
        },
        _ => st,
    };
    if e.kind is If {
        lemma_sc_walk_wf(e, SetContractStorage { in_conditional: true, ..st1 });
        let st2 = sc_walk(e, SetContractStorage { in_conditional: true, ..st1 });
        lemma_sc_walk_wf(e, SetContractStorage { in_conditional: false, ..st2 });
    } else if set_storage_call(e) {
        let st2 = SetContractStorage { has_set_contract: true, ..st1 };
        let st3 = if !st1.in_conditional && (!st1.has_owner_in_if || !st1.has_caller_in_if) {
            SetContractStorage { unprotected: true, span: Some(e.span), ..st2 }
        } else {
            st2
        };
        lemma_sc_walk_wf(e, st3);
    } else {
        lemma_sc_walk_wf(e, st1);
    }
}

proof fn lemma_sc_walk_wf(e: Expr, st: SetContractStorage)
    requires
        sc_wf(st),
    ensures
        sc_wf(sc_walk(e, st)),
    decreases e, 1nat,
{
    match e.kind {
        ExprKind::Lit { .. } => {},
        ExprKind::Path(_) => {},
        ExprKind::MethodCall { receiver, args, .. } => {
            lemma_sc_wf(*receiver, st);
            lemma_sc_list_wf(args@, sc_visit(*receiver, st));
        },
        ExprKind::Call { func, args } => {
            lemma_sc_wf(*func, st);
            lemma_sc_list_wf(args@, sc_visit(*func, st));
        },
        ExprKind::Unary(_, x) => lemma_sc_wf(*x, st),
        ExprKind::Binary(_, l, r) => {
            lemma_sc_wf(*l, st);
            lemma_sc_wf(*r, sc_visit(*l, st));
        },
        ExprKind::AssignOp(_, l, r) => {
            lemma_sc_wf(*r, st);
            lemma_sc_wf(*l, sc_visit(*r, st));
        },
        ExprKind::Assign(l, r) => {
            lemma_sc_wf(*r, st);
            lemma_sc_wf(*l, sc_visit(*r, st));
        },
        ExprKind::Index(a, b) => {
            lemma_sc_wf(*a, st);
            lemma_sc_wf(*b, sc_visit(*a, st));
        },
        ExprKind::Field(x, _) => lemma_sc_wf(*x, st),
        ExprKind::Tup(es) => lemma_sc_list_wf(es@, st),
        ExprKind::Array(es) => lemma_sc_list_wf(es@, st),
        ExprKind::Struct { fields, base, .. } => {
            lemma_sc_list_wf(fields@, st);
            match base {
                Some(b) => lemma_sc_wf(*b, sc_list(fields@, st)),
                None => {},
            }
        },
        ExprKind::Repeat(x) => lemma_sc_wf(*x, st),
        ExprKind::If { cond, then, els } => {
            lemma_sc_wf(*cond, st);
            lemma_sc_wf(*then, sc_visit(*cond, st));
            match els {
                Some(x) => lemma_sc_wf(*x, sc_visit(*then, sc_visit(*cond, st))),
                None => {},
            }
        },
        ExprKind::Ret(v) => match v {
            Some(x) => lemma_sc_wf(*x, st),
            None => {},
        },
        ExprKind::Match { scrutinee, arms, .. } => {
            lemma_sc_wf(*scrutinee, st);
            lemma_sc_arms_wf(arms@, sc_visit(*scrutinee, st));
        },
        ExprKind::Loop { body, .. } => lemma_sc_list_wf(body@, st),
        ExprKind::MacCall(_) => {},
        ExprKind::UnsafeBlock(es) => lemma_sc_list_wf(es@, st),
        ExprKind::Other(es) => lemma_sc_list_wf(es@, st),
    }
}

proof fn lemma_sc_arms_wf(arms: Seq<Arm>, st: SetContractStorage)
    requires
        sc_wf(st),
    ensures
        sc_wf(sc_arms(arms, st)),
    decreases arms, 0nat,
{
    if arms.len() > 0 {
        let a = arms[arms.len() - 1];
        lemma_sc_arms_wf(arms.subrange(0, arms.len() - 1), st);
        let s0 = sc_arms(arms.subrange(0, arms.len() - 1), st);
        assert(sc_arms(arms, st) == sc_arm(a, s0));
        match a.guard {
            Some(g) => {
                lemma_sc_wf(g, s0);
                lemma_sc_wf(a.body, sc_visit(g, s0));
                assert(sc_arm(a, s0) == sc_visit(a.body, sc_visit(g, s0)));
            },
            None => {
                lemma_sc_wf(a.body, s0);
                assert(sc_arm(a, s0) == sc_visit(a.body, s0));
            },
        }
    }
}

proof fn lemma_sc_list_wf(es: Seq<Expr>, st: SetContractStorage)
    requires
        sc_wf(st),
    ensures
        sc_wf(sc_list(es, st)),
    decreases es, 0nat,
{
    if es.len() > 0 {
        lemma_sc_list_wf(es.subrange(0, es.len() - 1), st);
        lemma_sc_wf(es[es.len() - 1], sc_list(es.subrange(0, es.len() - 1), st));
    }
}

/// Whether `e` is a field access whose name contains `owner`.
pub fn expr_check_owner(e: &Expr) -> (b: bool)
    ensures
        b == owner_field(*e),
{
    match &e.kind {
        ExprKind::Field(_, name) => text_contains(name.as_str(), "owner"),
        _ => false,
    }
}

/// Whether `e` is a method call whose name contains `caller`.
pub fn expr_check_caller(e: &Expr) -> (b: bool)
    ensures
        b == caller_call(*e),
{
    match &e.kind {
        ExprKind::MethodCall { name, .. } => text_contains(name.as_str(), "caller"),
        _ => false,
    }
}

fn is_set_storage_call(e: &Expr) -> (b: bool)
    ensures
        b == set_storage_call(*e),
{
    if let ExprKind::Call { func, .. } = &e.kind {
        if let ExprKind::Path(QPath::Resolved { with_self_type, segments, .. }) = &func.kind {
            return !*with_self_type && segments.len() == 2 && text_eq(
                segments[0].name.as_str(),
                "env",
            ) && text_eq(segments[1].name.as_str(), "set_contract_storage");
        }
    }
    false
}

impl SetContractStorage {
    /// The state at the start of a body.
    pub fn new() -> (r: Self)
        ensures
            sc_wf(r),
            r.span is None,
            !r.unprotected,
            !r.in_conditional,
            !r.has_caller_in_if,
            !r.has_owner_in_if,
            !r.has_set_contract,
    {
        SetContractStorage {
            span: None,
            unprotected: false,
            in_conditional: false,
            has_caller_in_if: false,
            has_owner_in_if: false,
            has_set_contract: false,
        }
    }

    /// Visits `e` (see `sc_visit`).
    pub fn visit_expr(&mut self, e: &Expr)
        ensures
            *final(self) == sc_visit(*e, *old(self)),
        decreases e, 2nat,
    {
        if self.in_conditional {
            if let ExprKind::Binary(_, l, r) = &e.kind {
                self.has_owner_in_if = expr_check_owner(r) || expr_check_owner(l);
                self.has_caller_in_if = expr_check_caller(r) || expr_check_caller(l);
            }
        }
        if let ExprKind::If { .. } = &e.kind {
            self.in_conditional = true;
            self.walk_expr(e);
            self.in_conditional = false;
        } else if is_set_storage_call(e) {
            self.has_set_contract = true;
            if !self.in_conditional && (!self.has_owner_in_if || !self.has_caller_in_if) {
                self.unprotected = true;
                self.span = Some(e.span);
            }
        }
        self.walk_expr(e);
    }

    fn walk_list(&mut self, es: &Vec<Expr>)
        ensures
            *final(self) == sc_list(es@, *old(self)),
        decreases es, 0nat,
    {
        let ghost st0 = *self;
        let mut i: usize = 0;
        assert(es@.subrange(0, 0) =~= Seq::<Expr>::empty());
        while i < es.len()
            invariant
                0 <= i <= es@.len(),
                *self == sc_list(es@.subrange(0, i as int), st0),
            decreases es@.len() - i,
        {
            assert(decreases_to!(es => es@[i as int]));
            self.visit_expr(&es[i]);
            proof {
                let s = es@.subrange(0, i + 1);
                assert(s.subrange(0, s.len() - 1) =~= es@.subrange(0, i as int));
                assert(s[s.len() - 1] == es@[i as int]);
            }
            i = i + 1;
        }
        assert(es@.subrange(0, es@.len() as int) =~= es@);
    }

    fn walk_arms(&mut self, arms: &Vec<Arm>)
        ensures
            *final(self) == sc_arms(arms@, *old(self)),
        decreases arms, 0nat,
    {
        let ghost st0 = *self;
        let mut i: usize = 0;
        assert(arms@.subrange(0, 0) =~= Seq::<Arm>::empty());
        while i < arms.len()
            invariant
                0 <= i <= arms@.len(),
                *self == sc_arms(arms@.subrange(0, i as int), st0),
            decreases arms@.len() - i,
        {
            assert(decreases_to!(arms => arms@[i as int]));
            let a = &arms[i];
            let ghost s0 = *self;
            assert(decreases_to!(arms => arms@[i as int].body));
            match &a.guard {
                Some(g) => {
                    assert(decreases_to!(arms => g));
                    self.visit_expr(g);
                },
                None => {},
            }
            self.visit_expr(&a.body);
            assert(*self == sc_arm(*a, s0));
            proof {
                let s = arms@.subrange(0, i + 1);
                assert(s.subrange(0, s.len() - 1) =~= arms@.subrange(0, i as int));
                assert(s[s.len() - 1] == arms@[i as int]);
            }
            i = i + 1;
        }
        assert(arms@.subrange(0, arms@.len() as int) =~= arms@);
    }

    /// Walks the subexpressions of `e` (see `sc_walk`).
    pub fn walk_expr(&mut self, e: &Expr)
        ensures
            *final(self) == sc_walk(*e, *old(self)),
        decreases e, 1nat,
    {
        match &e.kind {
            ExprKind::Lit { .. } => {},
            ExprKind::Path(_) => {},
            ExprKind::MethodCall { receiver, args, .. } => {
                self.visit_expr(receiver);
                self.walk_list(args);
            },
            ExprKind::Call { func, args } => {
                self.visit_expr(func);
                self.walk_list(args);
            },
            ExprKind::Unary(_, x) => self.visit_expr(x),
            ExprKind::Binary(_, l, r) => {
                self.visit_expr(l);
                self.visit_expr(r);
            },
            ExprKind::AssignOp(_, l, r) => {
                self.visit_expr(r);
                self.visit_expr(l);
            },
            ExprKind::Assign(l, r) => {
                self.visit_expr(r);
                self.visit_expr(l);
            },
            ExprKind::Index(a, b) => {
                self.visit_expr(a);
                self.visit_expr(b);
            },
            ExprKind::Field(x, _) => self.visit_expr(x),
            ExprKind::Tup(es) => self.walk_list(es),
            ExprKind::Array(es) => self.walk_list(es),
            ExprKind::Struct { fields, base, .. } => {
                self.walk_list(fields);
                match base {
                    Some(b) => self.visit_expr(b),
                    None => {},
                }
            },
            ExprKind::Repeat(x) => self.visit_expr(x),
            ExprKind::If { cond, then, els } => {
                self.visit_expr(cond);
                self.visit_expr(then);
                match els {
                    Some(x) => self.visit_expr(x),
                    None => {},
                }
            },
            ExprKind::Ret(v) => match v {
                Some(x) => self.visit_expr(x),
                None => {},
            },
            ExprKind::Match { scrutinee, arms, .. } => {
                self.visit_expr(scrutinee);
                self.walk_arms(arms);
            },
            ExprKind::Loop { body, .. } => self.walk_list(body),
            ExprKind::MacCall(_) => {},
            ExprKind::UnsafeBlock(es) => self.walk_list(es),
            ExprKind::Other(es) => self.walk_list(es),
        }
    }
}

/// The unprotected `set_contract_storage` detector.
pub struct SetStorageWarn {}

impl SetStorageWarn {
    /// The detector.
    pub fn new() -> (r: Self) {
        SetStorageWarn {  }
    }

    /// The span to report for the function body `body`: the last
    /// unprotected `set_contract_storage` call, if there is one.
    pub fn check_fn(&self, body: &Expr) -> (r: Option<Span>)
        ensures
            ({
                let st = sc_walk(*body, SetContractStorage {
                    span: None,
                    unprotected: false,
                    in_conditional: false,
                    has_caller_in_if: false,
                    has_owner_in_if: false,
                    has_set_contract: false,
                });
                r == if st.has_set_contract && st.unprotected {
                    st.span
                } else {
                    None
                }
            }),
            r is Some == ({
                let st = sc_walk(*body, SetContractStorage {
                    span: None,
                    unprotected: false,
                    in_conditional: false,
                    has_caller_in_if: false,
                    has_owner_in_if: false,
                    has_set_contract: false,
                });
                st.has_set_contract && st.unprotected
            }),
    {
        let mut st = SetContractStorage::new();
        proof {
            lemma_sc_walk_wf(*body, st);
        }
        st.walk_expr(body);
        if st.has_set_contract && st.unprotected {
            st.span
        } else {
            None
        }
    }
}

} // verus!
