use cargo_scout_audit::arithmetic::{
    op_as_str, operation_text, ArithmeticContext, BodyOwnerKind, ExprTypes,
    IntegerOverflowUnderflow,
};
use cargo_scout_audit::delegate_call::{check_delegate_call, DelegateCallStorage};
use cargo_scout_audit::hir::{
    Arm, BinOp, Expr, ExprKind, LangItem, LocalDecl, LoopSource, MatchSource, Pat, PathSegment,
    QPath, Stmt, UnOp,
};
use cargo_scout_audit::env_calls::{env_call_def, resolved_def_of};
use cargo_scout_audit::loops::{DosUnboundedOperation, IteratorOverIndexing};
use cargo_scout_audit::reentrancy::Reentrancy;
use cargo_scout_audit::self_destruct::UnprotectedSelfDestruct;
use cargo_scout_audit::storage_ops::{UnexpectedRevertWarn, UnprotectedMappingOperation};
use cargo_scout_audit::transfer_from::UnrestrictedTransferFrom;
use cargo_scout_audit::mir::Span;
use cargo_scout_audit::reentry_flag::{
    check_allow_reentrancy, check_invoke_contract_call, check_state_change, ReentrantStorage,
};
use cargo_scout_audit::set_storage::{expr_check_caller, expr_check_owner, SetStorageWarn};
use cargo_scout_audit::unsafe_expect::{
    from_expression, handle_condition, is_literal_or_composed_of_literals, CheckType,
    ConditionalChecker, ExpectStep, UnsafeExpect, UnsafeExpectVisitor,
};

fn sp(lo: u32) -> Span {
    Span { lo, hi: lo + 1 }
}

fn ex(id: u64, kind: ExprKind) -> Expr {
    Expr { hir_id: id, span: sp(id as u32), kind }
}

fn path(id: u64, names: &[&str], local: Option<u64>) -> Expr {
    let segments = names
        .iter()
        .enumerate()
        .map(|(k, n)| PathSegment { name: n.to_string(), hir_id: id * 100 + k as u64 })
        .collect();
    ex(id, ExprKind::Path(QPath::Resolved { with_self_type: false, res_local: local, segments }))
}

fn var(id: u64, name: &str, local: u64) -> Expr {
    path(id, &[name], Some(local))
}

fn lit_int(id: u64, v: u128) -> Expr {
    ex(id, ExprKind::Lit { text: v.to_string(), int_value: Some(v) })
}

fn lit(id: u64, text: &str) -> Expr {
    ex(id, ExprKind::Lit { text: text.to_string(), int_value: None })
}

fn method(id: u64, name: &str, receiver: Expr, args: Vec<Expr>) -> Expr {
    ex(id, ExprKind::MethodCall { name: name.to_string(), receiver: Box::new(receiver), args })
}

fn call(id: u64, func: Expr, args: Vec<Expr>) -> Expr {
    ex(id, ExprKind::Call { func: Box::new(func), args })
}

fn block(id: u64, es: Vec<Expr>) -> Expr {
    ex(id, ExprKind::Other(es))
}

fn binary(id: u64, op: BinOp, l: Expr, r: Expr) -> Expr {
    ex(id, ExprKind::Binary(op, Box::new(l), Box::new(r)))
}

fn if_then(id: u64, cond: Expr, then: Expr) -> Expr {
    ex(id, ExprKind::If { cond: Box::new(cond), then: Box::new(then), els: None })
}

fn lang(id: u64, item: LangItem) -> Expr {
    ex(id, ExprKind::Path(QPath::LangItem { item, hir_id: None }))
}

fn range(id: u64, lo: Expr, hi: Expr) -> Expr {
    ex(
        id,
        ExprKind::Struct {
            path: QPath::LangItem { item: LangItem::Range, hir_id: None },
            fields: vec![lo, hi],
            base: None,
        },
    )
}

/// The desugared form of `for <binding> in <iterated> { <body> }`.
fn for_loop(id: u64, iterated: Expr, binding: u64, body: Expr) -> Expr {
    let into_iter = call(id + 1, lang(id + 2, LangItem::IntoIterIntoIter), vec![iterated]);
    let next = call(id + 3, path(id + 4, &["Iterator", "next"], None), vec![]);
    let none_arm = Arm { pat: Pat::Other, guard: None, body: block(id + 5, vec![]) };
    let some_arm = Arm {
        pat: Pat::Struct {
            path: QPath::LangItem { item: LangItem::OptionSome, hir_id: None },
            fields: vec![Pat::Binding(binding)],
        },
        guard: None,
        body,
    };
    let inner = ex(
        id + 6,
        ExprKind::Match {
            source: MatchSource::ForLoopDesugar,
            scrutinee: Box::new(next),
            arms: vec![none_arm, some_arm],
        },
    );
    let lp = ex(
        id + 7,
        ExprKind::Loop { loop_source: LoopSource::ForLoop, first_stmt_is_expr: true, body: vec![inner] },
    );
    let arm = Arm { pat: Pat::Binding(id + 8), guard: None, body: lp };
    ex(
        id,
        ExprKind::Match { source: MatchSource::ForLoopDesugar, scrutinee: Box::new(into_iter), arms: vec![arm] },
    )
}

fn index(id: u64, base: Expr, idx: Expr) -> Expr {
    ex(id, ExprKind::Index(Box::new(base), Box::new(idx)))
}

// ---------------------------------------------------------------------
// Loops
// ---------------------------------------------------------------------

#[test]
fn indexing_in_a_literal_range_loop_is_reported() {
    let body = block(
        1,
        vec![for_loop(
            100,
            range(110, lit_int(111, 0), lit_int(112, 10)),
            50,
            block(120, vec![index(121, var(122, "v", 60), var(123, "i", 50))]),
        )],
    );
    let d = IteratorOverIndexing::new();
    assert_eq!(d.check_fn(true, &body), vec![sp(100)]);
    assert_eq!(d.check_fn(false, &body), vec![]);
    assert_eq!(d.help(), "Instead, use an iterator or index to `.len()`.");
}

#[test]
fn loops_that_do_not_index_with_their_variable_are_not_reported() {
    let other_index = block(
        1,
        vec![for_loop(
            100,
            range(110, lit_int(111, 0), lit_int(112, 10)),
            50,
            block(120, vec![index(121, var(122, "v", 60), var(123, "j", 51))]),
        )],
    );
    let unbounded = block(
        1,
        vec![for_loop(
            100,
            range(110, lit_int(111, 0), var(112, "n", 70)),
            50,
            block(120, vec![index(121, var(122, "v", 60), var(123, "i", 50))]),
        )],
    );
    let d = IteratorOverIndexing::new();
    assert_eq!(d.check_fn(true, &other_index), vec![]);
    assert_eq!(d.check_fn(true, &unbounded), vec![]);
}

#[test]
fn unbounded_loops_are_reported() {
    let d = DosUnboundedOperation::new();
    let unbounded = block(1, vec![for_loop(100, range(110, lit_int(111, 0), var(112, "n", 7)), 50, block(120, vec![]))]);
    assert_eq!(d.check_fn(true, &unbounded), vec![sp(100)]);
    assert_eq!(d.check_fn(false, &unbounded), vec![]);
    let bounded = block(1, vec![for_loop(100, range(110, lit_int(111, 0), lit_int(112, 5)), 50, block(120, vec![]))]);
    assert_eq!(d.check_fn(true, &bounded), vec![]);
    let over_vec = block(1, vec![for_loop(100, var(110, "items", 8), 50, block(120, vec![]))]);
    assert_eq!(d.check_fn(true, &over_vec), vec![sp(100)]);
    assert_eq!(d.help(), "This loop seems to do not have a fixed number of iterations");
}

fn while_loop(id: u64, cond: Expr, body: Expr) -> Expr {
    let brk = ex(id + 3, ExprKind::Other(vec![]));
    let test = ex(id + 1, ExprKind::If { cond: Box::new(cond), then: Box::new(body), els: Some(Box::new(brk)) });
    ex(id, ExprKind::Loop { loop_source: LoopSource::While, first_stmt_is_expr: false, body: vec![test] })
}

#[test]
fn unbounded_while_loops_are_reported() {
    let d = DosUnboundedOperation::new();
    let step = ex(130, ExprKind::AssignOp(BinOp::Add, Box::new(var(131, "i", 3)), Box::new(lit_int(132, 1))));
    let field = ex(125, ExprKind::Field(Box::new(var(126, "self", 1)), "n".to_string()));
    let unbounded = while_loop(100, binary(110, BinOp::Lt, var(111, "i", 3), field), block(120, vec![step]));
    assert_eq!(d.check_fn(true, &block(1, vec![unbounded])), vec![sp(100)]);
    let bounded = while_loop(100, binary(110, BinOp::Lt, var(111, "i", 3), lit_int(112, 10)), block(120, vec![]));
    assert_eq!(d.check_fn(true, &block(1, vec![bounded])), vec![]);
    let plain = ex(100, ExprKind::Loop { loop_source: LoopSource::Other, first_stmt_is_expr: false, body: vec![] });
    assert_eq!(d.check_fn(true, &block(1, vec![plain])), vec![]);
}

#[test]
fn loops_inside_a_bounded_loop_are_walked_twice() {
    let inner = for_loop(200, range(210, lit_int(211, 0), var(212, "n", 7)), 51, block(220, vec![]));
    let outer = for_loop(100, range(110, lit_int(111, 0), lit_int(112, 3)), 50, block(120, vec![inner]));
    let d = DosUnboundedOperation::new();
    assert_eq!(d.check_fn(true, &block(1, vec![outer])), vec![sp(200), sp(200)]);
}

// ---------------------------------------------------------------------
// Integer overflow or underflow
// ---------------------------------------------------------------------

fn integral() -> ExprTypes {
    ExprTypes { integral: true, constant: false }
}

#[test]
fn arithmetic_operations_are_reported_once() {
    let mut d = IntegerOverflowUnderflow::new();
    let inner = binary(11, BinOp::Mul, var(12, "a", 1), var(13, "b", 2));
    let outer = binary(10, BinOp::Add, inner, lit_int(14, 1));
    let lint = d.check_expr(&outer, integral()).unwrap();
    assert_eq!(lint.span, sp(10));
    assert_eq!(
        lint.message,
        "Potential for integer arithmetic overflow/underflow in operation '+'. Consider checked, wrapping or saturating arithmetic."
    );
    // Inside the reported operation nothing more is reported.
    let inner_again = binary(11, BinOp::Mul, var(12, "a", 1), var(13, "b", 2));
    assert!(d.check_expr(&inner_again, integral()).is_none());
    d.arithmetic_context.expr_post(10);
    assert!(d.check_expr(&inner_again, integral()).is_some());
}

#[test]
fn arithmetic_exemptions() {
    let mut c = ArithmeticContext::new();
    let cmp = binary(1, BinOp::Lt, var(2, "a", 1), var(3, "b", 2));
    assert!(c.check_binary(&cmp, BinOp::Lt, &var(3, "b", 2), true).is_none());
    let by_lit = binary(4, BinOp::Div, var(5, "a", 1), lit_int(6, 2));
    assert!(c.check_binary(&by_lit, BinOp::Div, &lit_int(6, 2), true).is_none());
    let floats = binary(7, BinOp::Add, var(8, "x", 3), var(9, "y", 4));
    assert!(c.check_binary(&floats, BinOp::Add, &var(9, "y", 4), false).is_none());
    let neg_one = ex(12, ExprKind::Unary(UnOp::Neg, Box::new(lit_int(13, 1))));
    let by_neg_one = binary(10, BinOp::Rem, var(11, "a", 1), neg_one);
    let r = ex(12, ExprKind::Unary(UnOp::Neg, Box::new(lit_int(13, 1))));
    let lint = c.check_binary(&by_neg_one, BinOp::Rem, &r, true).unwrap();
    assert_eq!(lint.span, sp(13));
    assert_eq!(
        lint.message,
        "Potential for integer arithmetic overflow/underflow in unary operation with negative expression. Consider checked, wrapping or saturating arithmetic."
    );
    assert_eq!(c.expr_id, Some(13));
}

#[test]
fn constants_are_not_examined() {
    let mut c = ArithmeticContext::new();
    c.enter_body(BodyOwnerKind::Const, Span { lo: 0, hi: 100 });
    let e = binary(5, BinOp::Sub, var(6, "a", 1), var(7, "b", 2));
    assert!(c.skip_expr(e.span));
    assert!(c.check_binary(&e, BinOp::Sub, &var(7, "b", 2), true).is_none());
    c.body_post(Span { lo: 10, hi: 20 });
    assert!(c.skip_expr(e.span));
    c.body_post(Span { lo: 0, hi: 200 });
    assert!(!c.skip_expr(e.span));
    let neg = ex(8, ExprKind::Unary(UnOp::Neg, Box::new(var(9, "a", 1))));
    let lint = c.check_negate(&neg, false, true).unwrap();
    assert_eq!(
        lint.message,
        "Potential for integer arithmetic overflow/underflow. Consider checked, wrapping or saturating arithmetic."
    );
    let mut c2 = ArithmeticContext::new();
    assert!(c2.check_negate(&neg, true, true).is_none());
    c2.enter_body(BodyOwnerKind::Fn, Span { lo: 0, hi: 100 });
    assert!(c2.const_span.is_none());
}

#[test]
fn operator_texts() {
    assert_eq!(op_as_str(BinOp::Shl), "<<");
    assert_eq!(op_as_str(BinOp::Ne), "!=");
    assert_eq!(
        operation_text(BinOp::Mul),
        "Potential for integer arithmetic overflow/underflow in operation '*'. Consider checked, wrapping or saturating arithmetic."
    );
}

// ---------------------------------------------------------------------
// Unsafe expect
// ---------------------------------------------------------------------

#[test]
fn check_types() {
    assert_eq!(CheckType::from_method_name("is_some"), Some(CheckType::IsSome));
    assert_eq!(CheckType::from_method_name("is_err"), Some(CheckType::IsErr));
    assert_eq!(CheckType::from_method_name("unwrap"), None);
    for c in [CheckType::IsSome, CheckType::IsNone, CheckType::IsOk, CheckType::IsErr] {
        assert_eq!(c.inverse().inverse(), c);
        assert_eq!(c.should_halt_execution(), !c.is_safe_to_expect());
        assert_eq!(c.inverse().is_safe_to_expect(), c.should_halt_execution());
    }
}

#[test]
fn conditions_give_checkers() {
    let c = method(1, "is_some", var(2, "x", 7), vec![]);
    assert_eq!(
        from_expression(&c),
        vec![ConditionalChecker { check_type: CheckType::IsSome, checked_expr_hir_id: 7 }]
    );
    let not_none = ex(3, ExprKind::Unary(UnOp::Not, Box::new(method(4, "is_none", var(5, "y", 8), vec![]))));
    assert_eq!(
        from_expression(&not_none),
        vec![ConditionalChecker { check_type: CheckType::IsSome, checked_expr_hir_id: 8 }]
    );
    let either = binary(6, BinOp::Or, c, method(9, "is_err", var(10, "z", 9), vec![]));
    assert_eq!(from_expression(&either).len(), 2);
    let both = binary(11, BinOp::And, method(12, "is_ok", var(13, "a", 1), vec![]), lit(14, "true"));
    assert!(from_expression(&both).is_empty());
    assert!(handle_condition(&method(15, "len", var(16, "v", 2), vec![]), false).is_empty());
}

#[test]
fn expect_inside_a_checked_branch_is_safe() {
    let mut v = UnsafeExpectVisitor::new();
    let cond = method(1, "is_some", var(2, "x", 7), vec![]);
    let if_expr = if_then(3, cond, block(4, vec![]));
    let cs = match v.visit_expr(&if_expr) {
        ExpectStep::WalkThen(cs) => cs,
        other => panic!("unexpected {:?}", other),
    };
    let on_x = method(5, "expect", var(6, "x", 7), vec![lit(7, "\"msg\"")]);
    let on_y = method(8, "expect", var(9, "y", 8), vec![lit(10, "\"msg\"")]);
    assert!(matches!(v.visit_expr(&on_x), ExpectStep::WalkChildren(None)));
    assert!(matches!(v.visit_expr(&on_y), ExpectStep::WalkChildren(Some(s)) if s == sp(8)));
    v.reset_conditional_checker(cs);
    assert!(matches!(v.visit_expr(&on_x), ExpectStep::WalkChildren(Some(s)) if s == sp(5)));
}

#[test]
fn expect_after_an_early_return_is_safe() {
    let mut v = UnsafeExpectVisitor::new();
    let cond = method(1, "is_none", var(2, "x", 7), vec![]);
    let cs = match v.visit_expr(&if_then(3, cond, block(4, vec![]))) {
        ExpectStep::WalkThen(cs) => cs,
        other => panic!("unexpected {:?}", other),
    };
    v.visit_expr(&ex(5, ExprKind::Ret(None)));
    v.reset_conditional_checker(cs);
    let on_x = method(6, "expect", var(7, "x", 7), vec![]);
    assert!(matches!(v.visit_expr(&on_x), ExpectStep::WalkChildren(None)));
    assert!(v.contains_checked(7));
}

#[test]
fn locals_bound_to_literals_are_safe() {
    let mut v = UnsafeExpectVisitor::new();
    let some_one = call(1, path(2, &["Some"], None), vec![lit_int(3, 1)]);
    assert_eq!(v.visit_local(&LocalDecl { pat_hir_id: 40, span: sp(4), init: Some(some_one) }), None);
    assert!(v.contains_checked(40));
    let risky = method(5, "expect", var(6, "y", 41), vec![]);
    let init = method(7, "len", risky, vec![]);
    assert_eq!(v.visit_local(&LocalDecl { pat_hir_id: 42, span: sp(8), init: Some(init) }), Some(sp(8)));
    let fine = method(9, "expect", var(10, "z", 40), vec![]);
    assert_eq!(v.visit_local(&LocalDecl { pat_hir_id: 43, span: sp(11), init: Some(fine) }), None);
    assert!(v.is_panic_inducing_call(&path(12, &["core", "panicking", "panic"], None)));
    assert!(!v.is_panic_inducing_call(&path(13, &["Some"], None)));
}

#[test]
fn literal_trees() {
    let t = ex(1, ExprKind::Tup(vec![lit_int(2, 1), ex(3, ExprKind::Array(vec![lit(4, "\"a\"")]))]));
    assert!(is_literal_or_composed_of_literals(&t));
    let s = ex(
        5,
        ExprKind::Struct {
            path: QPath::TypeRelative { ty_segments: None, name: "new".to_string() },
            fields: vec![lit_int(6, 0)],
            base: Some(Box::new(var(7, "rest", 3))),
        },
    );
    assert!(is_literal_or_composed_of_literals(&s));
    let with_var = ex(8, ExprKind::Tup(vec![lit_int(9, 1), var(10, "x", 4)]));
    assert!(!is_literal_or_composed_of_literals(&with_var));
}

// ---------------------------------------------------------------------
// Reentrancy through a flag
// ---------------------------------------------------------------------

fn self_field(id: u64, name: &str) -> Expr {
    ex(id, ExprKind::Field(Box::new(path(id + 1, &["self"], None)), name.to_string()))
}

#[test]
fn reentry_then_call_then_state_change_is_reported() {
    let mut st = ReentrantStorage::new();
    let allow = method(1, "set_allow_reentry", var(2, "flags", 9), vec![lit(3, "true")]);
    assert!(check_allow_reentrancy(&allow));
    st.visit_expr(&allow);
    let invoke = method(4, "invoke_contract", var(5, "env", 10), vec![]);
    assert_eq!(check_invoke_contract_call(&invoke), Some(sp(4)));
    st.visit_expr(&invoke);
    let change = Stmt::Semi(ex(6, ExprKind::Assign(Box::new(self_field(7, "balance")), Box::new(lit_int(9, 0)))));
    assert!(check_state_change(&change));
    assert!(!st.visit_stmt(&change));
    assert_eq!(st.finding(), Some(sp(4)));
}

#[test]
fn reentry_without_state_change_is_not_reported() {
    let mut st = ReentrantStorage::new();
    let allow = method(1, "set_allow_reentry", var(2, "flags", 9), vec![lit(3, "false")]);
    assert!(!check_allow_reentrancy(&allow));
    st.visit_expr(&allow);
    st.visit_expr(&method(4, "invoke_contract", var(5, "env", 10), vec![]));
    assert!(!st.has_invoke_contract_call);
    assert_eq!(st.finding(), None);
    let insert = Stmt::Semi(method(6, "insert", self_field(7, "map"), vec![lit_int(9, 1)]));
    assert!(check_state_change(&insert));
    assert!(!check_state_change(&Stmt::Expr(lit_int(10, 1))));
}

// ---------------------------------------------------------------------
// Delegate calls
// ---------------------------------------------------------------------

#[test]
fn delegate_with_a_parameter_is_reported() {
    let params = vec![Some(30), None];
    let call_with_param = method(1, "delegate", var(2, "builder", 5), vec![var(3, "hash", 30)]);
    assert_eq!(check_delegate_call(&call_with_param, &params), Some(sp(1)));
    let call_with_field = method(4, "delegate", var(5, "builder", 5), vec![self_field(6, "hash")]);
    assert_eq!(check_delegate_call(&call_with_field, &params), None);
    let mut st = DelegateCallStorage::new();
    st.visit_expr(&call_with_field, &params);
    assert_eq!(st.finding(), None);
    st.visit_expr(&call_with_param, &params);
    st.visit_expr(&call_with_field, &params);
    assert_eq!(st.finding(), Some(sp(1)));
}

// ---------------------------------------------------------------------
// set_contract_storage
// ---------------------------------------------------------------------

fn set_storage(id: u64) -> Expr {
    call(id, path(id + 1, &["env", "set_contract_storage"], None), vec![])
}

#[test]
fn unprotected_set_contract_storage_is_reported() {
    let d = SetStorageWarn::new();
    let body = block(1, vec![set_storage(10)]);
    assert_eq!(d.check_fn(&body), Some(sp(10)));
    assert_eq!(d.check_fn(&block(2, vec![])), None);
}

#[test]
fn set_contract_storage_after_an_owner_check_is_not_reported() {
    let d = SetStorageWarn::new();
    let owner = self_field(20, "owner");
    let caller = method(22, "caller", method(23, "env", path(24, &["self"], None), vec![]), vec![]);
    assert!(expr_check_owner(&owner));
    assert!(expr_check_caller(&caller));
    let cond = binary(21, BinOp::Eq, caller, owner);
    let body = block(1, vec![if_then(2, cond, block(3, vec![])), set_storage(10)]);
    assert_eq!(d.check_fn(&body), None);
    let other_cond = binary(31, BinOp::Eq, var(32, "a", 1), var(33, "b", 2));
    let body2 = block(1, vec![if_then(2, other_cond, block(3, vec![])), set_storage(10)]);
    assert_eq!(d.check_fn(&body2), Some(sp(10)));
}

#[test]
fn expect_on_a_call_result_is_reported() {
    // `let a = result_fn().expect("description goes here");`
    let mut v = UnsafeExpectVisitor::new();
    let init = method(1, "expect", call(2, path(3, &["result_fn"], None), vec![]), vec![lit(4, "\"description goes here\"")]);
    assert_eq!(v.visit_local(&LocalDecl { pat_hir_id: 50, span: sp(5), init: Some(init) }), Some(sp(5)));
    assert!(!v.contains_checked(50));
}


#[test]
fn detector_body_hooks() {
    let mut d = IntegerOverflowUnderflow::new();
    d.check_body(BodyOwnerKind::Static, Span { lo: 0, hi: 50 });
    let e = binary(5, BinOp::Add, var(6, "a", 1), var(7, "b", 2));
    assert!(d.check_expr(&e, integral()).is_none());
    d.check_body_post(Span { lo: 0, hi: 50 });
    assert_eq!(d.arithmetic_context.const_span, Some(Span { lo: 0, hi: 50 }));
    d.check_body_post(Span { lo: 0, hi: 60 });
    assert_eq!(d.arithmetic_context.const_span, None);
    assert!(d.check_expr(&e, integral()).is_some());
    d.check_expr_post(7);
    assert_eq!(d.arithmetic_context.expr_id, Some(5));
    d.check_expr_post(5);
    assert_eq!(d.arithmetic_context.expr_id, None);
}

// ---------------------------------------------------------------------
// Calls of `self.env()` methods
// ---------------------------------------------------------------------

fn env_call(id: u64, owner: &str, name: &str) -> Expr {
    method(id, name, method(id + 1, "env", path(id + 2, &[owner], None), vec![]), vec![])
}

#[test]
fn env_calls_resolve_to_their_functions() {
    let body = block(
        1,
        vec![
            env_call(10, "self", "caller"),
            env_call(20, "self", "terminate_contract"),
            env_call(30, "other", "caller"),
            env_call(40, "self", "caller"),
        ],
    );
    let resolved = vec![(10, 5), (20, 6), (30, 7), (40, 8), (40, 9)];
    assert_eq!(resolved_def_of(&resolved, 40), Some(8));
    assert_eq!(resolved_def_of(&resolved, 41), None);
    let d = UnprotectedSelfDestruct::new();
    assert_eq!(d.find_defs(&body, &resolved), (Some(8), Some(6)));
    assert_eq!(env_call_def(&body, "transferred_value", &resolved), None);
    let unresolved = vec![(10, 5)];
    assert_eq!(d.find_defs(&body, &unresolved), (None, None));
}

#[test]
fn expanded_functions_are_not_checked_for_expect() {
    let d = UnsafeExpect::new();
    assert!(d.check_fn(true).is_none());
    let v = d.check_fn(false).unwrap();
    assert!(!v.contains_checked(1));
    assert_eq!(d.message(), "Unsafe usage of `expect`");
    assert_eq!(d.help(), "Please, use a custom error instead of `expect`");
}

#[test]
fn mapping_operations_resolve_by_receiver_type() {
    let balances = || var(51, "balances", 9);
    let body = block(
        1,
        vec![
            env_call(10, "self", "caller"),
            method(20, "insert", balances(), vec![]),
            method(30, "remove", var(31, "other", 8), vec![]),
            method(40, "take", balances(), vec![]),
        ],
    );
    let resolved = vec![(10, 5), (20, 6), (30, 7), (40, 8)];
    let types = vec![
        (51, "ink::storage::Mapping<ink::ink_primitives::AccountId, u128>".to_string()),
        (31, "std::vec::Vec<u8>".to_string()),
    ];
    let d = UnprotectedMappingOperation::new();
    assert_eq!(d.find_defs(&body, &resolved, &types), (Some(5), Some(6), None, Some(8)));
}

#[test]
fn reentrancy_calls_resolve_by_method_name() {
    let body = block(
        1,
        vec![
            method(10, "set_allow_reentry", var(11, "flags", 2), vec![lit(12, "true")]),
            method(20, "invoke_contract", var(21, "builder", 3), vec![]),
            method(30, "invoke_contract", var(31, "builder", 3), vec![]),
        ],
    );
    let resolved = vec![(10, 4), (20, 5)];
    let d = Reentrancy::new();
    assert_eq!(d.find_defs(&body, &resolved), (Some(4), None));
    assert_eq!(d.find_defs(&block(1, vec![]), &resolved), (None, None));
}

fn type_path(id: u64, ty: &[&str], name: &str) -> Expr {
    let ty_segments = Some(ty.iter().map(|n| PathSegment { name: n.to_string(), hir_id: id * 100 }).collect());
    ex(id, ExprKind::Path(QPath::TypeRelative { ty_segments, name: name.to_string() }))
}

#[test]
fn vector_detector_finds_callers_and_pushes() {
    let self_env = call(30, type_path(31, &["Self"], "env"), vec![]);
    let body = block(
        1,
        vec![
            env_call(10, "self", "caller"),
            method(20, "push", var(21, "items", 4), vec![lit_int(22, 1)]),
            method(29, "account_id", self_env, vec![]),
            env_call(40, "self", "caller"),
            method(50, "push", var(51, "log", 5), vec![]),
        ],
    );
    let resolved = vec![(10, 5), (11, 1), (20, 6), (29, 7), (40, 5), (41, 1), (50, 9)];
    let paths = vec![(6, "std::vec::Vec::<T>::push".to_string()), (9, "ink::Log::push".to_string())];
    let d = UnexpectedRevertWarn::new();
    assert_eq!(d.find_defs(&body, &resolved, &paths), (vec![5, 7], Some(6)));
}

#[test]
fn transfer_from_front_end() {
    let bytes = ex(12, ExprKind::Array(vec![lit_int(13, 0x54), lit_int(14, 0xb3), lit_int(15, 0xc7), lit_int(16, 0x6e)]));
    let selector = call(10, type_path(11, &["ink", "Selector"], "new"), vec![bytes]);
    let push = method(20, "push_arg", var(21, "input", 2), vec![var(22, "from", 1)]);
    let body = block(1, vec![selector, push]);
    let resolved = vec![(11, 3), (20, 4)];
    let d = UnrestrictedTransferFrom::new();
    assert_eq!(d.find_defs(&body, "Result", &resolved), Some((3, Some(4))));
    assert_eq!(d.find_defs(&body, "CallBuilder", &resolved), None);
    assert_eq!(d.find_defs(&body, "CreateBuilder", &resolved), None);
    assert_eq!(d.find_defs(&block(1, vec![]), "", &resolved), None);
    let short = call(10, type_path(11, &["Selector"], "new"), vec![ex(12, ExprKind::Array(vec![lit_int(13, 1)]))]);
    assert_eq!(d.find_defs(&block(1, vec![short]), "", &resolved), None);
}
