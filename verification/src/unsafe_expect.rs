//! The decisions of the unsafe-`expect` detector.
//!
//! The detector walks a function body and warns about every `expect` whose
//! receiver is not known to hold a value at that point. A local is known to
//! hold a value inside the `then` branch of an `if` whose condition checks
//! it with `is_some`/`is_ok` (or negates `is_none`/`is_err`), after a branch
//! of such an `if` that returns or panics, and when it was bound to
//! `Some`/`Ok` of literals.
//!
//! The walk itself belongs to the compiler's visitor; here the visitor's
//! state is a value (`UnsafeExpectVisitor`) and each visit is a function
//! from that state and the visited node to the next state and the action:
//! which children to walk next and which span to warn about.
use vstd::prelude::*;
use crate::mir::Span;
use crate::hir::{Expr, ExprKind, QPath, UnOp, BinOp, LocalDecl, PathSegment, local_of, local_of_expr};
use crate::text::{text_eq, text_contains, contains_text};

verus! {

/// The kind of check that a condition makes on a local.
#[derive(Clone, Copy, PartialEq, Eq, Structural, Debug)]
pub enum CheckType {
    IsSome,
    IsNone,
    IsOk,
    IsErr,
}

impl CheckType {
    /// The check that a method of this name makes, if it makes one.
    pub open spec fn from_name_spec(name: Seq<char>) -> Option<CheckType> {
        if name == "is_some"@ {
            Some(CheckType::IsSome)
        } else if name == "is_none"@ {
            Some(CheckType::IsNone)
        } else if name == "is_ok"@ {
            Some(CheckType::IsOk)
        } else if name == "is_err"@ {
            Some(CheckType::IsErr)
        } else {
            None
        }
    }

    /// The opposite check.
    pub open spec fn inverse_spec(self) -> CheckType {
        match self {
            CheckType::IsSome => CheckType::IsNone,
            CheckType::IsNone => CheckType::IsSome,
            CheckType::IsOk => CheckType::IsErr,
            CheckType::IsErr => CheckType::IsOk,
        }
    }

    /// Whether a branch taken when this check holds must halt for the
    /// value to be present afterwards (`is_none`, `is_err`).
    pub open spec fn should_halt_spec(self) -> bool {
        self is IsNone || self is IsErr
    }

    /// Whether the value is present when this check holds (`is_some`,
    /// `is_ok`).
    pub open spec fn is_safe_spec(self) -> bool {
        self is IsSome || self is IsOk
    }

    /// The check that the method `name` makes, if any.
    pub fn from_method_name(name: &str) -> (r: Option<CheckType>)
        ensures
            r == CheckType::from_name_spec(name@),
    {
        if text_eq(name, "is_some") {
            Some(CheckType::IsSome)
        } else if text_eq(name, "is_none") {
            Some(CheckType::IsNone)
        } else if text_eq(name, "is_ok") {
            Some(CheckType::IsOk)
        } else if text_eq(name, "is_err") {
            Some(CheckType::IsErr)
        } else {
            None
        }
    }

    /// The opposite check.
    pub fn inverse(self) -> (r: CheckType)
        ensures
            r == self.inverse_spec(),
    {
        match self {
            CheckType::IsSome => CheckType::IsNone,
            CheckType::IsNone => CheckType::IsSome,
            CheckType::IsOk => CheckType::IsErr,
            CheckType::IsErr => CheckType::IsOk,
        }
    }

    /// Whether the check implies that execution should halt.
    pub fn should_halt_execution(self) -> (b: bool)
        ensures
            b == self.should_halt_spec(),
    {
        match self {
            CheckType::IsNone | CheckType::IsErr => true,
            _ => false,
        }
    }

    /// Whether the value is safe to `expect` when the check holds.
    pub fn is_safe_to_expect(self) -> (b: bool)
        ensures
            b == self.is_safe_spec(),
    {
        match self {
            CheckType::IsSome | CheckType::IsOk => true,
            _ => false,
        }
    }
}

/// Taking the opposite check twice gives the check back.
pub proof fn lemma_inverse_involutive(c: CheckType)
    ensures
        c.inverse_spec().inverse_spec() == c,
{
}

/// Every check either makes its value safe to `expect` or asks the branch
/// to halt, never both.
pub proof fn lemma_halt_iff_not_safe(c: CheckType)
    ensures
        c.should_halt_spec() == !c.is_safe_spec(),
{
}

/// The opposite of a check is safe exactly when the check asks to halt.
pub proof fn lemma_inverse_swaps_safety(c: CheckType)
    ensures
        c.inverse_spec().is_safe_spec() == c.should_halt_spec(),
        c.inverse_spec().should_halt_spec() == c.is_safe_spec(),
{
}

/// A check made on a local, named by its node id.
#[derive(Clone, Copy, PartialEq, Eq, Structural, Debug)]
pub struct ConditionalChecker {
    pub check_type: CheckType,
    pub checked_expr_hir_id: u64,
}

/// The check that the condition `c` makes, taken inverted when `inverse`:
/// a method call named like a check on a local.
pub open spec fn handle_condition_spec(c: Expr, inverse: bool) -> Set<ConditionalChecker> {
    match c.kind {
        ExprKind::MethodCall { name, receiver, .. } => match (
            CheckType::from_name_spec(name@),
            local_of(*receiver),
        ) {
            (Some(t), Some(id)) => set![
                ConditionalChecker {
                    check_type: if inverse {
                        t.inverse_spec()
                    } else {
                        t
                    },
                    checked_expr_hir_id: id,
                },
            ],
            _ => Set::empty(),
        },
        _ => Set::empty(),
    }
}

/// The checks that the condition of an `if` makes: one method call, one
/// negated method call, or several of those joined with `||`.
pub open spec fn conditions_spec(e: Expr) -> Set<ConditionalChecker>
    decreases e,
{
    match e.kind {
        ExprKind::Unary(op, c) => handle_condition_spec(*c, op == UnOp::Not),
        ExprKind::Binary(op, l, r) => if op == BinOp::Or {
            conditions_spec(*l).union(conditions_spec(*r))
        } else {
            Set::empty()
        },
        ExprKind::MethodCall { .. } => handle_condition_spec(e, false),
        _ => Set::empty(),
    }
}

/// The node ids of the checkers in `s` whose check is (or is not, when
/// `safe` is false) safe to `expect`.
pub open spec fn ids_with(s: Set<ConditionalChecker>, safe: bool) -> Set<u64> {
    Set::new(
        |id: u64|
            exists|c: ConditionalChecker|
                #[trigger] s.contains(c) && c.check_type.is_safe_spec() == safe
                    && c.checked_expr_hir_id == id,
    )
}

proof fn lemma_ids_with_insert(s: Set<ConditionalChecker>, c: ConditionalChecker, safe: bool)
    ensures
        ids_with(s.insert(c), safe) == if c.check_type.is_safe_spec() == safe {
            ids_with(s, safe).insert(c.checked_expr_hir_id)
        } else {
            ids_with(s, safe)
        },
{
    let lhs = ids_with(s.insert(c), safe);
    let rhs = if c.check_type.is_safe_spec() == safe {
        ids_with(s, safe).insert(c.checked_expr_hir_id)
    } else {
        ids_with(s, safe)
    };
    assert forall|id: u64| lhs.contains(id) implies rhs.contains(id) by {
        let w = choose|d: ConditionalChecker|
            #[trigger] s.insert(c).contains(d) && d.check_type.is_safe_spec() == safe
                && d.checked_expr_hir_id == id;
        if w != c {
            assert(s.contains(w));
        }
    }
    assert forall|id: u64| rhs.contains(id) implies lhs.contains(id) by {
        if c.check_type.is_safe_spec() == safe && id == c.checked_expr_hir_id {
            assert(s.insert(c).contains(c));
        } else {
            let w = choose|d: ConditionalChecker|
                #[trigger] s.contains(d) && d.check_type.is_safe_spec() == safe
                    && d.checked_expr_hir_id == id;
            assert(s.insert(c).contains(w));
        }
    }
    assert(lhs =~= rhs);
}

/// The check made by `c`, inverted when `inverse`, if `c` is a check on a
/// local.
pub fn handle_condition(c: &Expr, inverse: bool) -> (r: Vec<ConditionalChecker>)
    ensures
        r@.to_set() == handle_condition_spec(*c, inverse),
{
    let mut r: Vec<ConditionalChecker> = Vec::new();
    if let ExprKind::MethodCall { name, receiver, .. } = &c.kind {
        let t = CheckType::from_method_name(name.as_str());
        let id = local_of_expr(receiver);
        if let (Some(t), Some(id)) = (t, id) {
            let check_type = if inverse {
                t.inverse()
            } else {
                t
            };
            r.push(ConditionalChecker { check_type, checked_expr_hir_id: id });
            proof {
                Seq::<ConditionalChecker>::empty().lemma_push_to_set_commute(r@[0]);
                assert(Seq::<ConditionalChecker>::empty().push(r@[0]) =~= r@);
            }
            assert(r@.to_set() =~= handle_condition_spec(*c, inverse));
            return r;
        }
    }
    assert(r@.to_set() =~= Set::<ConditionalChecker>::empty());
    r
}

/// The checks that the condition `e` of an `if` makes.
pub fn from_expression(e: &Expr) -> (r: Vec<ConditionalChecker>)
    ensures
        r@.to_set() == conditions_spec(*e),
    decreases e,
{
    match &e.kind {
        ExprKind::Unary(op, c) => handle_condition(c, *op == UnOp::Not),
        ExprKind::Binary(op, l, rr) => {
            if *op == BinOp::Or {
                let mut a = from_expression(l);
                let mut b = from_expression(rr);
                let ghost sa = a@;
                let ghost sb = b@;
                a.append(&mut b);
                proof {
                    vstd::seq_lib::seq_to_set_distributes_over_add(sa, sb);
                }
                assert(a@ == sa + sb);
                a
            } else {
                let r: Vec<ConditionalChecker> = Vec::new();
                assert(r@.to_set() =~= Set::<ConditionalChecker>::empty());
                r
            }
        },
        ExprKind::MethodCall { .. } => handle_condition(e, false),
        _ => {
            let r: Vec<ConditionalChecker> = Vec::new();
            assert(r@.to_set() =~= Set::<ConditionalChecker>::empty());
            r
        },
    }
}

/// Whether `e` is a literal, or a tuple, array, struct literal or repeat
/// expression built of literals only.
pub open spec fn literal_tree(e: Expr) -> bool
    decreases e,
{
    match e.kind {
        ExprKind::Lit { .. } => true,
        ExprKind::Tup(es) => forall|i: int| 0 <= i < es@.len() ==> literal_tree(#[trigger] es@[i]),
        ExprKind::Array(es) => forall|i: int|
            0 <= i < es@.len() ==> literal_tree(#[trigger] es@[i]),
        ExprKind::Struct { fields, .. } => forall|i: int|
            0 <= i < fields@.len() ==> literal_tree(#[trigger] fields@[i]),
        ExprKind::Repeat(x) => literal_tree(*x),
        _ => false,
    }
}

/// Whether every expression in `es` is built of literals only.
fn all_literal_trees(es: &Vec<Expr>) -> (b: bool)
    ensures
        b == (forall|i: int| 0 <= i < es@.len() ==> literal_tree(#[trigger] es@[i])),
    decreases es, 0nat,
{
    let mut i: usize = 0;
    while i < es.len()
        invariant
            0 <= i <= es@.len(),
            forall|j: int| 0 <= j < i ==> literal_tree(#[trigger] es@[j]),
        decreases es@.len() - i,
    {
        assert(decreases_to!(es => es@[i as int]));
        if !is_literal_or_composed_of_literals(&es[i]) {
            return false;
        }
        i = i + 1;
    }
    true
}

/// Whether `e` is a literal or composed of literals only.
pub fn is_literal_or_composed_of_literals(e: &Expr) -> (b: bool)
    ensures
        b == literal_tree(*e),
    decreases e, 1nat,
{
    match &e.kind {
        ExprKind::Lit { .. } => true,
        ExprKind::Tup(es) => all_literal_trees(es),
        ExprKind::Array(es) => all_literal_trees(es),
        ExprKind::Struct { fields, .. } => all_literal_trees(fields),
        ExprKind::Repeat(x) => is_literal_or_composed_of_literals(x),
        _ => false,
    }
}

/// Whether `e` is a method call that may panic through an unchecked
/// `expect`: an `expect` whose receiver is not a local known to hold a
/// value, or another method call with such a call among its arguments or in
/// its receiver.
pub open spec fn unsafe_expr_spec(e: Expr, checked: Set<u64>) -> bool
    decreases e,
{
    match e.kind {
        ExprKind::MethodCall { name, receiver, args } => if name@ == "expect"@ {
            match local_of(*receiver) {
                Some(id) => !checked.contains(id),
                None => true,
            }
        } else {
            (exists|i: int| 0 <= i < args@.len() && unsafe_expr_spec(#[trigger] args@[i], checked))
                || unsafe_expr_spec(*receiver, checked)
        },
        _ => false,
    }
}

/// Whether the method call `receiver.name(args)` may panic through an
/// unchecked `expect`.
pub open spec fn unsafe_call_spec(name: Seq<char>, receiver: Expr, args: Seq<Expr>, checked: Set<u64>) -> bool {
    if name == "expect"@ {
        match local_of(receiver) {
            Some(id) => !checked.contains(id),
            None => true,
        }
    } else {
        (exists|i: int| 0 <= i < args.len() && unsafe_expr_spec(#[trigger] args[i], checked))
            || unsafe_expr_spec(receiver, checked)
    }
}

/// Whether the path of a called function names `panic` or `bail` in one of
/// its segments.
pub open spec fn panic_inducing_spec(func: Expr) -> bool {
    match func.kind {
        ExprKind::Path(QPath::Resolved { segments, .. }) => exists|k: int|
            0 <= k < segments@.len() && (contains_text(#[trigger] segments@[k].name@, "panic"@)
                || contains_text(segments@[k].name@, "bail"@)),
        _ => false,
    }
}

/// Whether a `let` initializer is a call of `Some`/`Ok` on literals only,
/// which binds a value known to be present.
pub open spec fn known_present_spec(init: Expr) -> bool {
    match init.kind {
        ExprKind::Call { func, args } => match func.kind {
            ExprKind::Path(QPath::Resolved { segments, .. }) => (exists|k: int|
                0 <= k < segments@.len() && (#[trigger] segments@[k].name@ == "Some"@
                    || segments@[k].name@ == "Ok"@)) && (forall|i: int|
                0 <= i < args@.len() ==> literal_tree(#[trigger] args@[i])),
            _ => false,
        },
        _ => false,
    }
}

/// The warning that a `let` declaration gets: its span, when its
/// initializer is a method call that may panic through an unchecked
/// `expect`.
pub open spec fn local_lint_spec(local: LocalDecl, checked: Set<u64>) -> Option<Span> {
    match local.init {
        Some(init) => match init.kind {
            ExprKind::MethodCall { name, receiver, args } => if unsafe_call_spec(
                name@,
                *receiver,
                args@,
                checked,
            ) {
                Some(local.span)
            } else {
                None
            },
            _ => None,
        },
        None => None,
    }
}

/// The locals known to hold a value after a `let` declaration: its pattern
/// joins them when it is bound to `Some`/`Ok` of literals.
pub open spec fn local_checked_spec(local: LocalDecl, checked: Set<u64>) -> Set<u64> {
    match local.init {
        Some(init) => if known_present_spec(init) {
            checked.insert(local.pat_hir_id)
        } else {
            checked
        },
        None => checked,
    }
}

/// Whether the expression leaves the enclosing branch: a `return` or a call
/// of a panicking function.
pub open spec fn halts_here(e: Expr) -> bool {
    match e.kind {
        ExprKind::Ret(_) => true,
        ExprKind::Call { func, .. } => panic_inducing_spec(*func),
        _ => false,
    }
}

/// The warning for an `expect` whose receiver is not a local known to hold
/// a value: the span of the call.
pub open spec fn expect_lint_spec(e: Expr, checked: Set<u64>) -> Option<Span> {
    match e.kind {
        ExprKind::MethodCall { name, receiver, .. } => if name@ == "expect"@ {
            match local_of(*receiver) {
                Some(id) => if checked.contains(id) {
                    None
                } else {
                    Some(e.span)
                },
                None => Some(e.span),
            }
        } else {
            None
        },
        _ => None,
    }
}

/// What the walk does after the visitor has seen an expression.
#[derive(Debug)]
pub enum ExpectStep {
    /// The expression is an `if`: walk its `then` branch only, then hand
    /// these checkers back to `reset_conditional_checker`.
    WalkThen(Vec<ConditionalChecker>),
    /// Walk all children; warn about the span first, if there is one.
    WalkChildren(Option<Span>),
}

/// The checkers handed to the walk of a `then` branch, if the step is one.
pub open spec fn then_checkers(r: ExpectStep) -> Option<Set<ConditionalChecker>> {
    match r {
        ExpectStep::WalkThen(cs) => Some(cs@.to_set()),
        ExpectStep::WalkChildren(_) => None,
    }
}

/// The warning of a step that walks all children, if the step is one.
pub open spec fn children_lint(r: ExpectStep) -> Option<Option<Span>> {
    match r {
        ExpectStep::WalkThen(_) => None,
        ExpectStep::WalkChildren(l) => Some(l),
    }
}

/// What visiting `e` does, from the state `(c0, k0)` of checkers and known
/// locals to the step `r` and the state `(c1, k1)`. An `if` puts the checks
/// of its condition in force and walks its `then` branch only; any other
/// expression first marks the locals that halting branches make safe when it
/// is a `return` or a panicking call, then warns about an unchecked
/// `expect`, and walks its children.
pub open spec fn visit_expr_spec(
    e: Expr,
    c0: Set<ConditionalChecker>,
    k0: Set<u64>,
    r: ExpectStep,
    c1: Set<ConditionalChecker>,
    k1: Set<u64>,
) -> bool {
    match e.kind {
        ExprKind::If { cond, .. } => {
            &&& then_checkers(r) == Some(conditions_spec(*cond))
            &&& c1 == c0.union(conditions_spec(*cond))
            &&& k1 == k0.union(ids_with(conditions_spec(*cond), true))
        },
        _ => {
            &&& children_lint(r) == Some(expect_lint_spec(e, k0))
            &&& c1 == c0
            &&& k1 == if halts_here(e) {
                after_halt(c0, k0)
            } else {
                k0
            }
        },
    }
}

/// The state of the unsafe-`expect` visitor: the checks of the enclosing
/// `if` conditions and the locals known to hold a value.
pub struct UnsafeExpectVisitor {
    pub conditional_checker: Vec<ConditionalChecker>,
    pub checked_exprs: Vec<u64>,
}

/// The state after `handle_if_expressions`: the locals that an enclosing
/// `if` checks with `is_none`/`is_err` are known to hold a value once that
/// branch has returned or panicked.
pub open spec fn after_halt(checkers: Set<ConditionalChecker>, checked: Set<u64>) -> Set<u64> {
    checked.union(ids_with(checkers, false))
}

fn remove_id(v: &Vec<u64>, id: u64) -> (r: Vec<u64>)
    ensures
        r@.to_set() == v@.to_set().remove(id),
{
    let mut r: Vec<u64> = Vec::new();
    let mut j: usize = 0;
    while j < v.len()
        invariant
            0 <= j <= v@.len(),
            r@.to_set() == v@.take(j as int).to_set().remove(id),
        decreases v@.len() - j,
    {
        let ghost prev = r@;
        proof {
            v@.take(j as int).lemma_push_to_set_commute(v@[j as int]);
            assert(v@.take(j + 1) =~= v@.take(j as int).push(v@[j as int]));
        }
        if v[j] != id {
            r.push(v[j]);
            proof {
                prev.lemma_push_to_set_commute(v@[j as int]);
            }
        }
        assert(r@.to_set() =~= v@.take(j + 1).to_set().remove(id));
        j = j + 1;
    }
    assert(v@.take(v@.len() as int) =~= v@);
    r
}

fn remove_checker(v: &Vec<ConditionalChecker>, c: ConditionalChecker) -> (r: Vec<ConditionalChecker>)
    ensures
        r@.to_set() == v@.to_set().remove(c),
{
    let mut r: Vec<ConditionalChecker> = Vec::new();
    let mut j: usize = 0;
    while j < v.len()
        invariant
            0 <= j <= v@.len(),
            r@.to_set() == v@.take(j as int).to_set().remove(c),
        decreases v@.len() - j,
    {
        let ghost prev = r@;
        proof {
            v@.take(j as int).lemma_push_to_set_commute(v@[j as int]);
            assert(v@.take(j + 1) =~= v@.take(j as int).push(v@[j as int]));
        }
        if v[j] != c {
            r.push(v[j]);
            proof {
                prev.lemma_push_to_set_commute(v@[j as int]);
            }
        }
        assert(r@.to_set() =~= v@.take(j + 1).to_set().remove(c));
        j = j + 1;
    }
    assert(v@.take(v@.len() as int) =~= v@);
    r
}

fn names_panic(segments: &Vec<PathSegment>) -> (b: bool)
    ensures
        b == exists|k: int|
            0 <= k < segments@.len() && (contains_text(#[trigger] segments@[k].name@, "panic"@)
                || contains_text(segments@[k].name@, "bail"@)),
{
    let mut k: usize = 0;
    while k < segments.len()
        invariant
            0 <= k <= segments@.len(),
            forall|j: int|
                0 <= j < k ==> !(contains_text(#[trigger] segments@[j].name@, "panic"@)
                    || contains_text(segments@[j].name@, "bail"@)),
        decreases segments@.len() - k,
    {
        let name = segments[k].name.as_str();
        if text_contains(name, "panic") || text_contains(name, "bail") {
            assert(contains_text(segments@[k as int].name@, "panic"@) || contains_text(
                segments@[k as int].name@,
                "bail"@,
            ));
            return true;
        }
        k = k + 1;
    }
    false
}

fn names_some_or_ok(segments: &Vec<PathSegment>) -> (b: bool)
    ensures
        b == exists|k: int|
            0 <= k < segments@.len() && (#[trigger] segments@[k].name@ == "Some"@
                || segments@[k].name@ == "Ok"@),
{
    let mut k: usize = 0;
    while k < segments.len()
        invariant
            0 <= k <= segments@.len(),
            forall|j: int|
                0 <= j < k ==> !(#[trigger] segments@[j].name@ == "Some"@ || segments@[j].name@
                    == "Ok"@),
        decreases segments@.len() - k,
    {
        let name = segments[k].name.as_str();
        if text_eq(name, "Some") || text_eq(name, "Ok") {
            assert(segments@[k as int].name@ == "Some"@ || segments@[k as int].name@ == "Ok"@);
            return true;
        }
        k = k + 1;
    }
    false
}

impl UnsafeExpectVisitor {
    /// The checks of the enclosing `if` conditions.
    pub open spec fn checkers(&self) -> Set<ConditionalChecker> {
        self.conditional_checker@.to_set()
    }

    /// The locals known to hold a value.
    pub open spec fn checked(&self) -> Set<u64> {
        self.checked_exprs@.to_set()
    }

    /// The state at the start of a function body: nothing checked.
    pub fn new() -> (v: Self)
        ensures
            v.checkers() == Set::<ConditionalChecker>::empty(),
            v.checked() == Set::<u64>::empty(),
    {
        let v = UnsafeExpectVisitor { conditional_checker: Vec::new(), checked_exprs: Vec::new() };
        assert(v.checkers() =~= Set::<ConditionalChecker>::empty());
        assert(v.checked() =~= Set::<u64>::empty());
        v
    }

    /// Whether `func`, the callee of a call, is a path naming `panic` or
    /// `bail`.
    pub fn is_panic_inducing_call(&self, func: &Expr) -> (b: bool)
        ensures
            b == panic_inducing_spec(*func),
    {
        if let ExprKind::Path(QPath::Resolved { segments, .. }) = &func.kind {
            names_panic(segments)
        } else {
            false
        }
    }

    /// The local that an `expect` receiver names, if it names one.
    pub fn get_expect_info(&self, receiver: &Expr) -> (r: Option<u64>)
        ensures
            r == local_of(*receiver),
    {
        local_of_expr(receiver)
    }

    /// Enters the `then` branch of an `if` whose condition makes the checks
    /// `cs`: they are in force, and the locals they check with
    /// `is_some`/`is_ok` hold a value.
    pub fn set_conditional_checker(&mut self, cs: &Vec<ConditionalChecker>)
        ensures
            final(self).checkers() == old(self).checkers().union(cs@.to_set()),
            final(self).checked() == old(self).checked().union(ids_with(cs@.to_set(), true)),
    {
        let ghost c0 = self.checkers();
        let ghost k0 = self.checked();
        let mut i: usize = 0;
        assert(cs@.take(0) =~= Seq::<ConditionalChecker>::empty());
        assert(ids_with(cs@.take(0).to_set(), true) =~= Set::<u64>::empty());
        while i < cs.len()
            invariant
                0 <= i <= cs@.len(),
                self.checkers() == c0.union(cs@.take(i as int).to_set()),
                self.checked() == k0.union(ids_with(cs@.take(i as int).to_set(), true)),
            decreases cs@.len() - i,
        {
            let c = cs[i];
            let ghost before = cs@.take(i as int).to_set();
            proof {
                cs@.take(i as int).lemma_push_to_set_commute(c);
                assert(cs@.take(i + 1) =~= cs@.take(i as int).push(c));
                lemma_ids_with_insert(before, c, true);
                self.conditional_checker@.lemma_push_to_set_commute(c);
            }
            self.conditional_checker.push(c);
            if c.check_type.is_safe_to_expect() {
                proof {
                    self.checked_exprs@.lemma_push_to_set_commute(c.checked_expr_hir_id);
                }
                self.checked_exprs.push(c.checked_expr_hir_id);
            }
            assert(self.checkers() =~= c0.union(cs@.take(i + 1).to_set()));
            assert(self.checked() =~= k0.union(ids_with(cs@.take(i + 1).to_set(), true)));
            i = i + 1;
        }
        assert(cs@.take(cs@.len() as int) =~= cs@);
    }

    /// Leaves the `then` branch of an `if` whose condition made the checks
    /// `cs`: they are no longer in force, and the locals they checked with
    /// `is_some`/`is_ok` are no longer known to hold a value.
    pub fn reset_conditional_checker(&mut self, cs: Vec<ConditionalChecker>)
        ensures
            final(self).checkers() == old(self).checkers().difference(cs@.to_set()),
            final(self).checked() == old(self).checked().difference(ids_with(cs@.to_set(), true)),
    {
        let ghost c0 = self.checkers();
        let ghost k0 = self.checked();
        let mut i: usize = 0;
        assert(cs@.take(0) =~= Seq::<ConditionalChecker>::empty());
        assert(ids_with(cs@.take(0).to_set(), true) =~= Set::<u64>::empty());
        assert(c0.difference(cs@.take(0).to_set()) =~= c0);
        assert(k0.difference(ids_with(cs@.take(0).to_set(), true)) =~= k0);
        while i < cs.len()
            invariant
                0 <= i <= cs@.len(),
                self.checkers() == c0.difference(cs@.take(i as int).to_set()),
                self.checked() == k0.difference(ids_with(cs@.take(i as int).to_set(), true)),
            decreases cs@.len() - i,
        {
            let c = cs[i];
            let ghost before = cs@.take(i as int).to_set();
            proof {
                cs@.take(i as int).lemma_push_to_set_commute(c);
                assert(cs@.take(i + 1) =~= cs@.take(i as int).push(c));
                lemma_ids_with_insert(before, c, true);
            }
            if c.check_type.is_safe_to_expect() {
                self.checked_exprs = remove_id(&self.checked_exprs, c.checked_expr_hir_id);
            }
            self.conditional_checker = remove_checker(&self.conditional_checker, c);
            assert(self.checkers() =~= c0.difference(cs@.take(i + 1).to_set()));
            assert(self.checked() =~= k0.difference(ids_with(cs@.take(i + 1).to_set(), true)));
            i = i + 1;
        }
        assert(cs@.take(cs@.len() as int) =~= cs@);
    }

    /// A branch inside the enclosing `if`s returns or panics: the locals
    /// that those conditions check with `is_none`/`is_err` hold a value after
    /// them.
    pub fn handle_if_expressions(&mut self)
        ensures
            final(self).checkers() == old(self).checkers(),
            final(self).checked() == after_halt(old(self).checkers(), old(self).checked()),
    {
        let ghost k0 = self.checked();
        let ghost all = self.conditional_checker@;
        let mut i: usize = 0;
        assert(all.take(0) =~= Seq::<ConditionalChecker>::empty());
        assert(ids_with(all.take(0).to_set(), false) =~= Set::<u64>::empty());
        assert(k0.union(Set::<u64>::empty()) =~= k0);
        while i < self.conditional_checker.len()
            invariant
                0 <= i <= all.len(),
                self.conditional_checker@ == all,
                self.checked() == k0.union(ids_with(all.take(i as int).to_set(), false)),
            decreases all.len() - i,
        {
            let c = self.conditional_checker[i];
            let ghost before = all.take(i as int).to_set();
            proof {
                all.take(i as int).lemma_push_to_set_commute(c);
                assert(all.take(i + 1) =~= all.take(i as int).push(c));
                lemma_ids_with_insert(before, c, false);
            }
            if c.check_type.should_halt_execution() {
                proof {
                    self.checked_exprs@.lemma_push_to_set_commute(c.checked_expr_hir_id);
                }
                self.checked_exprs.push(c.checked_expr_hir_id);
            }
            assert(self.checked() =~= k0.union(ids_with(all.take(i + 1).to_set(), false)));
            i = i + 1;
        }
        assert(all.take(all.len() as int) =~= all);
    }

    /// Whether the method call `receiver.name(args)` may panic through an
    /// unchecked `expect`.
    pub fn is_method_call_unsafe(&self, name: &str, receiver: &Expr, args: &Vec<Expr>) -> (b: bool)
        ensures
            b == unsafe_call_spec(name@, *receiver, args@, self.checked()),
    {
        if text_eq(name, "expect") {
            return match self.get_expect_info(receiver) {
                Some(id) => !self.contains_checked(id),
                None => true,
            };
        }
        self.any_unsafe(args) || self.contains_unsafe_method_call(receiver)
    }

    fn any_unsafe(&self, es: &Vec<Expr>) -> (b: bool)
        ensures
            b == (exists|i: int| 0 <= i < es@.len() && unsafe_expr_spec(#[trigger] es@[i], self.checked())),
        decreases es, 0nat,
    {
        let mut i: usize = 0;
        while i < es.len()
            invariant
                0 <= i <= es@.len(),
                forall|j: int| 0 <= j < i ==> !unsafe_expr_spec(#[trigger] es@[j], self.checked()),
            decreases es@.len() - i,
        {
            assert(decreases_to!(es => es@[i as int]));
            if self.contains_unsafe_method_call(&es[i]) {
                return true;
            }
            i = i + 1;
        }
        false
    }

    /// Whether `e` is a method call that may panic through an unchecked
    /// `expect`.
    pub fn contains_unsafe_method_call(&self, e: &Expr) -> (b: bool)
        ensures
            b == unsafe_expr_spec(*e, self.checked()),
        decreases e, 1nat,
    {
        match &e.kind {
            ExprKind::MethodCall { name, receiver, args } => {
                if text_eq(name.as_str(), "expect") {
                    match self.get_expect_info(receiver) {
                        Some(id) => !self.contains_checked(id),
                        None => true,
                    }
                } else {
                    self.any_unsafe(args) || self.contains_unsafe_method_call(receiver)
                }
            },
            _ => false,
        }
    }

    /// Whether a `let` initializer binds a value known to be present.
    fn is_known_present(&self, init: &Expr) -> (b: bool)
        ensures
            b == known_present_spec(*init),
    {
        if let ExprKind::Call { func, args } = &init.kind {
            if let ExprKind::Path(QPath::Resolved { segments, .. }) = &func.kind {
                names_some_or_ok(segments) && all_literal_trees(args)
            } else {
                false
            }
        } else {
            false
        }
    }

    /// Visits a `let` declaration; the walk does not descend into it. Returns
    /// the span to warn about, if its initializer may panic through an
    /// unchecked `expect`.
    pub fn visit_local(&mut self, local: &LocalDecl) -> (r: Option<Span>)
        ensures
            r == local_lint_spec(*local, old(self).checked()),
            final(self).checked() == local_checked_spec(*local, old(self).checked()),
            final(self).checkers() == old(self).checkers(),
    {
        match &local.init {
            Some(init) => match &init.kind {
                ExprKind::MethodCall { name, receiver, args } => {
                    if self.is_method_call_unsafe(name.as_str(), receiver, args) {
                        Some(local.span)
                    } else {
                        None
                    }
                },
                _ => {
                    if self.is_known_present(init) {
                        proof {
                            self.checked_exprs@.lemma_push_to_set_commute(local.pat_hir_id);
                        }
                        self.checked_exprs.push(local.pat_hir_id);
                    }
                    None
                },
            },
            None => None,
        }
    }

    /// Visits an expression and says how the walk goes on.
    pub fn visit_expr(&mut self, expr: &Expr) -> (r: ExpectStep)
        ensures
            visit_expr_spec(
                *expr,
                old(self).checkers(),
                old(self).checked(),
                r,
                final(self).checkers(),
                final(self).checked(),
            ),
    {
        let ghost c0 = self.checkers();
        let ghost k0 = self.checked();
        if self.conditional_checker.len() > 0 {
            let halts = match &expr.kind {
                ExprKind::Ret(_) => true,
                ExprKind::Call { func, .. } => self.is_panic_inducing_call(func),
                _ => false,
            };
            if halts {
                self.handle_if_expressions();
            }
        } else {
            assert(c0 =~= Set::<ConditionalChecker>::empty());
            assert(ids_with(c0, false) =~= Set::<u64>::empty());
            assert(after_halt(c0, k0) =~= k0);
        }
        match &expr.kind {
            ExprKind::If { cond, .. } => {
                let cs = from_expression(cond);
                self.set_conditional_checker(&cs);
                ExpectStep::WalkThen(cs)
            },
            ExprKind::MethodCall { name, receiver, .. } => {
                if text_eq(name.as_str(), "expect") {
                    let safe = match self.get_expect_info(receiver) {
                        Some(id) => self.contains_checked(id),
                        None => false,
                    };
                    if safe {
                        ExpectStep::WalkChildren(None)
                    } else {
                        ExpectStep::WalkChildren(Some(expr.span))
                    }
                } else {
                    ExpectStep::WalkChildren(None)
                }
            },
            _ => ExpectStep::WalkChildren(None),
        }
    }

    /// Whether the local `id` is known to hold a value.
    pub fn contains_checked(&self, id: u64) -> (b: bool)
        ensures
            b == self.checked().contains(id),
    {
        let mut i: usize = 0;
        while i < self.checked_exprs.len()
            invariant
                0 <= i <= self.checked_exprs@.len(),
                forall|j: int| 0 <= j < i ==> self.checked_exprs@[j] != id,
            decreases self.checked_exprs@.len() - i,
        {
            if self.checked_exprs[i] == id {
                return true;
            }
            i = i + 1;
        }
        false
    }
}

/// Entering the `then` branch of an `if` and leaving it again restores the
/// visitor's state, when the condition's checks were not in force before
/// and the locals they make safe were not known to hold a value.
pub proof fn lemma_enter_leave_if_restores(
    c0: Set<ConditionalChecker>,
    k0: Set<u64>,
    cs: Set<ConditionalChecker>,
)
    requires
        forall|c: ConditionalChecker| !(#[trigger] c0.contains(c) && cs.contains(c)),
        forall|id: u64| !(#[trigger] k0.contains(id) && ids_with(cs, true).contains(id)),
    ensures
        c0.union(cs).difference(cs) == c0,
        k0.union(ids_with(cs, true)).difference(ids_with(cs, true)) == k0,
{
    assert(c0.union(cs).difference(cs) =~= c0);
    assert(k0.union(ids_with(cs, true)).difference(ids_with(cs, true)) =~= k0);
}

/// Inside the `then` branch of `if x.is_some()` (or `x.is_ok()`), an
/// `expect` on `x` is not reported.
pub proof fn lemma_checked_local_not_reported(
    cond: Expr,
    c0: Set<ConditionalChecker>,
    k0: Set<u64>,
    call: Expr,
)
    requires
        cond.kind matches ExprKind::MethodCall { name, receiver, .. } && (name@ == "is_some"@
            || name@ == "is_ok"@) && local_of(*receiver) is Some,
        call.kind matches ExprKind::MethodCall { receiver, .. } && local_of(*receiver) == local_of(
            *cond.kind->receiver,
        ),
    ensures
        expect_lint_spec(call, k0.union(ids_with(conditions_spec(cond), true))) is None,
{
    reveal_strlit("is_some");
    reveal_strlit("is_ok");
    reveal_strlit("is_none");
    reveal_strlit("is_err");
    let id = local_of(*cond.kind->receiver)->0;
    let t = CheckType::from_name_spec(cond.kind->name@)->0;
    let c = ConditionalChecker { check_type: t, checked_expr_hir_id: id };
    let n = cond.kind->name@;
    if n == "is_some"@ {
        assert(t == CheckType::IsSome);
    } else {
        assert(n == "is_ok"@);
        assert("is_ok"@.len() == 5);
        assert("is_some"@.len() == 7);
        assert("is_none"@.len() == 7);
        assert(t == CheckType::IsOk);
    }
    assert(conditions_spec(cond).contains(c));
    assert(conditions_spec(cond).contains(c) && c.check_type.is_safe_spec() == true
        && c.checked_expr_hir_id == id);
    assert(ids_with(conditions_spec(cond), true).contains(id));
}

/// The message of an unsafe-`expect` warning.
pub open spec fn expect_lint_message() -> Seq<char> {
    "Unsafe usage of `expect`"@
}

/// The help of an unsafe-`expect` warning.
pub open spec fn expect_lint_help() -> Seq<char> {
    "Please, use a custom error instead of `expect`"@
}

/// The unsafe-`expect` detector.
pub struct UnsafeExpect {}

impl UnsafeExpect {
    /// The detector.
    pub fn new() -> (r: Self) {
        UnsafeExpect {  }
    }

    /// Whether a function is analysed: one that a macro expansion produced
    /// (`from_expansion`) is not; any other is walked with a fresh visitor.
    pub fn check_fn(&self, from_expansion: bool) -> (r: Option<UnsafeExpectVisitor>)
        ensures
            r is Some <==> !from_expansion,
            r matches Some(v) ==> v.checkers() == Set::<ConditionalChecker>::empty() && v.checked()
                == Set::<u64>::empty(),
    {
        if from_expansion {
            None
        } else {
            Some(UnsafeExpectVisitor::new())
        }
    }

    /// The message of a warning.
    pub fn message(&self) -> (r: String)
        ensures
            r@ == expect_lint_message(),
    {
        String::from_str("Unsafe usage of `expect`")
    }

    /// The help of a warning.
    pub fn help(&self) -> (r: String)
        ensures
            r@ == expect_lint_help(),
    {
        String::from_str("Please, use a custom error instead of `expect`")
    }
}

} // verus!
