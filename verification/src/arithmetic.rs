//! The decisions of the integer overflow/underflow detector.
//!
//! Every integer arithmetic operation (binary, compound assignment or
//! negation) is reported, except comparisons and logical or bitwise
//! operations, division and remainder by a literal, and operations inside a
//! constant or static initializer or inside an already reported operation.
//! The compiler calls the detector before and after each expression and
//! body; the detector's state is an `ArithmeticContext`.
use vstd::prelude::*;
use crate::mir::Span;
use crate::hir::{Expr, ExprKind, BinOp, UnOp};

verus! {

/// The kind of item that owns a body.
#[derive(Clone, Copy, PartialEq, Eq, Structural, Debug)]
pub enum BodyOwnerKind {
    Fn,
    Closure,
    Const,
    Static,
}

/// A warning: where, and what it says.
#[derive(Debug)]
pub struct Lint {
    pub span: Span,
    pub message: String,
}

/// The source form of a binary operator (`BinOpKind::as_str`).
pub open spec fn op_text(op: BinOp) -> Seq<char> {
    match op {
        BinOp::Add => "+"@,
        BinOp::Sub => "-"@,
        BinOp::Mul => "*"@,
        BinOp::Div => "/"@,
        BinOp::Rem => "%"@,
        BinOp::And => "&&"@,
        BinOp::Or => "||"@,
        BinOp::BitXor => "^"@,
        BinOp::BitAnd => "&"@,
        BinOp::BitOr => "|"@,
        BinOp::Shl => "<<"@,
        BinOp::Shr => ">>"@,
        BinOp::Eq => "=="@,
        BinOp::Lt => "<"@,
        BinOp::Le => "<="@,
        BinOp::Ne => "!="@,
        BinOp::Ge => ">="@,
        BinOp::Gt => ">"@,
    }
}

/// The source form of a binary operator.
pub fn op_as_str(op: BinOp) -> (r: &'static str)
    ensures
        r@ == op_text(op),
{
    match op {
        BinOp::Add => "+",
        BinOp::Sub => "-",
        BinOp::Mul => "*",
        BinOp::Div => "/",
        BinOp::Rem => "%",
        BinOp::And => "&&",
        BinOp::Or => "||",
        BinOp::BitXor => "^",
        BinOp::BitAnd => "&",
        BinOp::BitOr => "|",
        BinOp::Shl => "<<",
        BinOp::Shr => ">>",
        BinOp::Eq => "==",
        BinOp::Lt => "<",
        BinOp::Le => "<=",
        BinOp::Ne => "!=",
        BinOp::Ge => ">=",
        BinOp::Gt => ">",
    }
}

/// Whether the operator cannot overflow: a logical, bitwise or comparison
/// operator.
pub open spec fn never_overflows(op: BinOp) -> bool {
    match op {
        BinOp::And | BinOp::Or | BinOp::BitAnd | BinOp::BitOr | BinOp::BitXor | BinOp::Eq
        | BinOp::Lt | BinOp::Le | BinOp::Ne | BinOp::Ge | BinOp::Gt => true,
        _ => false,
    }
}

/// The message for a binary operation.
pub open spec fn operation_message(op: BinOp) -> Seq<char> {
    "Potential for integer arithmetic overflow/underflow in operation '"@ + op_text(op)
        + "'. Consider checked, wrapping or saturating arithmetic."@
}

/// The message for a division or remainder by a negated one.
pub open spec fn negative_divisor_message() -> Seq<char> {
    "Potential for integer arithmetic overflow/underflow in unary operation with negative expression. Consider checked, wrapping or saturating arithmetic."@
}

/// The message for a negation.
pub open spec fn negation_message() -> Seq<char> {
    "Potential for integer arithmetic overflow/underflow. Consider checked, wrapping or saturating arithmetic."@
}

/// Whether `e` is the integer literal `1`.
pub open spec fn is_literal_one(e: Expr) -> bool {
    match e.kind {
        ExprKind::Lit { int_value, .. } => int_value == Some(1u128),
        _ => false,
    }
}

/// The expression that a binary operation `expr` with right operand `r` is
/// reported at, and the operation's message, if it is reported at all
/// (its operands being integers): division and remainder by a literal are
/// not reported, and by a negated operand only when that operand is the
/// literal `1`, at that operand.
pub open spec fn binary_report(expr: Expr, op: BinOp, r: Expr) -> Option<(u64, Span, Seq<char>)> {
    if op == BinOp::Div || op == BinOp::Rem {
        match r.kind {
            ExprKind::Lit { .. } => None,
            ExprKind::Unary(UnOp::Neg, inner) => if is_literal_one(*inner) {
                Some((inner.hir_id, inner.span, negative_divisor_message()))
            } else {
                None
            },
            _ => Some((expr.hir_id, expr.span, operation_message(op))),
        }
    } else {
        Some((expr.hir_id, expr.span, operation_message(op)))
    }
}

/// Whether `lint` and the reported expression `new_id` agree with the
/// outcome `out` of an examination that started with `old_id`: a warning with
/// the outcome's span and message, the outcome's expression remembered; or
/// none, and nothing changed.
pub open spec fn reported(
    out: Option<(u64, Span, Seq<char>)>,
    lint: Option<Lint>,
    old_id: Option<u64>,
    new_id: Option<u64>,
) -> bool {
    match out {
        Some((id, span, message)) => match lint {
            Some(l) => l.span == span && l.message@ == message && new_id == Some(id),
            None => false,
        },
        None => lint is None && new_id == old_id,
    }
}

/// The state of the detector: the operation reported last, until the walk
/// leaves it, and the span of the constant or static initializer being
/// walked.
pub struct ArithmeticContext {
    pub expr_id: Option<u64>,
    pub const_span: Option<Span>,
}

impl ArithmeticContext {
    /// Whether an expression at `span` is not examined: the walk is inside a
    /// reported operation or inside a constant initializer.
    pub open spec fn skips(&self, span: Span) -> bool {
        self.expr_id.is_some() || match self.const_span {
            Some(c) => c.contains_spec(span),
            None => false,
        }
    }

    /// The outcome of examining the binary operation `expr` (operator `op`,
    /// right operand `r`, integer operands when `integral`).
    pub open spec fn binary_outcome(&self, expr: Expr, op: BinOp, r: Expr, integral: bool) -> Option<
        (u64, Span, Seq<char>),
    > {
        if self.skips(expr.span) || never_overflows(op) || !integral {
            None
        } else {
            binary_report(expr, op, r)
        }
    }

    /// The outcome of examining the negation `expr`.
    pub open spec fn negate_outcome(&self, expr: Expr, constant: bool, integral: bool) -> Option<
        (u64, Span, Seq<char>),
    > {
        if !self.skips(expr.span) && !constant && integral {
            Some((expr.hir_id, expr.span, negation_message()))
        } else {
            None
        }
    }

    /// The state at the start of a crate.
    pub fn new() -> (r: Self)
        ensures
            r.expr_id.is_none(),
            r.const_span.is_none(),
    {
        ArithmeticContext { expr_id: None, const_span: None }
    }

    /// Whether the expression at `span` is not examined.
    pub fn skip_expr(&self, span: Span) -> (b: bool)
        ensures
            b == self.skips(span),
    {
        self.expr_id.is_some() || match &self.const_span {
            Some(c) => c.contains(&span),
            None => false,
        }
    }

    /// Examines the binary operation or compound assignment `expr` with
    /// operator `op` and right operand `r`; `integral` says whether both
    /// operands are integers. Returns the warning, if any, and remembers
    /// the reported expression so that nothing inside it is reported.
    pub fn check_binary(&mut self, expr: &Expr, op: BinOp, r: &Expr, integral: bool) -> (lint:
        Option<Lint>)
        ensures
            final(self).const_span == old(self).const_span,
            reported(
                old(self).binary_outcome(*expr, op, *r, integral),
                lint,
                old(self).expr_id,
                final(self).expr_id,
            ),
    {
        if self.skip_expr(expr.span) {
            return None;
        }
        match op {
            BinOp::And | BinOp::Or | BinOp::BitAnd | BinOp::BitOr | BinOp::BitXor | BinOp::Eq
            | BinOp::Lt | BinOp::Le | BinOp::Ne | BinOp::Ge | BinOp::Gt => {
                return None;
            },
            _ => {},
        }
        if !integral {
            return None;
        }
        if op == BinOp::Div || op == BinOp::Rem {
            match &r.kind {
                ExprKind::Lit { .. } => None,
                ExprKind::Unary(UnOp::Neg, inner) => {
                    let one = match &inner.kind {
                        ExprKind::Lit { int_value, .. } => *int_value == Some(1u128),
                        _ => false,
                    };
                    if one {
                        self.expr_id = Some(inner.hir_id);
                        Some(
                            Lint {
                                span: inner.span,
                                message: String::from_str(
                                    "Potential for integer arithmetic overflow/underflow in unary operation with negative expression. Consider checked, wrapping or saturating arithmetic.",
                                ),
                            },
                        )
                    } else {
                        None
                    }
                },
                _ => {
                    self.expr_id = Some(expr.hir_id);
                    Some(Lint { span: expr.span, message: operation_text(op) })
                },
            }
        } else {
            self.expr_id = Some(expr.hir_id);
            Some(Lint { span: expr.span, message: operation_text(op) })
        }
    }

    /// Examines the negation `expr`; `constant` says whether it evaluates to
    /// a constant and `integral` whether its operand is an integer.
    pub fn check_negate(&mut self, expr: &Expr, constant: bool, integral: bool) -> (lint: Option<
        Lint,
    >)
        ensures
            final(self).const_span == old(self).const_span,
            reported(
                old(self).negate_outcome(*expr, constant, integral),
                lint,
                old(self).expr_id,
                final(self).expr_id,
            ),
    {
        if self.skip_expr(expr.span) {
            return None;
        }
        if !constant && integral {
            self.expr_id = Some(expr.hir_id);
            Some(
                Lint {
                    span: expr.span,
                    message: String::from_str(
                        "Potential for integer arithmetic overflow/underflow. Consider checked, wrapping or saturating arithmetic.",
                    ),
                },
            )
        } else {
            None
        }
    }

    /// The walk leaves the expression `id`: if it was the reported one,
    /// expressions are examined again.
    pub fn expr_post(&mut self, id: u64)
        ensures
            final(self).const_span == old(self).const_span,
            final(self).expr_id == if old(self).expr_id == Some(id) {
                None
            } else {
                old(self).expr_id
            },
    {
        if self.expr_id == Some(id) {
            self.expr_id = None;
        }
    }

    /// The walk enters a body of the given owner kind and span: a constant
    /// or static initializer not inside the current one becomes the current
    /// one.
    pub fn enter_body(&mut self, owner: BodyOwnerKind, body_span: Span)
        ensures
            final(self).expr_id == old(self).expr_id,
            final(self).const_span == if (owner == BodyOwnerKind::Const || owner
                == BodyOwnerKind::Static) && !(old(self).const_span matches Some(c)
                && c.contains_spec(body_span)) {
                Some(body_span)
            } else {
                old(self).const_span
            },
    {
        match owner {
            BodyOwnerKind::Static | BodyOwnerKind::Const => {
                if let Some(span) = &self.const_span {
                    if span.contains(&body_span) {
                        return;
                    }
                }
                self.const_span = Some(body_span);
            },
            BodyOwnerKind::Fn | BodyOwnerKind::Closure => {},
        }
    }

    /// The walk leaves a body of the given span: unless it lies inside the
    /// current constant initializer, there is none any more.
    pub fn body_post(&mut self, body_span: Span)
        ensures
            final(self).expr_id == old(self).expr_id,
            final(self).const_span == if old(self).const_span matches Some(c)
                && c.contains_spec(body_span) {
                old(self).const_span
            } else {
                None
            },
    {
        if let Some(span) = &self.const_span {
            if span.contains(&body_span) {
                return;
            }
        }
        self.const_span = None;
    }
}

/// The message for a binary operation with operator `op`.
pub fn operation_text(op: BinOp) -> (r: String)
    ensures
        r@ == operation_message(op),
{
    let mut r = String::from_str("Potential for integer arithmetic overflow/underflow in operation '");
    r.append(op_as_str(op));
    r.append("'. Consider checked, wrapping or saturating arithmetic.");
    r
}

/// What the detector learns from the types of an expression: whether the
/// operands of an arithmetic operation (or the operand of a negation) are
/// integers, and whether the expression evaluates to a constant.
#[derive(Clone, Copy, Debug)]
pub struct ExprTypes {
    pub integral: bool,
    pub constant: bool,
}

/// The integer overflow/underflow detector.
pub struct IntegerOverflowUnderflow {
    pub arithmetic_context: ArithmeticContext,
}

impl IntegerOverflowUnderflow {
    /// The outcome of examining `e` before its children.
    pub open spec fn expr_outcome(&self, e: Expr, types: ExprTypes) -> Option<(u64, Span, Seq<char>)> {
        match e.kind {
            ExprKind::Binary(op, _, r) => self.arithmetic_context.binary_outcome(
                e,
                op,
                *r,
                types.integral,
            ),
            ExprKind::AssignOp(op, _, r) => self.arithmetic_context.binary_outcome(
                e,
                op,
                *r,
                types.integral,
            ),
            ExprKind::Unary(UnOp::Neg, _) => self.arithmetic_context.negate_outcome(
                e,
                types.constant,
                types.integral,
            ),
            _ => None,
        }
    }

    /// The detector at the start of a crate.
    pub fn new() -> (r: Self)
        ensures
            r.arithmetic_context.expr_id.is_none(),
            r.arithmetic_context.const_span.is_none(),
    {
        IntegerOverflowUnderflow { arithmetic_context: ArithmeticContext::new() }
    }

    /// Examines an expression before its children: binary operations and
    /// compound assignments as `check_binary`, negations as
    /// `check_negate`; any other expression is left alone.
    pub fn check_expr(&mut self, e: &Expr, types: ExprTypes) -> (lint: Option<Lint>)
        ensures
            final(self).arithmetic_context.const_span == old(self).arithmetic_context.const_span,
            reported(
                old(self).expr_outcome(*e, types),
                lint,
                old(self).arithmetic_context.expr_id,
                final(self).arithmetic_context.expr_id,
            ),
    {
        match &e.kind {
            ExprKind::Binary(op, _, r) => self.arithmetic_context.check_binary(
                e,
                *op,
                r,
                types.integral,
            ),
            ExprKind::AssignOp(op, _, r) => self.arithmetic_context.check_binary(
                e,
                *op,
                r,
                types.integral,
            ),
            ExprKind::Unary(UnOp::Neg, _) => self.arithmetic_context.check_negate(
                e,
                types.constant,
                types.integral,
            ),
            _ => None,
        }
    }

    /// The walk leaves the expression `id` (see `ArithmeticContext::expr_post`).
    pub fn check_expr_post(&mut self, id: u64)
        ensures
            final(self).arithmetic_context.const_span == old(self).arithmetic_context.const_span,
            final(self).arithmetic_context.expr_id == if old(self).arithmetic_context.expr_id == Some(
                id,
            ) {
                None
            } else {
                old(self).arithmetic_context.expr_id
            },
    {
        self.arithmetic_context.expr_post(id);
    }

    /// The walk enters a body (see `ArithmeticContext::enter_body`).
    pub fn check_body(&mut self, owner: BodyOwnerKind, body_span: Span)
        ensures
            final(self).arithmetic_context.expr_id == old(self).arithmetic_context.expr_id,
            final(self).arithmetic_context.const_span == if (owner == BodyOwnerKind::Const || owner
                == BodyOwnerKind::Static) && !(old(self).arithmetic_context.const_span matches Some(c)
                && c.contains_spec(body_span)) {
                Some(body_span)
            } else {
                old(self).arithmetic_context.const_span
            },
    {
        self.arithmetic_context.enter_body(owner, body_span);
    }

    /// The walk leaves a body (see `ArithmeticContext::body_post`).
    pub fn check_body_post(&mut self, body_span: Span)
        ensures
            final(self).arithmetic_context.expr_id == old(self).arithmetic_context.expr_id,
            final(self).arithmetic_context.const_span == if old(self).arithmetic_context.const_span matches Some(
                c,
            ) && c.contains_spec(body_span) {
                old(self).arithmetic_context.const_span
            } else {
                None
            },
    {
        self.arithmetic_context.body_post(body_span);
    }
}

/// Nothing inside a reported operation is reported: while an operation is
/// remembered, every examination is silent.
pub proof fn lemma_inside_reported_silent(
    ctx: ArithmeticContext,
    expr: Expr,
    op: BinOp,
    r: Expr,
    integral: bool,
    constant: bool,
)
    requires
        ctx.expr_id is Some,
    ensures
        ctx.binary_outcome(expr, op, r, integral) is None,
        ctx.negate_outcome(expr, constant, integral) is None,
{
}

/// Logical, bitwise and comparison operators are never reported.
pub proof fn lemma_non_arithmetic_silent(ctx: ArithmeticContext, expr: Expr, op: BinOp, r: Expr, integral: bool)
    requires
        never_overflows(op),
    ensures
        ctx.binary_outcome(expr, op, r, integral) is None,
{
}

/// Nothing inside a constant or static initializer is reported: after the
/// walk enters such a body (outside any current one), every expression
/// within its span is skipped.
pub proof fn lemma_const_body_silent(ctx: ArithmeticContext, body_span: Span, span: Span)
    requires
        ctx.const_span is None,
        body_span.contains_spec(span),
    ensures
        (ArithmeticContext { expr_id: ctx.expr_id, const_span: Some(body_span) }).skips(span),
{
}

/// Leaving the reported operation makes the walk examine expressions
/// again (outside constant initializers).
pub proof fn lemma_post_resumes(ctx: ArithmeticContext, id: u64, span: Span)
    requires
        ctx.expr_id == Some(id),
        ctx.const_span is None,
    ensures
        !(ArithmeticContext { expr_id: None, const_span: ctx.const_span }).skips(span),
{
}

/// Law: an operation on integers that can overflow is reported where the
/// walk examines it, at the operation's own span, naming its operator. This
/// holds of addition, subtraction, multiplication and the shifts, and of
/// division and remainder too, unless the divisor is a literal or a
/// negation.
pub proof fn lemma_overflowing_operation_reported(
    ctx: ArithmeticContext,
    expr: Expr,
    op: BinOp,
    r: Expr,
    integral: bool,
)
    requires
        !ctx.skips(expr.span),
        integral,
        !never_overflows(op),
        op == BinOp::Div || op == BinOp::Rem ==> !(r.kind is Lit) && !(r.kind matches ExprKind::Unary(
            UnOp::Neg,
            _,
        )),
    ensures
        ctx.binary_outcome(expr, op, r, integral) == Some(
            (
                expr.hir_id,
                expr.span,
                "Potential for integer arithmetic overflow/underflow in operation '"@ + op_text(op)
                    + "'. Consider checked, wrapping or saturating arithmetic."@,
            ),
        ),
{
}

/// Law: a division or remainder by a literal is never reported, and one by
/// a negation only when the negated operand is the literal `1`, and then at
/// that operand.
pub proof fn lemma_division_divisors(ctx: ArithmeticContext, expr: Expr, op: BinOp, r: Expr, integral: bool)
    requires
        op == BinOp::Div || op == BinOp::Rem,
    ensures
        r.kind is Lit ==> ctx.binary_outcome(expr, op, r, integral) is None,
        r.kind matches ExprKind::Unary(UnOp::Neg, inner) ==> ctx.binary_outcome(expr, op, r, integral)
            == if !ctx.skips(expr.span) && integral && (inner.kind matches ExprKind::Lit {
            int_value,
            ..
        } && int_value == Some(1u128)) {
            Some((inner.hir_id, inner.span, negative_divisor_message()))
        } else {
            None
        },
{
}

} // verus!
