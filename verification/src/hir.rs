//! A plain model of the parts of a function's HIR (the typed syntax tree)
//! that the syntax-based detectors read: expressions with their node ids and
//! spans, paths with their segments and resolutions, statements and `let`
//! declarations.
//!
//! Node ids (`HirId`) are numbered by a `u64` that the converter assigns; two
//! nodes are the same node when their ids are equal. Only the shapes that
//! some detector tells apart have a variant of their own; everything else is
//! `ExprKind::Other`, which keeps its subexpressions. The subexpressions of a
//! node are listed in the order in which the compiler's visitor walks them.
use vstd::prelude::*;
use crate::mir::Span;

verus! {

/// One segment of a path, with its name and node id.
#[derive(Debug)]
pub struct PathSegment {
    pub name: String,
    pub hir_id: u64,
}

/// A qualified path.
#[derive(Debug)]
pub enum QPath {
    /// A path resolved at its use site: `with_self_type` when it has a
    /// `<T as ..>` qualifier, `res_local` the node id of the local binding
    /// that it names, if it names one.
    Resolved { with_self_type: bool, res_local: Option<u64>, segments: Vec<PathSegment> },
    /// A path to a language item: which item, and the node id it carries,
    /// if any.
    LangItem { item: LangItem, hir_id: Option<u64> },
    /// A type-relative path (`T::name`): the segments of `T` when it is a
    /// resolved path (such a path has at least one segment), and the name.
    TypeRelative { ty_segments: Option<Vec<PathSegment>>, name: String },
}

/// The language items that the detectors tell apart.
#[derive(Clone, Copy, PartialEq, Eq, Structural, Debug)]
pub enum LangItem {
    /// `IntoIterator::into_iter`, called by a desugared `for` loop.
    IntoIterIntoIter,
    /// The struct `Range` (`a..b`).
    Range,
    /// The struct `RangeInclusive` (`a..=b`).
    RangeInclusiveStruct,
    /// `RangeInclusive::new`.
    RangeInclusiveNew,
    /// The variant `Option::Some`.
    OptionSome,
    Other,
}

/// Where a `match` comes from.
#[derive(Clone, Copy, PartialEq, Eq, Structural, Debug)]
pub enum MatchSource {
    /// The desugaring of a `for` loop.
    ForLoopDesugar,
    Other,
}

/// Where a `loop` comes from.
#[derive(Clone, Copy, PartialEq, Eq, Structural, Debug)]
pub enum LoopSource {
    /// The desugaring of a `for` loop.
    ForLoop,
    /// The desugaring of a `while` (or `while let`) loop: the tail of its
    /// block is an `if` on the loop's condition, which breaks out of the loop
    /// in its `else` branch (the converter drops the wrapper that holds the
    /// condition's temporaries).
    While,
    Other,
}

/// A pattern, as far as the detectors tell patterns apart. Expressions
/// inside patterns are not kept.
#[derive(Debug)]
pub enum Pat {
    /// A struct pattern (`Some(x)` after desugaring), by its path and the
    /// patterns of its fields.
    Struct { path: QPath, fields: Vec<Pat> },
    /// A binding, by the node id of the bound variable.
    Binding(u64),
    Other,
}

/// An arm of a `match`: its pattern, its guard and its body.
#[derive(Debug)]
pub struct Arm {
    pub pat: Pat,
    pub guard: Option<Expr>,
    pub body: Expr,
}

/// A unary operator.
#[derive(Clone, Copy, PartialEq, Eq, Structural, Debug)]
pub enum UnOp {
    Deref,
    Not,
    Neg,
}

/// A binary operator.
#[derive(Clone, Copy, PartialEq, Eq, Structural, Debug)]
pub enum BinOp {
    Add,
    Sub,
    Mul,
    Div,
    Rem,
    And,
    Or,
    BitXor,
    BitAnd,
    BitOr,
    Shl,
    Shr,
    Eq,
    Lt,
    Le,
    Ne,
    Ge,
    Gt,
}

/// The kind of an expression.
#[derive(Debug)]
pub enum ExprKind {
    /// A literal, with its text and, for an integer literal, its value.
    Lit { text: String, int_value: Option<u128> },
    Path(QPath),
    /// `receiver.name(args)`.
    MethodCall { name: String, receiver: Box<Expr>, args: Vec<Expr> },
    /// `func(args)`.
    Call { func: Box<Expr>, args: Vec<Expr> },
    Unary(UnOp, Box<Expr>),
    Binary(BinOp, Box<Expr>, Box<Expr>),
    /// `lhs op= rhs`; the walk visits `rhs` first.
    AssignOp(BinOp, Box<Expr>, Box<Expr>),
    /// `lhs = rhs`; the walk visits `rhs` first.
    Assign(Box<Expr>, Box<Expr>),
    /// `base[index]`.
    Index(Box<Expr>, Box<Expr>),
    /// `base.name`.
    Field(Box<Expr>, String),
    Tup(Vec<Expr>),
    Array(Vec<Expr>),
    /// A struct literal: its path, the expressions of its fields and the
    /// base (`..base`), if any.
    Struct { path: QPath, fields: Vec<Expr>, base: Option<Box<Expr>> },
    /// `[element; n]`.
    Repeat(Box<Expr>),
    /// `if cond { then } else { els }`, also an `if let`, whose condition
    /// is then a `let` (`Other`).
    If { cond: Box<Expr>, then: Box<Expr>, els: Option<Box<Expr>> },
    /// `return`, with its value if it has one.
    Ret(Option<Box<Expr>>),
    /// A `match`: where it comes from, the scrutinee and the arms.
    Match { source: MatchSource, scrutinee: Box<Expr>, arms: Vec<Arm> },
    /// A `loop`: where it comes from, whether the first statement of its
    /// block is an expression statement without `;`, and the expressions of
    /// the block's statements and of its tail, in walk order (the first of
    /// them is the first statement's expression when `first_stmt_is_expr`).
    Loop { loop_source: LoopSource, first_stmt_is_expr: bool, body: Vec<Expr> },
    /// A macro call, with its path and its argument tokens.
    MacCall(MacCall),
    /// A block that the user wrote as `unsafe { .. }`, by its
    /// subexpressions.
    UnsafeBlock(Vec<Expr>),
    /// Any other expression (a block, a closure, ..), by its
    /// subexpressions.
    Other(Vec<Expr>),
}

/// An expression node.
#[derive(Debug)]
pub struct Expr {
    pub hir_id: u64,
    pub span: Span,
    pub kind: ExprKind,
}

/// A statement.
#[derive(Debug)]
pub enum Stmt {
    /// An expression statement ending in `;`.
    Semi(Expr),
    /// A macro call in statement position, with the statement's span.
    MacCall(Span, MacCall),
    /// A `let` whose pattern is a binding (`mutable` when it is `let mut`),
    /// with its initializer.
    Local { mutable: bool, init: Option<Expr> },
    /// A trailing expression without `;`.
    Expr(Expr),
    Other,
}

/// A token of a macro's or an attribute's arguments.
#[derive(Debug)]
pub enum Token {
    /// An identifier (raw or not), by its name.
    Ident(String),
    /// A string literal, by its contents between the quotes.
    StrLit(String),
    /// Any other token.
    Other,
}

/// A token tree.
#[derive(Debug)]
pub enum TokenTree {
    Token(Token),
    /// A delimited group, by the trees inside it.
    Delimited(Vec<TokenTree>),
}

/// A macro call: its path, by segment names, and its argument tokens.
#[derive(Debug)]
pub struct MacCall {
    pub path: Vec<String>,
    pub tokens: Vec<TokenTree>,
}

/// An entry of an attribute's meta-item list: a meta item, by its path, or
/// a literal.
#[derive(Debug)]
pub enum NestedMeta {
    Meta(Vec<String>),
    Lit,
}

/// An attribute. `normal` is false for a doc comment; `path` is the
/// attribute's path by segment names; `delimited` holds the tokens of
/// delimited arguments (`#[attr(..)]`); `meta_list` holds the arguments read
/// as a meta-item list, when they are one.
#[derive(Debug)]
pub struct Attribute {
    pub normal: bool,
    pub path: Vec<String>,
    pub delimited: Option<Vec<TokenTree>>,
    pub meta_list: Option<Vec<NestedMeta>>,
}

/// A field of a struct item: whether it is named, and the number of
/// angle-bracketed generic arguments of its type when that type is a
/// single-segment path `Lazy<..>`.
#[derive(Debug)]
pub struct FieldShape {
    pub named: bool,
    pub lazy_arg_count: Option<usize>,
}

/// An item, as the early detectors see it: its node id, span and
/// attributes, and its fields when it is a struct.
#[derive(Debug)]
pub struct Item {
    pub id: u64,
    pub span: Span,
    pub attrs: Vec<Attribute>,
    pub struct_fields: Option<Vec<FieldShape>>,
}

/// A `let` declaration: the node id of its pattern, its span and its
/// initializer.
#[derive(Debug)]
pub struct LocalDecl {
    pub pat_hir_id: u64,
    pub span: Span,
    pub init: Option<Expr>,
}

/// The node id of the local binding that `e` names, if `e` is a resolved
/// path to one.
pub open spec fn local_of(e: Expr) -> Option<u64> {
    match e.kind {
        ExprKind::Path(QPath::Resolved { res_local, .. }) => res_local,
        _ => None,
    }
}

/// The node id of the local binding that `e` names, if any.
pub fn local_of_expr(e: &Expr) -> (r: Option<u64>)
    ensures
        r == local_of(*e),
{
    match &e.kind {
        ExprKind::Path(QPath::Resolved { res_local, .. }) => *res_local,
        _ => None,
    }
}

/// The node ids of the segments of a path.
pub open spec fn segment_ids(segments: Seq<PathSegment>) -> Seq<u64> {
    segments.map_values(|s: PathSegment| s.hir_id)
}

/// The expressions that walking the subexpressions of `e` visits, in
/// order: each subexpression, followed by the expressions inside it.
pub open spec fn walk_nodes(e: Expr) -> Seq<Expr>
    decreases e, 1nat,
{
    match e.kind {
        ExprKind::Lit { .. } => Seq::empty(),
        ExprKind::Path(_) => Seq::empty(),
        ExprKind::MethodCall { receiver, args, .. } => visit_node(*receiver) + visit_list(args@),
        ExprKind::Call { func, args } => visit_node(*func) + visit_list(args@),
        ExprKind::Unary(_, x) => visit_node(*x),
        ExprKind::Binary(_, l, r) => visit_node(*l) + visit_node(*r),
        ExprKind::AssignOp(_, l, r) => visit_node(*r) + visit_node(*l),
        ExprKind::Assign(l, r) => visit_node(*r) + visit_node(*l),
        ExprKind::Index(a, b) => visit_node(*a) + visit_node(*b),
        ExprKind::Field(x, _) => visit_node(*x),
        ExprKind::Tup(es) => visit_list(es@),
        ExprKind::Array(es) => visit_list(es@),
        ExprKind::Struct { fields, base, .. } => visit_list(fields@) + match base {
            Some(b) => visit_node(*b),
            None => Seq::empty(),
        },
        ExprKind::Repeat(x) => visit_node(*x),
        ExprKind::If { cond, then, els } => visit_node(*cond) + visit_node(*then) + match els {
            Some(x) => visit_node(*x),
            None => Seq::empty(),
        },
        ExprKind::Ret(v) => match v {
            Some(x) => visit_node(*x),
            None => Seq::empty(),
        },
        ExprKind::Match { scrutinee, arms, .. } => visit_node(*scrutinee) + visit_arms(arms@),
        ExprKind::Loop { body, .. } => visit_list(body@),
        ExprKind::MacCall(_) => Seq::empty(),
        ExprKind::UnsafeBlock(es) => visit_list(es@),
        ExprKind::Other(es) => visit_list(es@),
    }
}

/// The expressions that visiting `e` visits: `e`, then the expressions
/// inside it.
pub open spec fn visit_node(e: Expr) -> Seq<Expr>
    decreases e, 2nat,
{
    seq![e] + walk_nodes(e)
}

/// The expressions that visiting an arm visits: those of its guard, then
/// those of its body.
pub open spec fn arm_nodes(a: Arm) -> Seq<Expr>
    decreases a, 0nat,
{
    let g = match a.guard {
        Some(g) => visit_node(g),
        None => Seq::empty(),
    };
    g + visit_node(a.body)
}

/// The expressions that visiting each of `arms` in turn visits.
pub open spec fn visit_arms(arms: Seq<Arm>) -> Seq<Expr>
    decreases arms, 0nat,
{
    if arms.len() == 0 {
        Seq::empty()
    } else {
        visit_arms(arms.subrange(0, arms.len() - 1)) + arm_nodes(arms[arms.len() - 1])
    }
}

/// The expressions that visiting each of `es` in turn visits.
pub open spec fn visit_list(es: Seq<Expr>) -> Seq<Expr>
    decreases es, 0nat,
{
    if es.len() == 0 {
        Seq::empty()
    } else {
        visit_list(es.subrange(0, es.len() - 1)) + visit_node(es[es.len() - 1])
    }
}

} // verus!
