//! A plain model of the parts of a function's MIR that the MIR-based
//! detectors read: basic blocks with their assignment statements and their
//! terminators, places, operands and source spans.
//!
//! Blocks are numbered by their index in the body; a function definition
//! that a call refers to is numbered by a `u64` that the converter assigns.
use vstd::prelude::*;

verus! {

/// A source span, by its byte offsets.
#[derive(Clone, Copy, PartialEq, Eq, Structural, Debug)]
pub struct Span {
    pub lo: u32,
    pub hi: u32,
}

impl Span {
    /// Whether `other` lies within this span (`rustc_span::Span::contains`).
    pub open spec fn contains_spec(self, other: Span) -> bool {
        self.lo <= other.lo && other.hi <= self.hi
    }

    /// Whether `other` lies within this span.
    pub fn contains(&self, other: &Span) -> (b: bool)
        ensures
            b == self.contains_spec(*other),
    {
        self.lo <= other.lo && other.hi <= self.hi
    }
}

/// A memory place: a local with a projection (the converter numbers the
/// distinct projections); two places are equal when both parts are.
#[derive(Clone, Copy, PartialEq, Eq, Structural, Debug)]
pub struct Place {
    pub local: u32,
    pub projection: u32,
}

/// A constant operand: the function it names, if it is a function item, and
/// its value, if it is a boolean.
#[derive(Clone, Copy, PartialEq, Eq, Structural, Debug)]
pub struct Constant {
    pub fn_def: Option<u64>,
    pub bool_value: Option<bool>,
}

/// An operand of a MIR statement or call.
#[derive(Clone, Copy, PartialEq, Eq, Structural, Debug)]
pub enum Operand {
    Copy(Place),
    Move(Place),
    Constant(Constant),
}

impl Operand {
    /// The place that the operand reads, if it reads one (`Operand::place`).
    pub open spec fn place_spec(self) -> Option<Place> {
        match self {
            Operand::Copy(p) => Some(p),
            Operand::Move(p) => Some(p),
            Operand::Constant(_) => None,
        }
    }

    /// The place that the operand reads, if it reads one.
    pub fn place(&self) -> (r: Option<Place>)
        ensures
            r == self.place_spec(),
    {
        match self {
            Operand::Copy(p) => Some(*p),
            Operand::Move(p) => Some(*p),
            Operand::Constant(_) => None,
        }
    }
}

/// The right-hand side of an assignment, as far as the detectors read it.
#[derive(Clone, Copy, PartialEq, Eq, Structural, Debug)]
pub enum Rvalue {
    Ref(Place),
    AddressOf(Place),
    Len(Place),
    CopyForDeref(Place),
    Use(Operand),
    Repeat(Operand),
    Cast(Operand),
    UnaryOp(Operand),
    BinaryOp(Operand, Operand),
    CheckedBinaryOp(Operand, Operand),
    /// Any other right-hand side.
    Other,
}

/// A MIR statement.
#[derive(Clone, Copy, PartialEq, Eq, Structural, Debug)]
pub enum Statement {
    Assign(Place, Rvalue),
    StorageDead(u32),
    /// Any other statement.
    Other,
}

/// How a basic block ends.
#[allow(inconsistent_fields)]
#[derive(Clone, PartialEq, Eq, Debug)]
pub enum Terminator {
    Goto { target: usize },
    SwitchInt { discr: Operand, targets: Vec<usize> },
    Call {
        func: Operand,
        args: Vec<Operand>,
        destination: Place,
        target: Option<usize>,
        fn_span: Span,
    },
    Assert { target: usize },
    Drop { target: usize },
    Yield { resume: usize },
    FalseEdge { real_target: usize },
    FalseUnwind { real_target: usize },
    InlineAsm { destination: Option<usize> },
    /// `Return`, `Resume`, `Terminate`, `Unreachable`, `GeneratorDrop`.
    Exit,
}

/// A basic block: its statements and, once built, its terminator.
#[derive(Clone, PartialEq, Eq, Debug)]
pub struct BasicBlock {
    pub statements: Vec<Statement>,
    pub terminator: Option<Terminator>,
}

/// The blocks that a terminator can continue to.
pub open spec fn successors(t: Terminator) -> Seq<usize> {
    match t {
        Terminator::Goto { target } => seq![target],
        Terminator::SwitchInt { discr, targets } => targets@,
        Terminator::Call { target, .. } => match target {
            Some(b) => seq![b],
            None => Seq::empty(),
        },
        Terminator::Assert { target } => seq![target],
        Terminator::Drop { target } => seq![target],
        Terminator::Yield { resume } => seq![resume],
        Terminator::FalseEdge { real_target } => seq![real_target],
        Terminator::FalseUnwind { real_target } => seq![real_target],
        Terminator::InlineAsm { destination } => match destination {
            Some(b) => seq![b],
            None => Seq::empty(),
        },
        Terminator::Exit => Seq::empty(),
    }
}

/// Every block that a terminator names exists.
pub open spec fn well_formed(bbs: Seq<BasicBlock>) -> bool {
    forall|b: int, k: int|
        0 <= b < bbs.len() && bbs[b].terminator is Some && 0 <= k < successors(
            bbs[b].terminator->0,
        ).len() ==> #[trigger] successors(bbs[b].terminator->0)[k] < bbs.len()
}

/// The function that a call terminator calls directly, when its callee is a
/// constant function item.
pub open spec fn called_fn(t: Option<Terminator>) -> Option<u64> {
    match t {
        Some(Terminator::Call { func, .. }) => match func {
            Operand::Constant(c) => c.fn_def,
            _ => None,
        },
        _ => None,
    }
}

/// The place whose taint an assignment's right-hand side passes on.
pub open spec fn rvalue_source(rv: Rvalue) -> Option<Place> {
    match rv {
        Rvalue::Ref(p) => Some(p),
        Rvalue::AddressOf(p) => Some(p),
        Rvalue::Len(p) => Some(p),
        Rvalue::CopyForDeref(p) => Some(p),
        Rvalue::Use(op) => op.place_spec(),
        _ => None,
    }
}

/// The set of places that a sequence holds.
pub open spec fn place_set(v: Seq<Place>) -> Set<Place> {
    Set::new(|p: Place| v.contains(p))
}

/// How an assignment spreads taint: its destination becomes tainted when
/// its source is.
pub open spec fn taint_statement(s: Statement, t: Set<Place>) -> Set<Place> {
    match s {
        Statement::Assign(dst, rv) => match rvalue_source(rv) {
            Some(p) => if t.contains(p) {
                t.insert(dst)
            } else {
                t
            },
            None => t,
        },
        _ => t,
    }
}

/// The taint after a block's statements, run in order.
pub open spec fn taint_statements(stmts: Seq<Statement>, t: Set<Place>) -> Set<Place>
    decreases stmts.len(),
{
    if stmts.len() == 0 {
        t
    } else {
        taint_statement(stmts.last(), taint_statements(stmts.drop_last(), t))
    }
}

/// The indices of the blocks that end in a direct call to `f`, in order.
pub open spec fn calls_to(bbs: Seq<BasicBlock>, f: u64) -> Seq<usize>
    decreases bbs.len(),
{
    if bbs.len() == 0 {
        Seq::empty()
    } else {
        calls_to(bbs.drop_last(), f) + if called_fn(bbs.last().terminator) == Some(f) {
            seq![(bbs.len() - 1) as usize]
        } else {
            Seq::empty()
        }
    }
}

/// Adding a place to a tainted vector adds it to its set.
pub proof fn lemma_place_set_push(v: Seq<Place>, p: Place)
    ensures
        place_set(v.push(p)) == place_set(v).insert(p),
{
    assert forall|q: Place| #[trigger] v.push(p).contains(q) <==> place_set(v).insert(p).contains(q) by {
        if v.push(p).contains(q) && q != p {
            let i = choose|i: int| 0 <= i < v.push(p).len() && v.push(p)[i] == q;
            assert(v[i] == q);
        }
        if v.contains(q) {
            let i = choose|i: int| 0 <= i < v.len() && v[i] == q;
            assert(v.push(p)[i] == q);
        }
        if q == p {
            assert(v.push(p)[v.len() as int] == q);
        }
    }
    assert(place_set(v.push(p)) =~= place_set(v).insert(p));
}

/// Whether `p` is one of the places of `v`.
pub fn contains_place(v: &Vec<Place>, p: &Place) -> (b: bool)
    ensures
        b == place_set(v@).contains(*p),
{
    let mut i: usize = 0;
    while i < v.len()
        invariant
            0 <= i <= v@.len(),
            forall|j: int| 0 <= j < i ==> v@[j] != *p,
        decreases v@.len() - i,
    {
        if v[i] == *p {
            assert(v@.contains(*p));
            return true;
        }
        i = i + 1;
    }
    false
}

/// Adds to `tainted` the destination of every assignment, in order, whose
/// source is tainted.
pub fn taint_through_statements(stmts: &Vec<Statement>, tainted: &mut Vec<Place>)
    ensures
        place_set(final(tainted)@) == taint_statements(stmts@, place_set(old(tainted)@)),
{
    let ghost start = tainted@;
    let mut i: usize = 0;
    while i < stmts.len()
        invariant
            0 <= i <= stmts@.len(),
            place_set(tainted@) == taint_statements(stmts@.take(i as int), place_set(start)),
        decreases stmts@.len() - i,
    {
        assert(stmts@.take(i + 1).drop_last() =~= stmts@.take(i as int));
        match stmts[i] {
            Statement::Assign(dst, rv) => {
                let src: Option<Place> = match rv {
                    Rvalue::Ref(p) => Some(p),
                    Rvalue::AddressOf(p) => Some(p),
                    Rvalue::Len(p) => Some(p),
                    Rvalue::CopyForDeref(p) => Some(p),
                    Rvalue::Use(op) => op.place(),
                    _ => None,
                };
                if let Some(p) = src {
                    if contains_place(tainted, &p) {
                        proof {
                            lemma_place_set_push(tainted@, dst);
                        }
                        tainted.push(dst);
                    }
                }
            },
            _ => {},
        }
        i = i + 1;
    }
    assert(stmts@.take(stmts@.len() as int) =~= stmts@);
}

/// The function that a block's terminator calls directly, if any.
pub fn called_fn_of(t: &Option<Terminator>) -> (r: Option<u64>)
    ensures
        r == called_fn(*t),
{
    match t {
        Some(Terminator::Call { func, .. }) => match func {
            Operand::Constant(c) => c.fn_def,
            _ => None,
        },
        _ => None,
    }
}

} // verus!
