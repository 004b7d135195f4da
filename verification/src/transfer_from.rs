//! Detecting `transfer_from` calls whose arguments come from the caller.
//!
//! The function's arguments are tainted, and every assignment (in block
//! order) whose source is tainted taints its destination. After each call
//! that builds the `transfer_from` selector, the walk follows the chain of
//! direct calls that comes next; a `push_arg` call on that chain with a
//! tainted argument is reported, once per such argument.
use crate::mir::{called_fn, called_fn_of, rvalue_source, BasicBlock, Operand, Span, Statement, Terminator};
use crate::reentrancy::{all_stop_calls, lemma_all_stop_calls_join, stop_call_span};
use crate::env_calls::{last_def_where, method_call_def, method_call_named, resolved_def, resolved_def_of};
use crate::hir::{Expr, ExprKind, PathSegment, QPath, walk_nodes};
use crate::span_probes::walk_node_refs;
use crate::text::text_eq;
use vstd::prelude::*;

verus! {

// ---------------------------------------------------------------------
// Specifications
// ---------------------------------------------------------------------

/// The locals `1..=arg_count` that hold a function's arguments.
pub open spec fn argument_locals(arg_count: u32) -> Set<u32> {
    Set::new(|l: u32| 1 <= l <= arg_count)
}

/// How one statement spreads taint between locals.
pub open spec fn local_taint_statement(s: Statement, t: Set<u32>) -> Set<u32> {
    match s {
        Statement::Assign(dst, rv) => match rvalue_source(rv) {
            Some(p) => if t.contains(p.local) {
                t.insert(dst.local)
            } else {
                t
            },
            None => t,
        },
        _ => t,
    }
}

/// The taint after a sequence of statements, in order.
pub open spec fn local_taint_statements(stmts: Seq<Statement>, t: Set<u32>) -> Set<u32>
    decreases stmts.len(),
{
    if stmts.len() == 0 {
        t
    } else {
        local_taint_statement(stmts.last(), local_taint_statements(stmts.drop_last(), t))
    }
}

/// The taint after the statements of all blocks, block by block.
pub open spec fn local_taint_blocks(bbs: Seq<BasicBlock>, t: Set<u32>) -> Set<u32>
    decreases bbs.len(),
{
    if bbs.len() == 0 {
        t
    } else {
        local_taint_statements(bbs.last().statements@, local_taint_blocks(bbs.drop_last(), t))
    }
}

/// The block that the call chain goes on to after block `b`: the target of a
/// direct call that ends `b`.
pub open spec fn chain_next(bb: BasicBlock) -> Option<usize> {
    match bb.terminator {
        Some(Terminator::Call { func, target, .. }) => if called_fn(bb.terminator) is Some {
            target
        } else {
            None
        },
        _ => None,
    }
}

/// The call chain from block `b` ends within `n` blocks, and every block on
/// it has a terminator.
pub open spec fn chain_ends(bbs: Seq<BasicBlock>, b: usize, n: nat) -> bool
    decreases n,
{
    &&& n > 0
    &&& b < bbs.len()
    &&& bbs[b as int].terminator is Some
    &&& match chain_next(bbs[b as int]) {
        Some(x) => chain_ends(bbs, x, (n - 1) as nat),
        None => true,
    }
}

/// One span per argument of a `push_arg` call that reads a tainted local.
pub open spec fn tainted_arg_spans(args: Seq<Operand>, t: Set<u32>, span: Span) -> Seq<Span>
    decreases args.len(),
{
    if args.len() == 0 {
        Seq::empty()
    } else {
        tainted_arg_spans(args.drop_last(), t, span) + match args.last().place_spec() {
            Some(p) => if t.contains(p.local) {
                seq![span]
            } else {
                Seq::empty()
            },
            None => Seq::empty(),
        }
    }
}

/// The reports along the call chain from block `b`, within `n` blocks.
pub open spec fn chain_reports(bbs: Seq<BasicBlock>, b: usize, n: nat, t: Set<u32>, push_arg: Option<u64>) -> Seq<Span>
    decreases n,
{
    if n == 0 || b >= bbs.len() {
        Seq::empty()
    } else {
        let bb = bbs[b as int];
        let here = match bb.terminator {
            Some(Terminator::Call { args, fn_span, .. }) => if called_fn(bb.terminator) is Some
                && push_arg == called_fn(bb.terminator) {
                tainted_arg_spans(args@, t, fn_span)
            } else {
                Seq::empty()
            },
            _ => Seq::empty(),
        };
        match chain_next(bb) {
            Some(x) => here + chain_reports(bbs, x, (n - 1) as nat, t, push_arg),
            None => here,
        }
    }
}

/// The block after a call to the selector builder.
pub open spec fn selector_continuation(bb: BasicBlock, selector: u64) -> Option<usize> {
    match bb.terminator {
        Some(Terminator::Call { target, .. }) => if called_fn(bb.terminator) == Some(selector) {
            target
        } else {
            None
        },
        _ => None,
    }
}

/// Every call chain that starts after a selector call in `bbs[..n]` ends.
pub open spec fn transfer_chains_end(bbs: Seq<BasicBlock>, selector: u64, n: int) -> bool {
    forall|b: int|
        0 <= b < n && #[trigger] selector_continuation(bbs[b], selector) is Some ==> exists|k: nat|
            chain_ends(bbs, selector_continuation(bbs[b], selector)->0, k)
}

/// How long the chain from `b` is (a length within which it ends).
pub open spec fn chain_length(bbs: Seq<BasicBlock>, b: usize) -> nat {
    choose|k: nat| chain_ends(bbs, b, k)
}

/// The reports after the selector calls of `bbs[..n]`, in block order.
pub open spec fn transfer_reports(
    bbs: Seq<BasicBlock>,
    selector: u64,
    push_arg: Option<u64>,
    t: Set<u32>,
    n: int,
) -> Seq<Span>
    decreases n,
{
    if n <= 0 {
        Seq::empty()
    } else {
        transfer_reports(bbs, selector, push_arg, t, n - 1) + match selector_continuation(bbs[n - 1], selector) {
            Some(x) => chain_reports(bbs, x, chain_length(bbs, x), t, push_arg),
            None => Seq::empty(),
        }
    }
}

/// What the detector reports for a function: nothing when it returns a call
/// or create builder or when no selector builder is known; else the tainted
/// `push_arg` arguments after the selector calls.
pub open spec fn unrestricted_transfer_spans(
    bbs: Seq<BasicBlock>,
    arg_count: u32,
    returns_builder: bool,
    selector: Option<u64>,
    push_arg: Option<u64>,
) -> Seq<Span> {
    if returns_builder || selector is None {
        Seq::empty()
    } else {
        transfer_reports(
            bbs,
            selector->0,
            push_arg,
            local_taint_blocks(bbs, argument_locals(arg_count)),
            bbs.len() as int,
        )
    }
}

// ---------------------------------------------------------------------
// Executable functions
// ---------------------------------------------------------------------

/// Whether `l` is one of `v`.
fn contains_local(v: &Vec<u32>, l: u32) -> (b: bool)
    ensures
        b == v@.contains(l),
{
    let mut i: usize = 0;
    while i < v.len()
        invariant
            0 <= i <= v@.len(),
            forall|j: int| 0 <= j < i ==> v@[j] != l,
        decreases v@.len() - i,
    {
        if v[i] == l {
            return true;
        }
        i = i + 1;
    }
    false
}

/// The set of locals that a vector holds.
pub open spec fn local_set(v: Seq<u32>) -> Set<u32> {
    Set::new(|l: u32| v.contains(l))
}

proof fn lemma_local_set_push(v: Seq<u32>, l: u32)
    ensures
        local_set(v.push(l)) == local_set(v).insert(l),
{
    assert forall|q: u32| #[trigger] v.push(l).contains(q) <==> local_set(v).insert(l).contains(q) by {
        if v.push(l).contains(q) && q != l {
            let i = choose|i: int| 0 <= i < v.push(l).len() && v.push(l)[i] == q;
            assert(v[i] == q);
        }
        if v.contains(q) {
            let i = choose|i: int| 0 <= i < v.len() && v[i] == q;
            assert(v.push(l)[i] == q);
        }
        if q == l {
            assert(v.push(l)[v.len() as int] == q);
        }
    }
    assert(local_set(v.push(l)) =~= local_set(v).insert(l));
}

/// Spreads the taint through all statements of all blocks, in order.
fn taint_locals(bbs: &Vec<BasicBlock>, tainted: &mut Vec<u32>)
    ensures
        local_set(final(tainted)@) == local_taint_blocks(bbs@, local_set(old(tainted)@)),
{
    let ghost start = local_set(tainted@);
    let mut b: usize = 0;
    while b < bbs.len()
        invariant
            0 <= b <= bbs@.len(),
            local_set(tainted@) == local_taint_blocks(bbs@.take(b as int), start),
        decreases bbs@.len() - b,
    {
        assert(bbs@.take(b + 1).drop_last() =~= bbs@.take(b as int));
        let stmts = &bbs[b].statements;
        let ghost before = local_set(tainted@);
        let mut i: usize = 0;
        while i < stmts.len()
            invariant
                0 <= i <= stmts@.len(),
                local_set(tainted@) == local_taint_statements(stmts@.take(i as int), before),
            decreases stmts@.len() - i,
        {
            assert(stmts@.take(i + 1).drop_last() =~= stmts@.take(i as int));
            if let Statement::Assign(dst, rv) = stmts[i] {
                let src = match rv {
                    crate::mir::Rvalue::Ref(p) => Some(p),
                    crate::mir::Rvalue::AddressOf(p) => Some(p),
                    crate::mir::Rvalue::Len(p) => Some(p),
                    crate::mir::Rvalue::CopyForDeref(p) => Some(p),
                    crate::mir::Rvalue::Use(op) => op.place(),
                    _ => None,
                };
                if let Some(p) = src {
                    if contains_local(tainted, p.local) {
                        proof {
                            lemma_local_set_push(tainted@, dst.local);
                        }
                        tainted.push(dst.local);
                    }
                }
            }
            i = i + 1;
        }
        assert(stmts@.take(stmts@.len() as int) =~= stmts@);
        b = b + 1;
    }
    assert(bbs@.take(bbs@.len() as int) =~= bbs@);
}

/// The reports along the call chain from block `b`.
fn walk_chain(
    bbs: &Vec<BasicBlock>,
    b: usize,
    tainted: &Vec<u32>,
    push_arg: Option<u64>,
    Ghost(n): Ghost<nat>,
) -> (r: Vec<Span>)
    requires
        chain_ends(bbs@, b, n),
    ensures
        r@ == chain_reports(bbs@, b, n, local_set(tainted@), push_arg),
    decreases n,
{
    let mut r: Vec<Span> = Vec::new();
    let bb = &bbs[b];
    let f = called_fn_of(&bb.terminator);
    if let Some(Terminator::Call { args, fn_span, target, .. }) = &bb.terminator {
        if f.is_some() && push_arg == f {
            let mut i: usize = 0;
            while i < args.len()
                invariant
                    0 <= i <= args@.len(),
                    r@ == tainted_arg_spans(args@.take(i as int), local_set(tainted@), *fn_span),
                decreases args@.len() - i,
            {
                assert(args@.take(i + 1).drop_last() =~= args@.take(i as int));
                if let Some(p) = args[i].place() {
                    if contains_local(tainted, p.local) {
                        r.push(*fn_span);
                    }
                }
                i = i + 1;
            }
            assert(args@.take(args@.len() as int) =~= args@);
        }
        if f.is_some() {
            if let Some(x) = target {
                let mut sub = walk_chain(bbs, *x, tainted, push_arg, Ghost((n - 1) as nat));
                r.append(&mut sub);
            }
        }
    }
    r
}

/// Whether `f` is the path `T::new` for a type path `T` with a segment named
/// `Selector`.
pub open spec fn selector_new_path(f: Expr) -> bool {
    match f.kind {
        ExprKind::Path(QPath::TypeRelative { ty_segments: Some(segs), name }) => name@ == "new"@
            && exists|k: int| 0 <= k < segs@.len() && #[trigger] segs@[k].name@ == "Selector"@,
        _ => false,
    }
}

/// Whether `e` builds a selector: `Selector::new([a, b, c, d])`, one
/// argument that is an array of four elements. The elements themselves are
/// not looked at.
pub open spec fn selector_new_call(e: Expr) -> bool {
    match e.kind {
        ExprKind::Call { func, args } => selector_new_path(*func) && args@.len() == 1 && match args@[0].kind {
            ExprKind::Array(a) => a@.len() == 4,
            _ => false,
        },
        _ => false,
    }
}

/// What the path of the last selector construction among `nodes` resolves
/// to (`None` when there is none, or it is unresolved).
pub open spec fn last_selector_def(nodes: Seq<Expr>, resolved: Seq<(u64, u64)>) -> Option<u64>
    decreases nodes.len(),
{
    if nodes.len() == 0 {
        None
    } else if selector_new_call(nodes.last()) {
        match nodes.last().kind {
            ExprKind::Call { func, .. } => resolved_def(resolved, func.hir_id),
            _ => None,
        }
    } else {
        last_selector_def(nodes.drop_last(), resolved)
    }
}

/// Whether a declared return type's last segment names a call or create
/// builder.
pub open spec fn builder_return(last_segment: Seq<char>) -> bool {
    last_segment == "CallBuilder"@ || last_segment == "CreateBuilder"@
}

/// What the front end of the detector gives for a function whose body is
/// `body` and whose declared return type ends in `ret`: nothing for a
/// function that returns a builder or builds no resolved selector; else the
/// selector constructor and what the last `push_arg` call resolves to.
pub open spec fn transfer_defs(body: Expr, ret: Seq<char>, resolved: Seq<(u64, u64)>) -> Option<(u64, Option<u64>)> {
    if builder_return(ret) {
        None
    } else {
        match last_selector_def(walk_nodes(body), resolved) {
            Some(s) => Some(
                (s, last_def_where(walk_nodes(body), resolved, |n: Expr| method_call_named(n, "push_arg"@))),
            ),
            None => None,
        }
    }
}

fn names_selector(segs: &Vec<PathSegment>) -> (b: bool)
    ensures
        b == exists|k: int| 0 <= k < segs@.len() && #[trigger] segs@[k].name@ == "Selector"@,
{
    let mut k: usize = 0;
    while k < segs.len()
        invariant
            0 <= k <= segs@.len(),
            forall|j: int| 0 <= j < k ==> !(#[trigger] segs@[j].name@ == "Selector"@),
        decreases segs@.len() - k,
    {
        if text_eq(segs[k].name.as_str(), "Selector") {
            assert(segs@[k as int].name@ == "Selector"@);
            return true;
        }
        k = k + 1;
    }
    false
}

/// The node id of the constructor path when `e` builds a selector.
fn selector_new_func(e: &Expr) -> (r: Option<u64>)
    ensures
        r is Some <==> selector_new_call(*e),
        r matches Some(id) ==> e.kind matches ExprKind::Call { func, .. } && func.hir_id == id,
{
    if let ExprKind::Call { func, args } = &e.kind {
        if let ExprKind::Path(QPath::TypeRelative { ty_segments: Some(segs), name }) = &func.kind {
            if text_eq(name.as_str(), "new") && names_selector(segs) && args.len() == 1 {
                if let ExprKind::Array(a) = &args[0].kind {
                    if a.len() == 4 {
                        return Some(func.hir_id);
                    }
                }
            }
        }
    }
    None
}

/// Detects `transfer_from` calls whose arguments come from the caller.
pub struct UnrestrictedTransferFrom {}

impl UnrestrictedTransferFrom {
    /// The detector.
    pub fn new() -> (r: Self) {
        UnrestrictedTransferFrom {  }
    }

    /// The front end of the detector, over the body `body` of a function
    /// whose declared return type is a path ending in `ret_type_last_segment`
    /// (empty when it is no path): `None` for a function that returns a call
    /// or create builder, or when no selector is built (or its constructor
    /// is unresolved); otherwise the selector's constructor and the `push_arg`
    /// function, each by its last call, as `resolved` resolves them.
    pub fn find_defs(&self, body: &Expr, ret_type_last_segment: &str, resolved: &Vec<(u64, u64)>) -> (r: Option<
        (u64, Option<u64>),
    >)
        ensures
            r == transfer_defs(*body, ret_type_last_segment@, resolved@),
    {
        if text_eq(ret_type_last_segment, "CallBuilder") || text_eq(ret_type_last_segment, "CreateBuilder") {
            return None;
        }
        let nodes = walk_node_refs(body);
        let ghost ns = walk_nodes(*body);
        let mut selector: Option<u64> = None;
        let mut i: usize = 0;
        assert(ns.take(0) =~= Seq::<Expr>::empty());
        while i < nodes.len()
            invariant
                0 <= i <= nodes@.len(),
                nodes@.len() == ns.len(),
                ns == walk_nodes(*body),
                forall|k: int| 0 <= k < nodes@.len() ==> *nodes@[k] == ns[k],
                selector == last_selector_def(ns.take(i as int), resolved@),
            decreases nodes@.len() - i,
        {
            let n = nodes[i];
            assert(ns.take(i as int + 1).drop_last() =~= ns.take(i as int));
            assert(ns.take(i as int + 1).last() == *n);
            if let Some(id) = selector_new_func(n) {
                selector = resolved_def_of(resolved, id);
            }
            i = i + 1;
        }
        assert(ns.take(ns.len() as int) =~= ns);
        match selector {
            Some(s) => Some((s, method_call_def(body, "push_arg", resolved))),
            None => None,
        }
    }

    /// The spans of the `push_arg` calls after a `transfer_from` selector is
    /// built whose arguments derive from the function's `arg_count`
    /// arguments, once per such argument; nothing for a function that
    /// returns a call or create builder, or when no selector builder
    /// (`selector_def_id`) is known.
    pub fn tainted_transfer_args(
        &self,
        bbs: &Vec<BasicBlock>,
        arg_count: u32,
        returns_builder: bool,
        selector_def_id: Option<u64>,
        push_arg_def_id: Option<u64>,
    ) -> (r: Vec<Span>)
        requires
            selector_def_id matches Some(s) ==> transfer_chains_end(bbs@, s, bbs@.len() as int),
        ensures
            r@ == unrestricted_transfer_spans(bbs@, arg_count, returns_builder, selector_def_id, push_arg_def_id),
    {
        let mut r: Vec<Span> = Vec::new();
        if returns_builder {
            return r;
        }
        let selector = match selector_def_id {
            Some(s) => s,
            None => {
                return r;
            },
        };
        let mut tainted: Vec<u32> = Vec::new();
        let mut l: u64 = 1;
        while l <= arg_count as u64
            invariant
                1 <= l,
                l <= arg_count + 1,
                local_set(tainted@) == Set::new(|x: u32| 1 <= x < l),
            decreases arg_count + 1 - l,
        {
            let local: u32 = l as u32;
            proof {
                lemma_local_set_push(tainted@, local);
            }
            tainted.push(local);
            assert(local_set(tainted@) =~= Set::new(|x: u32| 1 <= x < l + 1));
            l = l + 1;
        }
        assert(local_set(tainted@) =~= argument_locals(arg_count));
        taint_locals(bbs, &mut tainted);
        let ghost t = local_set(tainted@);
        let mut b: usize = 0;
        while b < bbs.len()
            invariant
                0 <= b <= bbs@.len(),
                transfer_chains_end(bbs@, selector, bbs@.len() as int),
                t == local_set(tainted@),
                r@ == transfer_reports(bbs@, selector, push_arg_def_id, t, b as int),
            decreases bbs@.len() - b,
        {
            let bb = &bbs[b];
            if let Some(Terminator::Call { target, .. }) = &bb.terminator {
                if called_fn_of(&bb.terminator) == Some(selector) {
                    if let Some(x) = target {
                        assert(selector_continuation(bbs@[b as int], selector) == Some(*x));
                        let ghost n = chain_length(bbs@, *x);
                        let mut sub = walk_chain(bbs, *x, &tainted, push_arg_def_id, Ghost(n));
                        r.append(&mut sub);
                    }
                }
            }
            b = b + 1;
        }
        r
    }
}

// ---------------------------------------------------------------------
// What the detector reports
// ---------------------------------------------------------------------

proof fn lemma_tainted_arg_spans_same(args: Seq<Operand>, t: Set<u32>, span: Span)
    ensures
        forall|k: int| 0 <= k < tainted_arg_spans(args, t, span).len() ==> #[trigger] tainted_arg_spans(args, t, span)[k] == span,
    decreases args.len(),
{
    if args.len() > 0 {
        lemma_tainted_arg_spans_same(args.drop_last(), t, span);
        let a = tainted_arg_spans(args.drop_last(), t, span);
        let more = match args.last().place_spec() {
            Some(p) => if t.contains(p.local) {
                seq![span]
            } else {
                Seq::empty()
            },
            None => Seq::empty(),
        };
        assert forall|k: int| 0 <= k < (a + more).len() implies #[trigger] (a + more)[k] == span by {
            if k < a.len() {
                assert((a + more)[k] == a[k]);
            } else {
                assert((a + more)[k] == more[k - a.len()]);
            }
        }
    }
}

proof fn lemma_chain_reports_sound(bbs: Seq<BasicBlock>, b: usize, n: nat, t: Set<u32>, push_arg: u64)
    ensures
        all_stop_calls(bbs, push_arg, chain_reports(bbs, b, n, t, Some(push_arg))),
    decreases n,
{
    if !(n == 0 || b >= bbs.len()) {
        let bb = bbs[b as int];
        let here = match bb.terminator {
            Some(Terminator::Call { args, fn_span, .. }) => if called_fn(bb.terminator) is Some
                && Some(push_arg) == called_fn(bb.terminator) {
                tainted_arg_spans(args@, t, fn_span)
            } else {
                Seq::empty()
            },
            _ => Seq::empty(),
        };
        match bb.terminator {
            Some(Terminator::Call { args, fn_span, .. }) => {
                lemma_tainted_arg_spans_same(args@, t, fn_span);
                assert forall|k: int| 0 <= k < here.len() implies #[trigger] stop_call_span(bbs, push_arg, here[k]) by {
                    assert(here[k] == fn_span);
                    assert(called_fn(bbs[b as int].terminator) == Some(push_arg));
                }
            },
            _ => {},
        }
        assert(all_stop_calls(bbs, push_arg, here));
        match chain_next(bb) {
            Some(x) => {
                lemma_chain_reports_sound(bbs, x, (n - 1) as nat, t, push_arg);
                lemma_all_stop_calls_join(bbs, push_arg, here, chain_reports(bbs, x, (n - 1) as nat, t, Some(push_arg)));
            },
            None => {},
        }
    }
}

/// Law: every span that the unrestricted-`transfer_from` detector reports
/// is that of a `push_arg` call of the function.
pub proof fn lemma_transfer_reports_are_push_arg_calls(
    bbs: Seq<BasicBlock>,
    arg_count: u32,
    returns_builder: bool,
    selector: Option<u64>,
    push_arg: u64,
)
    ensures
        forall|k: int|
            0 <= k < unrestricted_transfer_spans(bbs, arg_count, returns_builder, selector, Some(push_arg)).len()
                ==> #[trigger] stop_call_span(
                bbs,
                push_arg,
                unrestricted_transfer_spans(bbs, arg_count, returns_builder, selector, Some(push_arg))[k],
            ),
{
    if !(returns_builder || selector is None) {
        lemma_transfer_reports_sound(
            bbs,
            selector->0,
            push_arg,
            local_taint_blocks(bbs, argument_locals(arg_count)),
            bbs.len() as int,
        );
    }
}

proof fn lemma_transfer_reports_sound(bbs: Seq<BasicBlock>, selector: u64, push_arg: u64, t: Set<u32>, n: int)
    ensures
        all_stop_calls(bbs, push_arg, transfer_reports(bbs, selector, Some(push_arg), t, n)),
    decreases n,
{
    if n > 0 {
        lemma_transfer_reports_sound(bbs, selector, push_arg, t, n - 1);
        let more = match selector_continuation(bbs[n - 1], selector) {
            Some(x) => {
                lemma_chain_reports_sound(bbs, x, chain_length(bbs, x), t, push_arg);
                chain_reports(bbs, x, chain_length(bbs, x), t, Some(push_arg))
            },
            None => Seq::empty(),
        };
        lemma_all_stop_calls_join(bbs, push_arg, transfer_reports(bbs, selector, Some(push_arg), t, n - 1), more);
    }
}

} // verus!
