//! Detecting calls to another contract after reentrancy was allowed.
//!
//! When a block calls `set_allow_reentry(.., true)`, the result of that call
//! is tainted and the walk follows the control flow from the block after it,
//! each path with its own copy of the taint. References to a tainted local
//! spread the taint, the end of a local's storage removes it, and a call that
//! receives a tainted argument taints its result. A call of
//! `invoke_contract` with a tainted argument is reported. A path ends where
//! nothing is tainted any more.
use crate::guard::{reads_tainted, taint_args};
use crate::mir::{called_fn, called_fn_of, contains_place, lemma_place_set_push, place_set, well_formed,
    BasicBlock, Operand, Place, Rvalue, Span, Statement, Terminator,
};
use crate::env_calls::{last_def_where, method_call_def, method_call_named};
use crate::hir::{Expr, walk_nodes};
use vstd::prelude::*;

verus! {

// ---------------------------------------------------------------------
// Specifications
// ---------------------------------------------------------------------

/// The place that a reference-like right-hand side reads.
pub open spec fn referenced_place(rv: Rvalue) -> Option<Place> {
    match rv {
        Rvalue::Ref(p) => Some(p),
        Rvalue::AddressOf(p) => Some(p),
        Rvalue::Len(p) => Some(p),
        Rvalue::CopyForDeref(p) => Some(p),
        _ => None,
    }
}

/// Whether some tainted place belongs to local `l`.
pub open spec fn local_tainted(t: Set<Place>, l: u32) -> bool {
    exists|p: Place| t.contains(p) && p.local == l
}

/// How one statement changes the taint: the end of a local's storage drops
/// its places, and a reference to a tainted local taints the destination.
pub open spec fn reent_statement(s: Statement, t: Set<Place>) -> Set<Place> {
    match s {
        Statement::StorageDead(l) => t.filter(|p: Place| p.local != l),
        Statement::Assign(dst, rv) => match referenced_place(rv) {
            Some(orig) => if local_tainted(t, orig.local) {
                t.insert(dst)
            } else {
                t
            },
            None => t,
        },
        Statement::Other => t,
    }
}

/// The taint after a block's statements, in order.
pub open spec fn reent_statements(stmts: Seq<Statement>, t: Set<Place>) -> Set<Place>
    decreases stmts.len(),
{
    if stmts.len() == 0 {
        t
    } else {
        reent_statement(stmts.last(), reent_statements(stmts.drop_last(), t))
    }
}

/// Whether some argument of a call reads a tainted place.
pub open spec fn args_tainted(args: Seq<Operand>, t: Set<Place>) -> bool {
    exists|k: int| 0 <= k < args.len() && reads_tainted(#[trigger] args[k], t)
}

/// The walk from block `bb` with taint `t`: the spans it reports.
pub open spec fn reent_walk(bbs: Seq<BasicBlock>, stop: u64, fuel: nat, bb: usize, t: Set<Place>) -> Seq<Span>
    decreases fuel, 0nat, 0nat,
{
    if fuel == 0 || bb >= bbs.len() {
        Seq::empty()
    } else {
        let t1 = reent_statements(bbs[bb as int].statements@, t);
        if t1.is_empty() {
            Seq::empty()
        } else {
            match bbs[bb as int].terminator {
                None => Seq::empty(),
                Some(term) => match term {
                    Terminator::Goto { target } => reent_walk(bbs, stop, (fuel - 1) as nat, target, t1),
                    Terminator::SwitchInt { discr, targets } => reent_walk_targets(
                        bbs,
                        stop,
                        (fuel - 1) as nat,
                        targets@,
                        0,
                        t1,
                    ),
                    Terminator::Drop { target } => reent_walk(bbs, stop, (fuel - 1) as nat, target, t1),
                    Terminator::Call { func, args, destination, target, fn_span } => {
                        let flagged = args_tainted(args@, t1);
                        let t2 = taint_args(args@, t1, destination);
                        let here = if flagged && called_fn(Some(term)) == Some(stop) {
                            seq![fn_span]
                        } else {
                            Seq::empty()
                        };
                        match target {
                            Some(b) => here + reent_walk(bbs, stop, (fuel - 1) as nat, b, t2),
                            None => here,
                        }
                    },
                    Terminator::FalseEdge { real_target } => reent_walk(bbs, stop, (fuel - 1) as nat, real_target, t1),
                    Terminator::FalseUnwind { real_target } => reent_walk(bbs, stop, (fuel - 1) as nat, real_target, t1),
                    Terminator::InlineAsm { destination } => match destination {
                        Some(b) => reent_walk(bbs, stop, (fuel - 1) as nat, b, t1),
                        None => Seq::empty(),
                    },
                    _ => Seq::empty(),
                },
            }
        }
    }
}

/// The walks from `targets[i..]`, each with the same taint `t`.
pub open spec fn reent_walk_targets(
    bbs: Seq<BasicBlock>,
    stop: u64,
    fuel: nat,
    targets: Seq<usize>,
    i: nat,
    t: Set<Place>,
) -> Seq<Span>
    decreases fuel, 1nat, targets.len() - i,
{
    if i >= targets.len() {
        Seq::empty()
    } else {
        reent_walk(bbs, stop, fuel, targets[i as int], t) + reent_walk_targets(bbs, stop, fuel, targets, i + 1, t)
    }
}

/// The states (block and taint) that the walk goes on to from block `b`
/// with taint `t`.
pub open spec fn reent_next(bbs: Seq<BasicBlock>, b: usize, t: Set<Place>) -> Seq<(usize, Set<Place>)> {
    if b >= bbs.len() {
        Seq::empty()
    } else {
        let t1 = reent_statements(bbs[b as int].statements@, t);
        if t1.is_empty() {
            Seq::empty()
        } else {
            match bbs[b as int].terminator {
                None => Seq::empty(),
                Some(term) => match term {
                    Terminator::Goto { target } => seq![(target, t1)],
                    Terminator::SwitchInt { discr, targets } => targets@.map_values(|x: usize| (x, t1)),
                    Terminator::Drop { target } => seq![(target, t1)],
                    Terminator::Call { args, destination, target, .. } => match target {
                        Some(x) => seq![(x, taint_args(args@, t1, destination))],
                        None => Seq::empty(),
                    },
                    Terminator::FalseEdge { real_target } => seq![(real_target, t1)],
                    Terminator::FalseUnwind { real_target } => seq![(real_target, t1)],
                    Terminator::InlineAsm { destination } => match destination {
                        Some(x) => seq![(x, t1)],
                        None => Seq::empty(),
                    },
                    _ => Seq::empty(),
                },
            }
        }
    }
}

/// The walk is defined on every state of `region`: each such state names a
/// block, a block that the walk reads the terminator of has one, the region
/// is closed under the walk's steps, and each step lowers `rank`.
pub open spec fn reent_ranked(
    bbs: Seq<BasicBlock>,
    region: Set<(usize, Set<Place>)>,
    rank: spec_fn(usize, Set<Place>) -> nat,
) -> bool {
    &&& forall|s: (usize, Set<Place>)|
        #[trigger] region.contains(s) ==> {
            &&& s.0 < bbs.len()
            &&& !reent_statements(bbs[s.0 as int].statements@, s.1).is_empty()
                ==> bbs[s.0 as int].terminator is Some
        }
    &&& forall|s: (usize, Set<Place>), k: int|
        region.contains(s) && 0 <= k < reent_next(bbs, s.0, s.1).len() ==> {
            let n = #[trigger] reent_next(bbs, s.0, s.1)[k];
            &&& region.contains(n)
            &&& rank(n.0, n.1) < rank(s.0, s.1)
        }
}

/// The walk from block `start` with taint `t` comes to an end: a ranked
/// region holds its first state.
pub open spec fn reent_terminates(bbs: Seq<BasicBlock>, start: usize, t: Set<Place>) -> bool {
    exists|region: Set<(usize, Set<Place>)>, rank: spec_fn(usize, Set<Place>) -> nat|
        region.contains((start, t)) && reent_ranked(bbs, region, rank)
}

/// A ranked region that shows `reent_terminates(bbs, start, t)`.
pub open spec fn reent_ranking(bbs: Seq<BasicBlock>, start: usize, t: Set<Place>) -> (
    Set<(usize, Set<Place>)>,
    spec_fn(usize, Set<Place>) -> nat,
) {
    choose|region: Set<(usize, Set<Place>)>, rank: spec_fn(usize, Set<Place>) -> nat|
        region.contains((start, t)) && reent_ranked(bbs, region, rank)
}

/// The spans that the walk from `start` with taint `t` reports.
pub open spec fn reent_reports(bbs: Seq<BasicBlock>, stop: u64, start: usize, t: Set<Place>) -> Seq<Span> {
    reent_walk(bbs, stop, (reent_ranking(bbs, start, t).1)(start, t) + 1, start, t)
}

// ---------------------------------------------------------------------
// Executable functions
// ---------------------------------------------------------------------

/// Whether some place of `v` belongs to local `l`.
fn local_in(v: &Vec<Place>, l: u32) -> (b: bool)
    ensures
        b == local_tainted(place_set(v@), l),
{
    let mut i: usize = 0;
    while i < v.len()
        invariant
            0 <= i <= v@.len(),
            forall|j: int| 0 <= j < i ==> (#[trigger] v@[j]).local != l,
        decreases v@.len() - i,
    {
        if v[i].local == l {
            assert(place_set(v@).contains(v@[i as int]));
            return true;
        }
        i = i + 1;
    }
    assert forall|p: Place| place_set(v@).contains(p) implies p.local != l by {
        let j = choose|j: int| 0 <= j < v@.len() && v@[j] == p;
    }
    false
}

/// The places of `v` that do not belong to local `l`.
fn drop_local(v: &Vec<Place>, l: u32) -> (r: Vec<Place>)
    ensures
        place_set(r@) == place_set(v@).filter(|p: Place| p.local != l),
{
    let mut r: Vec<Place> = Vec::new();
    let mut i: usize = 0;
    while i < v.len()
        invariant
            0 <= i <= v@.len(),
            place_set(r@) == place_set(v@.take(i as int)).filter(|p: Place| p.local != l),
        decreases v@.len() - i,
    {
        let ghost before = r@;
        if v[i].local != l {
            proof {
                lemma_place_set_push(r@, v@[i as int]);
            }
            r.push(v[i]);
        }
        proof {
            assert(v@.take(i + 1) =~= v@.take(i as int).push(v@[i as int]));
            lemma_place_set_push(v@.take(i as int), v@[i as int]);
        }
        i = i + 1;
        assert(place_set(r@) =~= place_set(v@.take(i as int)).filter(|p: Place| p.local != l));
    }
    assert(v@.take(v@.len() as int) =~= v@);
    r
}

/// Runs a block's statements on the taint.
fn reent_through_statements(stmts: &Vec<Statement>, tainted: &mut Vec<Place>)
    ensures
        place_set(final(tainted)@) == reent_statements(stmts@, place_set(old(tainted)@)),
{
    let ghost start = tainted@;
    let mut i: usize = 0;
    while i < stmts.len()
        invariant
            0 <= i <= stmts@.len(),
            place_set(tainted@) == reent_statements(stmts@.take(i as int), place_set(start)),
        decreases stmts@.len() - i,
    {
        assert(stmts@.take(i + 1).drop_last() =~= stmts@.take(i as int));
        match stmts[i] {
            Statement::StorageDead(l) => {
                let kept = drop_local(tainted, l);
                *tainted = kept;
            },
            Statement::Assign(dst, rv) => {
                let orig: Option<Place> = match rv {
                    Rvalue::Ref(p) => Some(p),
                    Rvalue::AddressOf(p) => Some(p),
                    Rvalue::Len(p) => Some(p),
                    Rvalue::CopyForDeref(p) => Some(p),
                    _ => None,
                };
                if let Some(o) = orig {
                    if local_in(tainted, o.local) {
                        proof {
                            lemma_place_set_push(tainted@, dst);
                        }
                        tainted.push(dst);
                    }
                }
            },
            Statement::Other => {},
        }
        i = i + 1;
    }
    assert(stmts@.take(stmts@.len() as int) =~= stmts@);
}

/// Whether some argument reads a tainted place.
fn any_arg_tainted(args: &Vec<Operand>, tainted: &Vec<Place>) -> (b: bool)
    ensures
        b == args_tainted(args@, place_set(tainted@)),
{
    let mut i: usize = 0;
    while i < args.len()
        invariant
            0 <= i <= args@.len(),
            forall|k: int| 0 <= k < i ==> !reads_tainted(#[trigger] args@[k], place_set(tainted@)),
        decreases args@.len() - i,
    {
        if let Some(p) = args[i].place() {
            if contains_place(tainted, &p) {
                assert(reads_tainted(args@[i as int], place_set(tainted@)));
                return true;
            }
        }
        i = i + 1;
    }
    false
}

/// The walk from block `bb` with the taint `tainted` (see `reent_walk`).
fn walk(
    bb: usize,
    bbs: &Vec<BasicBlock>,
    tainted: &Vec<Place>,
    stop: u64,
    Ghost(region): Ghost<Set<(usize, Set<Place>)>>,
    Ghost(rank): Ghost<spec_fn(usize, Set<Place>) -> nat>,
    Ghost(fuel): Ghost<nat>,
) -> (r: Vec<Span>)
    requires
        reent_ranked(bbs@, region, rank),
        region.contains((bb, place_set(tainted@))),
        fuel > rank(bb, place_set(tainted@)),
    ensures
        r@ == reent_walk(bbs@, stop, fuel, bb, place_set(tainted@)),
    decreases rank(bb, place_set(tainted@)),
{
    let ghost t0 = place_set(tainted@);
    let mut ret: Vec<Span> = Vec::new();
    let mut t: Vec<Place> = tainted.clone();
    assert(t@ =~= tainted@);
    let block = &bbs[bb];
    reent_through_statements(&block.statements, &mut t);
    let ghost t1 = place_set(t@);
    if t.len() == 0 {
        assert(t1 =~= Set::<Place>::empty());
        return ret;
    }
    assert(t1.contains(t@[0]));
    let ghost next = reent_next(bbs@, bb, t0);
    proof {
        assert forall|k: int| 0 <= k < next.len() implies {
            &&& region.contains(#[trigger] next[k])
            &&& rank(next[k].0, next[k].1) < rank(bb, t0)
        } by {}
    }
    let term = match &block.terminator {
        Some(term) => term,
        None => {
            return ret;
        },
    };
    match term {
        Terminator::Goto { target } => {
            assert(next[0] == (*target, t1));
            walk(*target, bbs, &t, stop, Ghost(region), Ghost(rank), Ghost((fuel - 1) as nat))
        },
        Terminator::SwitchInt { discr, targets } => {
            let ghost fuel1 = (fuel - 1) as nat;
            proof {
                assert(next == targets@.map_values(|x: usize| (x, t1)));
                assert forall|k: int| 0 <= k < targets@.len() implies region.contains(
                    (#[trigger] targets@[k], t1),
                ) && rank(targets@[k], t1) < rank(bb, t0) by {
                    assert(next[k] == (targets@[k], t1));
                }
            }
            let mut i: usize = 0;
            while i < targets.len()
                invariant
                    reent_ranked(bbs@, region, rank),
                    t0 == place_set(tainted@),
                    0 <= i <= targets@.len(),
                    place_set(t@) == t1,
                    forall|k: int|
                        0 <= k < targets@.len() ==> region.contains((#[trigger] targets@[k], t1))
                            && rank(targets@[k], t1) < rank(bb, t0),
                    fuel1 >= rank(bb, t0),
                    reent_walk_targets(bbs@, stop, fuel1, targets@, 0, t1) == ret@
                        + reent_walk_targets(bbs@, stop, fuel1, targets@, i as nat, t1),
                decreases targets@.len() - i,
            {
                let ghost before = ret@;
                let mut sub = walk(targets[i], bbs, &t, stop, Ghost(region), Ghost(rank), Ghost(fuel1));
                ret.append(&mut sub);
                assert(before + (reent_walk(bbs@, stop, fuel1, targets@[i as int], t1)
                    + reent_walk_targets(bbs@, stop, fuel1, targets@, (i + 1) as nat, t1)) =~= ret@
                    + reent_walk_targets(bbs@, stop, fuel1, targets@, (i + 1) as nat, t1));
                i = i + 1;
            }
            assert(ret@ + Seq::<Span>::empty() =~= ret@);
            ret
        },
        Terminator::Drop { target } => {
            assert(next[0] == (*target, t1));
            walk(*target, bbs, &t, stop, Ghost(region), Ghost(rank), Ghost((fuel - 1) as nat))
        },
        Terminator::Call { func, args, destination, target, fn_span } => {
            let flagged = any_arg_tainted(args, &t);
            crate::guard::taint_call_args(args, *destination, &mut t);
            if flagged {
                let hit = match func {
                    Operand::Constant(c) => c.fn_def == Some(stop),
                    _ => false,
                };
                if hit {
                    ret.push(*fn_span);
                }
            }
            match target {
                Some(b) => {
                    assert(next[0] == (*b, place_set(t@)));
                    let ghost before = ret@;
                    let mut sub = walk(*b, bbs, &t, stop, Ghost(region), Ghost(rank), Ghost((fuel - 1) as nat));
                    ret.append(&mut sub);
                    ret
                },
                None => ret,
            }
        },
        Terminator::FalseEdge { real_target } => {
            assert(next[0] == (*real_target, t1));
            walk(*real_target, bbs, &t, stop, Ghost(region), Ghost(rank), Ghost((fuel - 1) as nat))
        },
        Terminator::FalseUnwind { real_target } => {
            assert(next[0] == (*real_target, t1));
            walk(*real_target, bbs, &t, stop, Ghost(region), Ghost(rank), Ghost((fuel - 1) as nat))
        },
        Terminator::InlineAsm { destination } => match destination {
            Some(b) => {
                assert(next[0] == (*b, t1));
                walk(*b, bbs, &t, stop, Ghost(region), Ghost(rank), Ghost((fuel - 1) as nat))
            },
            None => ret,
        },
        _ => ret,
    }
}

/// The calls of `stop_on_func` with a tainted argument that the walk from
/// block `bb` with the taint `tainted_places_param` reaches (see the module
/// documentation), in the order the walk reaches them.
#[allow(non_snake_case)]
pub fn navigateTroughBasicBlocks(
    bb: usize,
    bbs: &Vec<BasicBlock>,
    tainted_places_param: &Vec<Place>,
    stop_on_func: u64,
) -> (r: Vec<Span>)
    requires
        reent_terminates(bbs@, bb, place_set(tainted_places_param@)),
    ensures
        r@ == reent_reports(bbs@, stop_on_func, bb, place_set(tainted_places_param@)),
{
    let ghost pair = reent_ranking(bbs@, bb, place_set(tainted_places_param@));
    walk(
        bb,
        bbs,
        tainted_places_param,
        stop_on_func,
        Ghost(pair.0),
        Ghost(pair.1),
        Ghost((pair.1)(bb, place_set(tainted_places_param@)) + 1),
    )
}

/// Whether a block ends in `set_allow_reentry(.., true)`: a direct call of
/// `allow` whose last argument is the constant `true`.
pub open spec fn allows_reentry(b: BasicBlock, allow: Option<u64>) -> bool {
    match b.terminator {
        Some(Terminator::Call { func, args, .. }) => {
            &&& allow is Some
            &&& called_fn(b.terminator) == allow
            &&& args@.len() > 0
            &&& args@.last() matches Operand::Constant(c)
            &&& c.bool_value == Some(true)
        },
        _ => false,
    }
}

/// The block after a call and the call's destination.
pub open spec fn call_continuation(b: BasicBlock) -> (usize, Place) {
    match b.terminator {
        Some(Terminator::Call { destination, target, .. }) => (target.unwrap_or(0), destination),
        _ => (0, Place { local: 0, projection: 0 }),
    }
}

/// Every block of `bbs[..n]` that allows reentry continues to a block, a
/// contract call is known, and the walk from there ends.
pub open spec fn reentrancy_walks_end(bbs: Seq<BasicBlock>, allow: Option<u64>, invoke: Option<u64>, n: int) -> bool {
    forall|b: int|
        0 <= b < n && #[trigger] allows_reentry(bbs[b], allow) ==> {
            &&& bbs[b].terminator matches Some(Terminator::Call { target, .. }) && target is Some
            &&& invoke is Some
            &&& reent_terminates(bbs, call_continuation(bbs[b]).0, set![call_continuation(bbs[b]).1])
        }
}

/// The reports of the walks started by the blocks of `bbs[..n]` that allow
/// reentry, in block order.
pub open spec fn reentrancy_reports(bbs: Seq<BasicBlock>, allow: Option<u64>, invoke: Option<u64>, n: int) -> Seq<Span>
    decreases n,
{
    if n <= 0 {
        Seq::empty()
    } else {
        reentrancy_reports(bbs, allow, invoke, n - 1) + if allows_reentry(bbs[n - 1], allow) {
            let c = call_continuation(bbs[n - 1]);
            reent_reports(bbs, invoke.unwrap_or(0), c.0, set![c.1])
        } else {
            Seq::empty()
        }
    }
}

/// Detects calls to another contract after reentrancy was allowed.
pub struct Reentrancy {}

impl Reentrancy {
    /// The detector.
    pub fn new() -> (r: Self) {
        Reentrancy {  }
    }

    /// The functions that the body `body` calls as `set_allow_reentry` and
    /// as `invoke_contract`, each by the last method call of that name in
    /// walk order, as `resolved` (node id, function) resolves it.
    pub fn find_defs(&self, body: &Expr, resolved: &Vec<(u64, u64)>) -> (r: (Option<u64>, Option<u64>))
        ensures
            r.0 == last_def_where(
                walk_nodes(*body),
                resolved@,
                |n: Expr| method_call_named(n, "set_allow_reentry"@),
            ),
            r.1 == last_def_where(
                walk_nodes(*body),
                resolved@,
                |n: Expr| method_call_named(n, "invoke_contract"@),
            ),
    {
        let allow = method_call_def(body, "set_allow_reentry", resolved);
        let invoke = method_call_def(body, "invoke_contract", resolved);
        (allow, invoke)
    }

    /// For every block, in order, that calls `set_allow_reentry` (given by
    /// its function number) with `true`, the calls of `invoke_contract` with
    /// an argument derived from that call's result (see
    /// `navigateTroughBasicBlocks`).
    pub fn reentrant_calls(&self, bbs: &Vec<BasicBlock>, allow_def_id: Option<u64>, invoke_def_id: Option<u64>) -> (r: Vec<Span>)
        requires
            reentrancy_walks_end(bbs@, allow_def_id, invoke_def_id, bbs@.len() as int),
        ensures
            r@ == reentrancy_reports(bbs@, allow_def_id, invoke_def_id, bbs@.len() as int),
    {
        let mut r: Vec<Span> = Vec::new();
        let mut i: usize = 0;
        while i < bbs.len()
            invariant
                0 <= i <= bbs@.len(),
                reentrancy_walks_end(bbs@, allow_def_id, invoke_def_id, bbs@.len() as int),
                r@ == reentrancy_reports(bbs@, allow_def_id, invoke_def_id, i as int),
            decreases bbs@.len() - i,
        {
            let block = &bbs[i];
            let mut qualifies = false;
            if let Some(Terminator::Call { func, args, .. }) = &block.terminator {
                let f = called_fn_of(&block.terminator);
                if allow_def_id.is_some() && f == allow_def_id && args.len() > 0 {
                    if let Operand::Constant(c) = &args[args.len() - 1] {
                        if c.bool_value == Some(true) {
                            qualifies = true;
                        }
                    }
                }
            }
            assert(qualifies == allows_reentry(bbs@[i as int], allow_def_id));
            if qualifies {
                assert(allows_reentry(bbs@[i as int], allow_def_id));
                if let Some(Terminator::Call { destination, target, .. }) = &block.terminator {
                    if let (Some(t), Some(invoke)) = (target, invoke_def_id) {
                        let start: Vec<Place> = vec![*destination];
                        assert(place_set(start@) =~= set![*destination]);
                        let mut sub = navigateTroughBasicBlocks(*t, bbs, &start, invoke);
                        r.append(&mut sub);
                    }
                }
            }
            i = i + 1;
        }
        r
    }
}

// ---------------------------------------------------------------------
// What the walk reports
// ---------------------------------------------------------------------

/// Whether `s` is the span of a call of function `stop` that ends a block.
pub open spec fn stop_call_span(bbs: Seq<BasicBlock>, stop: u64, s: Span) -> bool {
    exists|b: int|
        0 <= b < bbs.len() && #[trigger] called_fn(bbs[b].terminator) == Some(stop)
            && (bbs[b].terminator matches Some(Terminator::Call { fn_span, .. }) && fn_span == s)
}

/// Whether every span of `s` is that of a call of `stop`.
pub open spec fn all_stop_calls(bbs: Seq<BasicBlock>, stop: u64, s: Seq<Span>) -> bool {
    forall|k: int| 0 <= k < s.len() ==> #[trigger] stop_call_span(bbs, stop, s[k])
}

/// Two lists of spans of calls of `stop` joined are spans of such calls.
pub proof fn lemma_all_stop_calls_join(bbs: Seq<BasicBlock>, stop: u64, a: Seq<Span>, b: Seq<Span>)
    requires
        all_stop_calls(bbs, stop, a),
        all_stop_calls(bbs, stop, b),
    ensures
        all_stop_calls(bbs, stop, a + b),
{
    assert forall|k: int| 0 <= k < (a + b).len() implies #[trigger] stop_call_span(bbs, stop, (a + b)[k]) by {
        if k < a.len() {
            assert((a + b)[k] == a[k]);
        } else {
            assert((a + b)[k] == b[k - a.len()]);
        }
    }
}

proof fn lemma_reent_walk_sound(bbs: Seq<BasicBlock>, stop: u64, fuel: nat, bb: usize, t: Set<Place>)
    ensures
        all_stop_calls(bbs, stop, reent_walk(bbs, stop, fuel, bb, t)),
    decreases fuel, 0nat, 0nat,
{
    if !(fuel == 0 || bb >= bbs.len()) {
        let t1 = reent_statements(bbs[bb as int].statements@, t);
        if !t1.is_empty() {
            match bbs[bb as int].terminator {
                None => {},
                Some(term) => match term {
                    Terminator::Goto { target } => lemma_reent_walk_sound(bbs, stop, (fuel - 1) as nat, target, t1),
                    Terminator::SwitchInt { discr, targets } => lemma_reent_targets_sound(bbs, stop, (fuel - 1) as nat, targets@, 0, t1),
                    Terminator::Drop { target } => lemma_reent_walk_sound(bbs, stop, (fuel - 1) as nat, target, t1),
                    Terminator::Call { func, args, destination, target, fn_span } => {
                        let flagged = args_tainted(args@, t1);
                        let t2 = taint_args(args@, t1, destination);
                        let here = if flagged && called_fn(Some(term)) == Some(stop) {
                            seq![fn_span]
                        } else {
                            Seq::empty()
                        };
                        assert forall|k: int| 0 <= k < here.len() implies #[trigger] stop_call_span(bbs, stop, here[k]) by {
                            assert(called_fn(bbs[bb as int].terminator) == Some(stop));
                        }
                        match target {
                            Some(b) => {
                                lemma_reent_walk_sound(bbs, stop, (fuel - 1) as nat, b, t2);
                                lemma_all_stop_calls_join(bbs, stop, here, reent_walk(bbs, stop, (fuel - 1) as nat, b, t2));
                            },
                            None => {},
                        }
                    },
                    Terminator::FalseEdge { real_target } => lemma_reent_walk_sound(bbs, stop, (fuel - 1) as nat, real_target, t1),
                    Terminator::FalseUnwind { real_target } => lemma_reent_walk_sound(bbs, stop, (fuel - 1) as nat, real_target, t1),
                    Terminator::InlineAsm { destination } => match destination {
                        Some(b) => lemma_reent_walk_sound(bbs, stop, (fuel - 1) as nat, b, t1),
                        None => {},
                    },
                    _ => {},
                },
            }
        }
    }
}

proof fn lemma_reent_targets_sound(
    bbs: Seq<BasicBlock>,
    stop: u64,
    fuel: nat,
    targets: Seq<usize>,
    i: nat,
    t: Set<Place>,
)
    ensures
        all_stop_calls(bbs, stop, reent_walk_targets(bbs, stop, fuel, targets, i, t)),
    decreases fuel, 1nat, targets.len() - i,
{
    if i < targets.len() {
        lemma_reent_walk_sound(bbs, stop, fuel, targets[i as int], t);
        lemma_reent_targets_sound(bbs, stop, fuel, targets, i + 1, t);
        lemma_all_stop_calls_join(
            bbs,
            stop,
            reent_walk(bbs, stop, fuel, targets[i as int], t),
            reent_walk_targets(bbs, stop, fuel, targets, i + 1, t),
        );
    }
}

/// Law: every span that the reentrancy detector reports is that of a call
/// of `invoke_contract` in the body, and a body in which no block allows
/// reentry gets no report.
pub proof fn lemma_reentrancy_reports_are_invocations(
    bbs: Seq<BasicBlock>,
    allow: Option<u64>,
    invoke: u64,
    n: int,
)
    ensures
        forall|k: int|
            0 <= k < reentrancy_reports(bbs, allow, Some(invoke), n).len() ==> #[trigger] stop_call_span(
                bbs,
                invoke,
                reentrancy_reports(bbs, allow, Some(invoke), n)[k],
            ),
        (forall|b: int| 0 <= b < n ==> !#[trigger] allows_reentry(bbs[b], allow))
            ==> reentrancy_reports(bbs, allow, Some(invoke), n) == Seq::<Span>::empty(),
    decreases n,
{
    if n > 0 {
        lemma_reentrancy_reports_are_invocations(bbs, allow, invoke, n - 1);
        let prev = reentrancy_reports(bbs, allow, Some(invoke), n - 1);
        let more = if allows_reentry(bbs[n - 1], allow) {
            let c = call_continuation(bbs[n - 1]);
            lemma_reent_walk_sound(bbs, invoke, (reent_ranking(bbs, c.0, set![c.1]).1)(c.0, set![c.1]) + 1, c.0, set![c.1]);
            reent_reports(bbs, invoke, c.0, set![c.1])
        } else {
            Seq::empty()
        };
        assert(all_stop_calls(bbs, invoke, prev));
        lemma_all_stop_calls_join(bbs, invoke, prev, more);
        if forall|b: int| 0 <= b < n ==> !#[trigger] allows_reentry(bbs[b], allow) {
            assert(!allows_reentry(bbs[n - 1], allow));
            assert(prev + more =~= Seq::<Span>::empty());
        }
    }
}

} // verus!
