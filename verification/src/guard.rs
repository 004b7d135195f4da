//! Finding operations that run without a check of the caller.
//!
//! The walk starts at a function's first block and follows its control
//! flow, each block once. Values derived from the result of a `caller()`
//! call are tainted; once a branch depends on a tainted value, everything
//! below it counts as checked. A watched call (a storage write, a push, ...)
//! that is reached unchecked is reported with its destination and span.
use crate::mir::{
    called_fn, called_fn_of, contains_place, lemma_place_set_push, place_set, successors,
    taint_statements, taint_through_statements, well_formed, BasicBlock, Operand, Place, Span,
    Terminator,
};
use vstd::prelude::*;

verus! {

// ---------------------------------------------------------------------
// Specifications
// ---------------------------------------------------------------------

/// How many times `x` occurs in `s`.
pub open spec fn occurrences(s: Seq<usize>, x: usize) -> nat
    decreases s.len(),
{
    if s.len() == 0 {
        0
    } else {
        occurrences(s.drop_last(), x) + if s.last() == x {
            1nat
        } else {
            0nat
        }
    }
}

/// How many blocks are not yet visited.
pub open spec fn unvisited(v: Seq<bool>) -> nat
    decreases v.len(),
{
    if v.len() == 0 {
        0
    } else {
        unvisited(v.drop_last()) + if v.last() {
            0nat
        } else {
            1nat
        }
    }
}

/// Whether an operand reads a tainted place.
pub open spec fn reads_tainted(op: Operand, t: Set<Place>) -> bool {
    match op.place_spec() {
        Some(p) => t.contains(p),
        None => false,
    }
}

/// The taint after a call's arguments: the destination becomes tainted when
/// some argument reads a tainted place.
pub open spec fn taint_args(args: Seq<Operand>, t: Set<Place>, dest: Place) -> Set<Place> {
    if exists|k: int|
        0 <= k < args.len() && reads_tainted(#[trigger] args[k], t) {
        t.insert(dest)
    } else {
        t
    }
}

/// Whether a watched call's second argument (the key or value) is not
/// itself tainted: true when there is no second argument, false when it is
/// a constant.
pub open spec fn second_arg_untainted(args: Seq<Operand>, t: Set<Place>) -> bool {
    if args.len() < 2 {
        true
    } else {
        match args[1].place_spec() {
            Some(p) => !t.contains(p),
            None => false,
        }
    }
}

/// `n` copies of `x`.
pub open spec fn repeat<A>(x: A, n: nat) -> Seq<A> {
    Seq::new(n, |_i: int| x)
}

/// The state of the walk: what it reported, the tainted places and the
/// visited blocks.
pub type WalkState = (Seq<(Place, Span)>, Set<Place>, Seq<bool>);

/// The walk from block `bb` (see the module documentation), given enough
/// `fuel` (more than the number of unvisited blocks).
pub open spec fn guard_walk(
    bbs: Seq<BasicBlock>,
    callers: Seq<usize>,
    ops: Seq<usize>,
    fuel: nat,
    bb: usize,
    after: bool,
    t: Set<Place>,
    vis: Seq<bool>,
) -> WalkState
    decreases fuel, 0nat, 0nat,
{
    if fuel == 0 || bb >= vis.len() || bb >= bbs.len() || vis[bb as int] {
        (Seq::empty(), t, vis)
    } else {
        let vis1 = vis.update(bb as int, true);
        match bbs[bb as int].terminator {
            None => (Seq::empty(), t, vis1),
            Some(term) => {
                let t1 = taint_statements(bbs[bb as int].statements@, t);
                match term {
                    Terminator::SwitchInt { discr, targets } => {
                        let checked = match discr.place_spec() {
                            Some(p) => t1.contains(p) || after,
                            None => after,
                        };
                        guard_walk_targets(bbs, callers, ops, (fuel - 1) as nat, targets@, 0, checked, t1, vis1)
                    },
                    Terminator::Call { args, destination, target, fn_span, .. } => {
                        let t2 = taint_args(args@, t1, destination);
                        let t3 = if callers.contains(bb) {
                            t2.insert(destination)
                        } else {
                            t2
                        };
                        let here = if !after && second_arg_untainted(args@, t3) {
                            repeat((destination, fn_span), occurrences(ops, bb))
                        } else {
                            Seq::empty()
                        };
                        match target {
                            Some(b) => {
                                let r = guard_walk(bbs, callers, ops, (fuel - 1) as nat, b, after, t3, vis1);
                                (here + r.0, r.1, r.2)
                            },
                            None => (here, t3, vis1),
                        }
                    },
                    Terminator::Goto { target } => guard_walk(bbs, callers, ops, (fuel - 1) as nat, target, after, t1, vis1),
                    Terminator::Assert { target } => guard_walk(bbs, callers, ops, (fuel - 1) as nat, target, after, t1, vis1),
                    Terminator::Drop { target } => guard_walk(bbs, callers, ops, (fuel - 1) as nat, target, after, t1, vis1),
                    Terminator::Yield { resume } => guard_walk(bbs, callers, ops, (fuel - 1) as nat, resume, after, t1, vis1),
                    Terminator::FalseEdge { real_target } => guard_walk(bbs, callers, ops, (fuel - 1) as nat, real_target, after, t1, vis1),
                    Terminator::FalseUnwind { real_target } => guard_walk(bbs, callers, ops, (fuel - 1) as nat, real_target, after, t1, vis1),
                    Terminator::InlineAsm { destination } => match destination {
                        Some(b) => guard_walk(bbs, callers, ops, (fuel - 1) as nat, b, after, t1, vis1),
                        None => (Seq::empty(), t1, vis1),
                    },
                    Terminator::Exit => (Seq::empty(), t1, vis1),
                }
            },
        }
    }
}

/// The walk from each of `targets[i..]` in turn, the state passed along.
pub open spec fn guard_walk_targets(
    bbs: Seq<BasicBlock>,
    callers: Seq<usize>,
    ops: Seq<usize>,
    fuel: nat,
    targets: Seq<usize>,
    i: nat,
    after: bool,
    t: Set<Place>,
    vis: Seq<bool>,
) -> WalkState
    decreases fuel, 1nat, targets.len() - i,
{
    if i >= targets.len() {
        (Seq::empty(), t, vis)
    } else {
        let r = guard_walk(bbs, callers, ops, fuel, targets[i as int], after, t, vis);
        let rest = guard_walk_targets(bbs, callers, ops, fuel, targets, i + 1, after, r.1, r.2);
        (r.0 + rest.0, rest.1, rest.2)
    }
}

/// The whole walk from the first block, nothing tainted or visited yet.
pub open spec fn unguarded_calls(bbs: Seq<BasicBlock>, callers: Seq<usize>, ops: Seq<usize>) -> Seq<(Place, Span)> {
    guard_walk(bbs, callers, ops, (bbs.len() + 1) as nat, 0, false, Set::empty(), Seq::new(bbs.len(), |_i: int| false)).0
}

// ---------------------------------------------------------------------
// Lemmas
// ---------------------------------------------------------------------

/// Marking an unvisited block visited leaves one fewer unvisited block.
proof fn lemma_unvisited_mark(v: Seq<bool>, b: int)
    requires
        0 <= b < v.len(),
        !v[b],
    ensures
        unvisited(v.update(b, true)) + 1 == unvisited(v),
    decreases v.len(),
{
    if b == v.len() - 1 {
        assert(v.update(b, true).drop_last() =~= v.drop_last());
    } else {
        assert(v.update(b, true).drop_last() =~= v.drop_last().update(b, true));
        lemma_unvisited_mark(v.drop_last(), b);
    }
}

/// Marking blocks visited never adds unvisited ones.
pub open spec fn grows(old_v: Seq<bool>, new_v: Seq<bool>) -> bool {
    &&& new_v.len() == old_v.len()
    &&& forall|j: int| 0 <= j < old_v.len() && old_v[j] ==> new_v[j]
}

/// More visited blocks means no more unvisited ones.
proof fn lemma_unvisited_grows(a: Seq<bool>, b: Seq<bool>)
    requires
        grows(a, b),
    ensures
        unvisited(b) <= unvisited(a),
    decreases a.len(),
{
    if a.len() > 0 {
        assert(grows(a.drop_last(), b.drop_last()));
        lemma_unvisited_grows(a.drop_last(), b.drop_last());
    }
}

/// `repeat` grows one element at a time.
proof fn lemma_repeat_push<A>(x: A, n: nat)
    ensures
        repeat(x, n + 1) == repeat(x, n).push(x),
{
    assert(repeat(x, n + 1) =~= repeat(x, n).push(x));
}

// ---------------------------------------------------------------------
// Executable functions
// ---------------------------------------------------------------------

/// Taints `dest` when some argument reads a tainted place.
pub(crate) fn taint_call_args(args: &Vec<Operand>, dest: Place, tainted: &mut Vec<Place>)
    ensures
        place_set(final(tainted)@) == taint_args(args@, place_set(old(tainted)@), dest),
{
    let ghost t = place_set(tainted@);
    let mut i: usize = 0;
    while i < args.len()
        invariant
            0 <= i <= args@.len(),
            place_set(tainted@) == taint_args(args@.take(i as int), t, dest),
        decreases args@.len() - i,
    {
        let ghost prev = args@.take(i as int);
        let ghost cur = args@.take(i + 1);
        proof {
            assert forall|k: int| 0 <= k < prev.len() implies #[trigger] cur[k] == prev[k] by {}
            assert(cur[i as int] == args@[i as int]);
            let e_prev = exists|k: int| 0 <= k < prev.len() && reads_tainted(#[trigger] prev[k], t);
            let e_cur = exists|k: int| 0 <= k < cur.len() && reads_tainted(#[trigger] cur[k], t);
            if e_prev {
                let k = choose|k: int| 0 <= k < prev.len() && reads_tainted(#[trigger] prev[k], t);
                assert(reads_tainted(cur[k], t));
            }
            if e_cur {
                let k = choose|k: int| 0 <= k < cur.len() && reads_tainted(#[trigger] cur[k], t);
                if k < prev.len() {
                    assert(reads_tainted(prev[k], t));
                }
            }
            if reads_tainted(args@[i as int], t) {
                assert(reads_tainted(cur[i as int], t));
            }
            assert(e_cur == (e_prev || reads_tainted(args@[i as int], t)));
        }
        if let Some(p) = args[i].place() {
            if contains_place(tainted, &p) {
                proof {
                    lemma_place_set_push(tainted@, dest);
                }
                tainted.push(dest);
            }
        }
        i = i + 1;
        assert(place_set(tainted@) =~= taint_args(args@.take(i as int), t, dest));
    }
    assert(args@.take(args@.len() as int) =~= args@);
}

/// Whether `x` is one of `v`.
pub(crate) fn contains_index(v: &Vec<usize>, x: usize) -> (b: bool)
    ensures
        b == v@.contains(x),
{
    let mut i: usize = 0;
    while i < v.len()
        invariant
            0 <= i <= v@.len(),
            forall|j: int| 0 <= j < i ==> v@[j] != x,
        decreases v@.len() - i,
    {
        if v[i] == x {
            return true;
        }
        i = i + 1;
    }
    false
}

/// Appends `(dest, span)` once for every occurrence of `bb` in `ops`.
pub(crate) fn push_reports(out: &mut Vec<(Place, Span)>, ops: &Vec<usize>, bb: usize, dest: Place, span: Span)
    ensures
        final(out)@ == old(out)@ + repeat((dest, span), occurrences(ops@, bb)),
{
    let ghost start = out@;
    let mut i: usize = 0;
    while i < ops.len()
        invariant
            0 <= i <= ops@.len(),
            out@ == start + repeat((dest, span), occurrences(ops@.take(i as int), bb)),
        decreases ops@.len() - i,
    {
        assert(ops@.take(i + 1).drop_last() =~= ops@.take(i as int));
        if ops[i] == bb {
            proof {
                lemma_repeat_push((dest, span), occurrences(ops@.take(i as int), bb));
            }
            out.push((dest, span));
        }
        i = i + 1;
        assert(out@ =~= start + repeat((dest, span), occurrences(ops@.take(i as int), bb)));
    }
    assert(ops@.take(ops@.len() as int) =~= ops@);
}

/// The walk from block `bb` (see `guard_walk`).
fn walk(
    bbs: &Vec<BasicBlock>,
    callers: &Vec<usize>,
    ops: &Vec<usize>,
    bb: usize,
    after: bool,
    tainted: &mut Vec<Place>,
    visited: &mut Vec<bool>,
    Ghost(fuel): Ghost<nat>,
) -> (r: Vec<(Place, Span)>)
    requires
        well_formed(bbs@),
        bb < bbs@.len(),
        old(visited)@.len() == bbs@.len(),
        fuel > unvisited(old(visited)@),
    ensures
        grows(old(visited)@, final(visited)@),
        (r@, place_set(final(tainted)@), final(visited)@) == guard_walk(
            bbs@,
            callers@,
            ops@,
            fuel,
            bb,
            after,
            place_set(old(tainted)@),
            old(visited)@,
        ),
    decreases unvisited(old(visited)@), 1nat, 0nat,
{
    let ghost t0 = place_set(tainted@);
    let ghost vis0 = visited@;
    let mut ret: Vec<(Place, Span)> = Vec::new();
    if visited[bb] {
        return ret;
    }
    visited.set(bb, true);
    proof {
        lemma_unvisited_mark(vis0, bb as int);
    }
    let block = &bbs[bb];
    let term = match &block.terminator {
        None => {
            return ret;
        },
        Some(term) => term,
    };
    taint_through_statements(&block.statements, tainted);
    let ghost vis1 = visited@;
    proof {
        assert(forall|k: int|
            0 <= k < successors(*term).len() ==> #[trigger] successors(*term)[k] < bbs@.len());
    }
    match term {
        Terminator::SwitchInt { discr, targets } => {
            let checked = match discr.place() {
                Some(p) => contains_place(tainted, &p) || after,
                None => after,
            };
            let ghost fuel1 = (fuel - 1) as nat;
            let mut i: usize = 0;
            while i < targets.len()
                invariant
                    well_formed(bbs@),
                    visited@.len() == bbs@.len(),
                    grows(vis0, visited@),
                    grows(vis1, visited@),
                    fuel1 > unvisited(visited@),
                    unvisited(vis1) < unvisited(vis0),
                    vis0 == old(visited)@,
                    0 <= i <= targets@.len(),
                    forall|k: int| 0 <= k < targets@.len() ==> #[trigger] targets@[k] < bbs@.len(),
                    guard_walk_targets(bbs@, callers@, ops@, fuel1, targets@, 0, checked, taint_statements(block.statements@, t0), vis1)
                        == ({
                        let rest = guard_walk_targets(bbs@, callers@, ops@, fuel1, targets@, i as nat, checked, place_set(tainted@), visited@);
                        (ret@ + rest.0, rest.1, rest.2)
                    }),
                decreases targets@.len() - i,
            {
                proof {
                    lemma_unvisited_grows(vis1, visited@);
                }
                let ghost before_ret = ret@;
                let ghost before_t = place_set(tainted@);
                let ghost before_v = visited@;
                let mut sub = walk(bbs, callers, ops, targets[i], checked, tainted, visited, Ghost(fuel1));
                ret.append(&mut sub);
                proof {
                    lemma_unvisited_grows(before_v, visited@);
                    assert(grows(vis0, visited@));
                    assert(grows(vis1, visited@));
                    let r = guard_walk(bbs@, callers@, ops@, fuel1, targets@[i as int], checked, before_t, before_v);
                    let rest = guard_walk_targets(bbs@, callers@, ops@, fuel1, targets@, (i + 1) as nat, checked, r.1, r.2);
                    assert(before_ret + (r.0 + rest.0) =~= ret@ + rest.0);
                }
                i = i + 1;
            }
            assert(ret@ + Seq::<(Place, Span)>::empty() =~= ret@);
            ret
        },
        Terminator::Call { args, destination, target, fn_span, .. } => {
            taint_call_args(args, *destination, tainted);
            if contains_index(callers, bb) {
                proof {
                    lemma_place_set_push(tainted@, *destination);
                }
                tainted.push(*destination);
            }
            let ok = if args.len() < 2 {
                true
            } else {
                match args[1].place() {
                    Some(p) => !contains_place(tainted, &p),
                    None => false,
                }
            };
            if !after && ok {
                push_reports(&mut ret, ops, bb, *destination, *fn_span);
            }
            assert(ret@ =~= (if !after && second_arg_untainted(args@, place_set(tainted@)) {
                repeat((*destination, *fn_span), occurrences(ops@, bb))
            } else {
                Seq::empty()
            }));
            match target {
                Some(b) => {
                    assert(successors(*term)[0] == *b);
                    let ghost before_ret = ret@;
                    let mut sub = walk(bbs, callers, ops, *b, after, tainted, visited, Ghost((fuel - 1) as nat));
                    ret.append(&mut sub);
                    ret
                },
                None => ret,
            }
        },
        Terminator::Goto { target } => {
            assert(successors(*term)[0] == *target);
            walk(bbs, callers, ops, *target, after, tainted, visited, Ghost((fuel - 1) as nat))
        },
        Terminator::Assert { target } => {
            assert(successors(*term)[0] == *target);
            walk(bbs, callers, ops, *target, after, tainted, visited, Ghost((fuel - 1) as nat))
        },
        Terminator::Drop { target } => {
            assert(successors(*term)[0] == *target);
            walk(bbs, callers, ops, *target, after, tainted, visited, Ghost((fuel - 1) as nat))
        },
        Terminator::Yield { resume } => {
            assert(successors(*term)[0] == *resume);
            walk(bbs, callers, ops, *resume, after, tainted, visited, Ghost((fuel - 1) as nat))
        },
        Terminator::FalseEdge { real_target } => {
            assert(successors(*term)[0] == *real_target);
            walk(bbs, callers, ops, *real_target, after, tainted, visited, Ghost((fuel - 1) as nat))
        },
        Terminator::FalseUnwind { real_target } => {
            assert(successors(*term)[0] == *real_target);
            walk(bbs, callers, ops, *real_target, after, tainted, visited, Ghost((fuel - 1) as nat))
        },
        Terminator::InlineAsm { destination } => match destination {
            Some(b) => {
                assert(successors(*term)[0] == *b);
                walk(bbs, callers, ops, *b, after, tainted, visited, Ghost((fuel - 1) as nat))
            },
            None => ret,
        },
        Terminator::Exit => ret,
    }
}

/// The watched calls (the blocks of `ops`, each as often as it occurs there)
/// that the walk from the first block reaches before any branch on a value
/// derived from a `caller()` call (the blocks of `callers`), unless their
/// second argument is itself derived from it; each with its destination and
/// span, in the order the walk reaches them.
pub fn find_unguarded_calls(bbs: &Vec<BasicBlock>, callers: &Vec<usize>, ops: &Vec<usize>) -> (r: Vec<
    (Place, Span),
>)
    requires
        well_formed(bbs@),
        bbs@.len() > 0,
    ensures
        r@ == unguarded_calls(bbs@, callers@, ops@),
{
    let mut tainted: Vec<Place> = Vec::new();
    let mut visited: Vec<bool> = Vec::new();
    let mut i: usize = 0;
    while i < bbs.len()
        invariant
            0 <= i <= bbs@.len(),
            visited@ == Seq::new(i as nat, |_j: int| false),
        decreases bbs@.len() - i,
    {
        visited.push(false);
        i = i + 1;
        assert(visited@ =~= Seq::new(i as nat, |_j: int| false));
    }
    proof {
        assert(forall|j: int| 0 <= j < visited@.len() ==> !visited@[j]);
        lemma_unvisited_all(visited@);
        assert(place_set(tainted@) =~= Set::<Place>::empty());
    }
    walk(bbs, callers, ops, 0, false, &mut tainted, &mut visited, Ghost((bbs@.len() + 1) as nat))
}

/// With nothing visited, every block is unvisited.
proof fn lemma_unvisited_all(v: Seq<bool>)
    requires
        forall|j: int| 0 <= j < v.len() ==> !v[j],
    ensures
        unvisited(v) == v.len(),
    decreases v.len(),
{
    if v.len() > 0 {
        lemma_unvisited_all(v.drop_last());
    }
}

// ---------------------------------------------------------------------
// What the walk reports
// ---------------------------------------------------------------------

/// Whether `r` is the destination and span of the call that ends one of the
/// blocks `ops`.
pub open spec fn watched_call(bbs: Seq<BasicBlock>, ops: Seq<usize>, r: (Place, Span)) -> bool {
    exists|b: usize|
        #[trigger] ops.contains(b) && b < bbs.len() && match bbs[b as int].terminator {
            Some(Terminator::Call { destination, fn_span, .. }) => destination == r.0 && fn_span
                == r.1,
            _ => false,
        }
}

/// A block that occurs in `s` is one of its elements.
pub proof fn lemma_occurrences_contains(s: Seq<usize>, x: usize)
    ensures
        occurrences(s, x) > 0 ==> s.contains(x),
    decreases s.len(),
{
    if s.len() > 0 {
        lemma_occurrences_contains(s.drop_last(), x);
        if occurrences(s.drop_last(), x) > 0 {
            let k = choose|k: int| 0 <= k < s.drop_last().len() && s.drop_last()[k] == x;
            assert(s[k] == x);
        } else if s.last() == x {
            assert(s[s.len() - 1] == x);
        }
    }
}

/// Law: below a branch on a value derived from the caller nothing is
/// reported: the walk from any block, once checked, reports no call.
pub proof fn lemma_checked_walk_reports_nothing(
    bbs: Seq<BasicBlock>,
    callers: Seq<usize>,
    ops: Seq<usize>,
    fuel: nat,
    bb: usize,
    t: Set<Place>,
    vis: Seq<bool>,
)
    ensures
        guard_walk(bbs, callers, ops, fuel, bb, true, t, vis).0 == Seq::<(Place, Span)>::empty(),
    decreases fuel, 0nat, 0nat,
{
    if !(fuel == 0 || bb >= vis.len() || bb >= bbs.len() || vis[bb as int]) {
        let vis1 = vis.update(bb as int, true);
        match bbs[bb as int].terminator {
            None => {},
            Some(term) => {
                let t1 = taint_statements(bbs[bb as int].statements@, t);
                match term {
                    Terminator::SwitchInt { discr, targets } => {
                        lemma_checked_targets_report_nothing(bbs, callers, ops, (fuel - 1) as nat, targets@, 0, t1, vis1);
                    },
                    Terminator::Call { args, destination, target, .. } => {
                        let t2 = taint_args(args@, t1, destination);
                        let t3 = if callers.contains(bb) {
                            t2.insert(destination)
                        } else {
                            t2
                        };
                        match target {
                            Some(b) => {
                                lemma_checked_walk_reports_nothing(bbs, callers, ops, (fuel - 1) as nat, b, t3, vis1);
                                assert(Seq::<(Place, Span)>::empty() + Seq::<(Place, Span)>::empty() =~= Seq::<(Place, Span)>::empty());
                            },
                            None => {},
                        }
                    },
                    Terminator::Goto { target } => lemma_checked_walk_reports_nothing(bbs, callers, ops, (fuel - 1) as nat, target, t1, vis1),
                    Terminator::Assert { target } => lemma_checked_walk_reports_nothing(bbs, callers, ops, (fuel - 1) as nat, target, t1, vis1),
                    Terminator::Drop { target } => lemma_checked_walk_reports_nothing(bbs, callers, ops, (fuel - 1) as nat, target, t1, vis1),
                    Terminator::Yield { resume } => lemma_checked_walk_reports_nothing(bbs, callers, ops, (fuel - 1) as nat, resume, t1, vis1),
                    Terminator::FalseEdge { real_target } => lemma_checked_walk_reports_nothing(bbs, callers, ops, (fuel - 1) as nat, real_target, t1, vis1),
                    Terminator::FalseUnwind { real_target } => lemma_checked_walk_reports_nothing(bbs, callers, ops, (fuel - 1) as nat, real_target, t1, vis1),
                    Terminator::InlineAsm { destination } => match destination {
                        Some(b) => lemma_checked_walk_reports_nothing(bbs, callers, ops, (fuel - 1) as nat, b, t1, vis1),
                        None => {},
                    },
                    Terminator::Exit => {},
                }
            },
        }
    }
}

/// The walks from the targets of a checked branch report nothing.
pub proof fn lemma_checked_targets_report_nothing(
    bbs: Seq<BasicBlock>,
    callers: Seq<usize>,
    ops: Seq<usize>,
    fuel: nat,
    targets: Seq<usize>,
    i: nat,
    t: Set<Place>,
    vis: Seq<bool>,
)
    ensures
        guard_walk_targets(bbs, callers, ops, fuel, targets, i, true, t, vis).0 == Seq::<
            (Place, Span),
        >::empty(),
    decreases fuel, 1nat, targets.len() - i,
{
    if i < targets.len() {
        let r = guard_walk(bbs, callers, ops, fuel, targets[i as int], true, t, vis);
        lemma_checked_walk_reports_nothing(bbs, callers, ops, fuel, targets[i as int], t, vis);
        lemma_checked_targets_report_nothing(bbs, callers, ops, fuel, targets, i + 1, r.1, r.2);
        assert(Seq::<(Place, Span)>::empty() + Seq::<(Place, Span)>::empty() =~= Seq::<(Place, Span)>::empty());
    }
}

/// The reports that a watched call makes are watched calls.
pub proof fn lemma_here_watched(bbs: Seq<BasicBlock>, ops: Seq<usize>, bb: usize, destination: Place, fn_span: Span)
    requires
        bb < bbs.len(),
        bbs[bb as int].terminator matches Some(Terminator::Call { destination: d, fn_span: f, .. })
            && d == destination && f == fn_span,
    ensures
        forall|k: int|
            0 <= k < repeat((destination, fn_span), occurrences(ops, bb)).len() ==> watched_call(
                bbs,
                ops,
                #[trigger] repeat((destination, fn_span), occurrences(ops, bb))[k],
            ),
{
    lemma_occurrences_contains(ops, bb);
    assert forall|k: int|
        0 <= k < repeat((destination, fn_span), occurrences(ops, bb)).len() implies watched_call(
        bbs,
        ops,
        #[trigger] repeat((destination, fn_span), occurrences(ops, bb))[k],
    ) by {
        assert(ops.contains(bb));
    }
}

/// Whether every report of `s` is a watched call.
pub open spec fn all_watched(bbs: Seq<BasicBlock>, ops: Seq<usize>, s: Seq<(Place, Span)>) -> bool {
    forall|k: int| 0 <= k < s.len() ==> watched_call(bbs, ops, #[trigger] s[k])
}

/// Two lists of watched calls joined are watched calls.
pub proof fn lemma_all_watched_join(bbs: Seq<BasicBlock>, ops: Seq<usize>, a: Seq<(Place, Span)>, b: Seq<(Place, Span)>)
    requires
        all_watched(bbs, ops, a),
        all_watched(bbs, ops, b),
    ensures
        all_watched(bbs, ops, a + b),
{
    assert forall|k: int| 0 <= k < (a + b).len() implies watched_call(bbs, ops, #[trigger] (a + b)[k]) by {
        if k < a.len() {
            assert((a + b)[k] == a[k]);
        } else {
            assert((a + b)[k] == b[k - a.len()]);
        }
    }
}

/// The walk from a block reports only watched calls.
proof fn lemma_walk_watched(
    bbs: Seq<BasicBlock>,
    callers: Seq<usize>,
    ops: Seq<usize>,
    fuel: nat,
    bb: usize,
    after: bool,
    t: Set<Place>,
    vis: Seq<bool>,
)
    ensures
        all_watched(bbs, ops, guard_walk(bbs, callers, ops, fuel, bb, after, t, vis).0),
    decreases fuel, 0nat, 0nat,
{
    if !(fuel == 0 || bb >= vis.len() || bb >= bbs.len() || vis[bb as int]) {
        let vis1 = vis.update(bb as int, true);
        match bbs[bb as int].terminator {
            None => {},
            Some(term) => {
                let t1 = taint_statements(bbs[bb as int].statements@, t);
                match term {
                    Terminator::SwitchInt { discr, targets } => {
                        let checked = match discr.place_spec() {
                            Some(p) => t1.contains(p) || after,
                            None => after,
                        };
                        lemma_targets_watched(bbs, callers, ops, (fuel - 1) as nat, targets@, 0, checked, t1, vis1);
                    },
                    Terminator::Call { args, destination, target, fn_span, .. } => {
                        let t2 = taint_args(args@, t1, destination);
                        let t3 = if callers.contains(bb) {
                            t2.insert(destination)
                        } else {
                            t2
                        };
                        lemma_here_watched(bbs, ops, bb, destination, fn_span);
                        let here = if !after && second_arg_untainted(args@, t3) {
                            repeat((destination, fn_span), occurrences(ops, bb))
                        } else {
                            Seq::empty()
                        };
                        assert(all_watched(bbs, ops, here));
                        match target {
                            Some(b) => {
                                lemma_walk_watched(bbs, callers, ops, (fuel - 1) as nat, b, after, t3, vis1);
                                let r = guard_walk(bbs, callers, ops, (fuel - 1) as nat, b, after, t3, vis1);
                                lemma_all_watched_join(bbs, ops, here, r.0);
                            },
                            None => {},
                        }
                    },
                    Terminator::Goto { target } => lemma_walk_watched(bbs, callers, ops, (fuel - 1) as nat, target, after, t1, vis1),
                    Terminator::Assert { target } => lemma_walk_watched(bbs, callers, ops, (fuel - 1) as nat, target, after, t1, vis1),
                    Terminator::Drop { target } => lemma_walk_watched(bbs, callers, ops, (fuel - 1) as nat, target, after, t1, vis1),
                    Terminator::Yield { resume } => lemma_walk_watched(bbs, callers, ops, (fuel - 1) as nat, resume, after, t1, vis1),
                    Terminator::FalseEdge { real_target } => lemma_walk_watched(bbs, callers, ops, (fuel - 1) as nat, real_target, after, t1, vis1),
                    Terminator::FalseUnwind { real_target } => lemma_walk_watched(bbs, callers, ops, (fuel - 1) as nat, real_target, after, t1, vis1),
                    Terminator::InlineAsm { destination } => match destination {
                        Some(b) => lemma_walk_watched(bbs, callers, ops, (fuel - 1) as nat, b, after, t1, vis1),
                        None => {},
                    },
                    Terminator::Exit => {},
                }
            },
        }
    }
}

/// The walks from targets report only watched calls.
proof fn lemma_targets_watched(
    bbs: Seq<BasicBlock>,
    callers: Seq<usize>,
    ops: Seq<usize>,
    fuel: nat,
    targets: Seq<usize>,
    i: nat,
    after: bool,
    t: Set<Place>,
    vis: Seq<bool>,
)
    ensures
        all_watched(bbs, ops, guard_walk_targets(bbs, callers, ops, fuel, targets, i, after, t, vis).0),
    decreases fuel, 1nat, targets.len() - i,
{
    if i < targets.len() {
        let r = guard_walk(bbs, callers, ops, fuel, targets[i as int], after, t, vis);
        let rest = guard_walk_targets(bbs, callers, ops, fuel, targets, i + 1, after, r.1, r.2);
        lemma_walk_watched(bbs, callers, ops, fuel, targets[i as int], after, t, vis);
        lemma_targets_watched(bbs, callers, ops, fuel, targets, i + 1, after, r.1, r.2);
        lemma_all_watched_join(bbs, ops, r.0, rest.0);
    }
}

/// Law: every call that the unchecked-call detectors report is a watched
/// call, with its own destination and span.
pub proof fn lemma_unguarded_calls_are_watched(bbs: Seq<BasicBlock>, callers: Seq<usize>, ops: Seq<usize>)
    ensures
        forall|k: int|
            0 <= k < unguarded_calls(bbs, callers, ops).len() ==> watched_call(
                bbs,
                ops,
                #[trigger] unguarded_calls(bbs, callers, ops)[k],
            ),
{
    lemma_walk_watched(
        bbs,
        callers,
        ops,
        (bbs.len() + 1) as nat,
        0,
        false,
        Set::empty(),
        Seq::new(bbs.len(), |_i: int| false),
    );
}

} // verus!
