//! Detecting `terminate_contract` calls that run without a check of the
//! caller.
//!
//! Unlike the walk of `guard`, this one does not remember visited blocks: it
//! follows every path from the first block, the taint shared along the way.
//! It therefore ends only where no cycle of the control flow is reachable,
//! and its contract asks for that.
use crate::guard::{all_watched, lemma_all_watched_join, lemma_here_watched, occurrences, repeat, taint_args, watched_call};
use crate::mir::{
    called_fn, called_fn_of, contains_place, lemma_place_set_push, place_set, successors,
    taint_statements, taint_through_statements, well_formed, BasicBlock, Operand, Place, Span,
    Terminator,
};
use crate::env_calls::{env_call_def, last_env_call_def};
use crate::hir::{Expr, walk_nodes};
use vstd::prelude::*;

verus! {

// ---------------------------------------------------------------------
// Specifications
// ---------------------------------------------------------------------

/// `region` is closed under the control flow of `bbs` and every edge inside
/// it goes to a block of lower `rank`.
pub open spec fn ranked_region(bbs: Seq<BasicBlock>, region: Set<usize>, rank: Seq<nat>) -> bool {
    &&& rank.len() == bbs.len()
    &&& forall|b: usize, k: int|
        region.contains(b) && b < bbs.len() && bbs[b as int].terminator is Some && 0 <= k
            < successors(bbs[b as int].terminator->0).len() ==> {
            let s = #[trigger] successors(bbs[b as int].terminator->0)[k];
            &&& region.contains(s)
            &&& s < bbs.len()
            &&& rank[s as int] < rank[b as int]
        }
}

/// No cycle of the control flow is reachable from block `start`.
pub open spec fn acyclic_from(bbs: Seq<BasicBlock>, start: usize) -> bool {
    exists|region: Set<usize>, rank: Seq<nat>| region.contains(start) && ranked_region(bbs, region, rank)
}

/// A ranking that shows `acyclic_from(bbs, start)`.
pub open spec fn ranking(bbs: Seq<BasicBlock>, start: usize) -> (Set<usize>, Seq<nat>) {
    choose|region: Set<usize>, rank: Seq<nat>| region.contains(start) && ranked_region(bbs, region, rank)
}

/// The walk from block `bb`: what it reports and the taint it leaves.
pub open spec fn terminate_walk(
    bbs: Seq<BasicBlock>,
    callers: Seq<usize>,
    terms: Seq<usize>,
    fuel: nat,
    bb: usize,
    after: bool,
    t: Set<Place>,
) -> (Seq<(Place, Span)>, Set<Place>)
    decreases fuel, 0nat, 0nat,
{
    if fuel == 0 || bb >= bbs.len() {
        (Seq::empty(), t)
    } else {
        match bbs[bb as int].terminator {
            None => (Seq::empty(), t),
            Some(term) => {
                let t1 = taint_statements(bbs[bb as int].statements@, t);
                match term {
                    Terminator::SwitchInt { discr, targets } => {
                        let checked = match discr.place_spec() {
                            Some(p) => t1.contains(p) || after,
                            None => after,
                        };
                        terminate_walk_targets(bbs, callers, terms, (fuel - 1) as nat, targets@, 0, checked, t1)
                    },
                    Terminator::Call { args, destination, target, fn_span, .. } => {
                        let t2 = taint_args(args@, t1, destination);
                        let t3 = if callers.contains(bb) {
                            t2.insert(destination)
                        } else {
                            t2
                        };
                        let here = if !after {
                            repeat((destination, fn_span), occurrences(terms, bb))
                        } else {
                            Seq::empty()
                        };
                        match target {
                            Some(b) => {
                                let r = terminate_walk(bbs, callers, terms, (fuel - 1) as nat, b, after, t3);
                                (here + r.0, r.1)
                            },
                            None => (here, t3),
                        }
                    },
                    Terminator::Goto { target } => terminate_walk(bbs, callers, terms, (fuel - 1) as nat, target, after, t1),
                    Terminator::Assert { target } => terminate_walk(bbs, callers, terms, (fuel - 1) as nat, target, after, t1),
                    Terminator::Drop { target } => terminate_walk(bbs, callers, terms, (fuel - 1) as nat, target, after, t1),
                    Terminator::Yield { resume } => terminate_walk(bbs, callers, terms, (fuel - 1) as nat, resume, after, t1),
                    Terminator::FalseEdge { real_target } => terminate_walk(bbs, callers, terms, (fuel - 1) as nat, real_target, after, t1),
                    Terminator::FalseUnwind { real_target } => terminate_walk(bbs, callers, terms, (fuel - 1) as nat, real_target, after, t1),
                    Terminator::InlineAsm { destination } => match destination {
                        Some(b) => terminate_walk(bbs, callers, terms, (fuel - 1) as nat, b, after, t1),
                        None => (Seq::empty(), t1),
                    },
                    Terminator::Exit => (Seq::empty(), t1),
                }
            },
        }
    }
}

/// The walks from `targets[i..]` in turn, the taint passed along.
pub open spec fn terminate_walk_targets(
    bbs: Seq<BasicBlock>,
    callers: Seq<usize>,
    terms: Seq<usize>,
    fuel: nat,
    targets: Seq<usize>,
    i: nat,
    after: bool,
    t: Set<Place>,
) -> (Seq<(Place, Span)>, Set<Place>)
    decreases fuel, 1nat, targets.len() - i,
{
    if i >= targets.len() {
        (Seq::empty(), t)
    } else {
        let r = terminate_walk(bbs, callers, terms, fuel, targets[i as int], after, t);
        let rest = terminate_walk_targets(bbs, callers, terms, fuel, targets, i + 1, after, r.1);
        (r.0 + rest.0, rest.1)
    }
}

/// The terminations that the walk from the first block reaches unchecked.
pub open spec fn unchecked_terminations(bbs: Seq<BasicBlock>, callers: Seq<usize>, terms: Seq<usize>) -> Seq<
    (Place, Span),
> {
    let rank = ranking(bbs, 0).1;
    terminate_walk(bbs, callers, terms, rank[0] + 1, 0, false, Set::empty()).0
}

/// The blocks that call the caller query and those that call
/// `terminate_contract`, in block order.
pub open spec fn terminate_call_blocks(bbs: Seq<BasicBlock>, caller: Option<u64>, terminate: Option<u64>) -> (
    Seq<usize>,
    Seq<usize>,
)
    decreases bbs.len(),
{
    if bbs.len() == 0 {
        (Seq::empty(), Seq::empty())
    } else {
        let prev = terminate_call_blocks(bbs.drop_last(), caller, terminate);
        let b = (bbs.len() - 1) as usize;
        match called_fn(bbs.last().terminator) {
            Some(f) => if caller == Some(f) {
                (prev.0.push(b), prev.1)
            } else if terminate == Some(f) {
                (prev.0, prev.1.push(b))
            } else {
                prev
            },
            None => prev,
        }
    }
}

/// The span of the call that ends a block (a default span for other blocks).
pub open spec fn call_span(bb: BasicBlock) -> Span {
    match bb.terminator {
        Some(Terminator::Call { fn_span, .. }) => fn_span,
        _ => Span { lo: 0, hi: 0 },
    }
}

/// What the detector reports: with a `terminate_contract` call but no caller
/// query, every such call; with both, those reached unchecked.
pub open spec fn self_destruct_spans(bbs: Seq<BasicBlock>, caller: Option<u64>, terminate: Option<u64>) -> Seq<Span> {
    let blocks = terminate_call_blocks(bbs, caller, terminate);
    if blocks.1.len() == 0 {
        Seq::empty()
    } else if blocks.0.len() == 0 {
        blocks.1.map_values(|b: usize| call_span(bbs[b as int]))
    } else {
        unchecked_terminations(bbs, blocks.0, blocks.1).map_values(|x: (Place, Span)| x.1)
    }
}

// ---------------------------------------------------------------------
// Executable functions
// ---------------------------------------------------------------------

/// Taints `dest` when some argument reads a tainted place.
fn taint_args_exec(args: &Vec<Operand>, dest: Place, tainted: &mut Vec<Place>)
    ensures
        place_set(final(tainted)@) == taint_args(args@, place_set(old(tainted)@), dest),
{
    crate::guard::taint_call_args(args, dest, tainted)
}

/// The walk from block `bb` (see `terminate_walk`).
fn walk(
    bbs: &Vec<BasicBlock>,
    callers: &Vec<usize>,
    terms: &Vec<usize>,
    bb: usize,
    after: bool,
    tainted: &mut Vec<Place>,
    Ghost(region): Ghost<Set<usize>>,
    Ghost(rank): Ghost<Seq<nat>>,
    Ghost(fuel): Ghost<nat>,
) -> (r: Vec<(Place, Span)>)
    requires
        well_formed(bbs@),
        ranked_region(bbs@, region, rank),
        region.contains(bb),
        bb < bbs@.len(),
        fuel > rank[bb as int],
    ensures
        (r@, place_set(final(tainted)@)) == terminate_walk(
            bbs@,
            callers@,
            terms@,
            fuel,
            bb,
            after,
            place_set(old(tainted)@),
        ),
    decreases rank[bb as int],
{
    let ghost t0 = place_set(tainted@);
    let mut ret: Vec<(Place, Span)> = Vec::new();
    let block = &bbs[bb];
    let term = match &block.terminator {
        None => {
            return ret;
        },
        Some(term) => term,
    };
    taint_through_statements(&block.statements, tainted);
    proof {
        assert(forall|k: int|
            0 <= k < successors(*term).len() ==> {
                let s = #[trigger] successors(*term)[k];
                &&& region.contains(s)
                &&& s < bbs@.len()
                &&& rank[s as int] < rank[bb as int]
            });
    }
    match term {
        Terminator::SwitchInt { discr, targets } => {
            let checked = match discr.place() {
                Some(p) => contains_place(tainted, &p) || after,
                None => after,
            };
            let ghost fuel1 = (fuel - 1) as nat;
            let mut i: usize = 0;
            while i < targets.len()
                invariant
                    well_formed(bbs@),
                    ranked_region(bbs@, region, rank),
                    0 <= i <= targets@.len(),
                    forall|k: int|
                        0 <= k < targets@.len() ==> {
                            &&& region.contains(#[trigger] targets@[k])
                            &&& targets@[k] < bbs@.len()
                            &&& rank[targets@[k] as int] < rank[bb as int]
                        },
                    fuel1 >= rank[bb as int],
                    terminate_walk_targets(bbs@, callers@, terms@, fuel1, targets@, 0, checked, taint_statements(block.statements@, t0))
                        == ({
                        let rest = terminate_walk_targets(bbs@, callers@, terms@, fuel1, targets@, i as nat, checked, place_set(tainted@));
                        (ret@ + rest.0, rest.1)
                    }),
                decreases targets@.len() - i,
            {
                let ghost before_ret = ret@;
                let ghost before_t = place_set(tainted@);
                let mut sub = walk(
                    bbs,
                    callers,
                    terms,
                    targets[i],
                    checked,
                    tainted,
                    Ghost(region),
                    Ghost(rank),
                    Ghost(fuel1),
                );
                ret.append(&mut sub);
                proof {
                    let r = terminate_walk(bbs@, callers@, terms@, fuel1, targets@[i as int], checked, before_t);
                    let rest = terminate_walk_targets(bbs@, callers@, terms@, fuel1, targets@, (i + 1) as nat, checked, r.1);
                    assert(before_ret + (r.0 + rest.0) =~= ret@ + rest.0);
                }
                i = i + 1;
            }
            assert(ret@ + Seq::<(Place, Span)>::empty() =~= ret@);
            ret
        },
        Terminator::Call { args, destination, target, fn_span, .. } => {
            taint_args_exec(args, *destination, tainted);
            if crate::guard::contains_index(callers, bb) {
                proof {
                    lemma_place_set_push(tainted@, *destination);
                }
                tainted.push(*destination);
            }
            if !after {
                crate::guard::push_reports(&mut ret, terms, bb, *destination, *fn_span);
            }
            assert(ret@ =~= (if !after {
                repeat((*destination, *fn_span), occurrences(terms@, bb))
            } else {
                Seq::empty()
            }));
            match target {
                Some(b) => {
                    assert(successors(*term)[0] == *b);
                    let mut sub = walk(bbs, callers, terms, *b, after, tainted, Ghost(region), Ghost(rank), Ghost((fuel - 1) as nat));
                    ret.append(&mut sub);
                    ret
                },
                None => ret,
            }
        },
        Terminator::Goto { target } => {
            assert(successors(*term)[0] == *target);
            walk(bbs, callers, terms, *target, after, tainted, Ghost(region), Ghost(rank), Ghost((fuel - 1) as nat))
        },
        Terminator::Assert { target } => {
            assert(successors(*term)[0] == *target);
            walk(bbs, callers, terms, *target, after, tainted, Ghost(region), Ghost(rank), Ghost((fuel - 1) as nat))
        },
        Terminator::Drop { target } => {
            assert(successors(*term)[0] == *target);
            walk(bbs, callers, terms, *target, after, tainted, Ghost(region), Ghost(rank), Ghost((fuel - 1) as nat))
        },
        Terminator::Yield { resume } => {
            assert(successors(*term)[0] == *resume);
            walk(bbs, callers, terms, *resume, after, tainted, Ghost(region), Ghost(rank), Ghost((fuel - 1) as nat))
        },
        Terminator::FalseEdge { real_target } => {
            assert(successors(*term)[0] == *real_target);
            walk(bbs, callers, terms, *real_target, after, tainted, Ghost(region), Ghost(rank), Ghost((fuel - 1) as nat))
        },
        Terminator::FalseUnwind { real_target } => {
            assert(successors(*term)[0] == *real_target);
            walk(bbs, callers, terms, *real_target, after, tainted, Ghost(region), Ghost(rank), Ghost((fuel - 1) as nat))
        },
        Terminator::InlineAsm { destination } => match destination {
            Some(b) => {
                assert(successors(*term)[0] == *b);
                walk(bbs, callers, terms, *b, after, tainted, Ghost(region), Ghost(rank), Ghost((fuel - 1) as nat))
            },
            None => ret,
        },
        Terminator::Exit => ret,
    }
}

/// The walk from the first block (see `unchecked_terminations`).
pub fn navigate_terminations(bbs: &Vec<BasicBlock>, callers: &Vec<usize>, terms: &Vec<usize>) -> (r: Vec<
    (Place, Span),
>)
    requires
        well_formed(bbs@),
        bbs@.len() > 0,
        acyclic_from(bbs@, 0),
    ensures
        r@ == unchecked_terminations(bbs@, callers@, terms@),
{
    let ghost pair = ranking(bbs@, 0);
    let mut tainted: Vec<Place> = Vec::new();
    assert(place_set(tainted@) =~= Set::<Place>::empty());
    walk(bbs, callers, terms, 0, false, &mut tainted, Ghost(pair.0), Ghost(pair.1), Ghost(pair.1[0] + 1))
}

/// Locates the calls to the caller query and to `terminate_contract` (see
/// `terminate_call_blocks`).
pub fn find_caller_and_terminate_in_mir(
    bbs: &Vec<BasicBlock>,
    caller_def_id: Option<u64>,
    terminate_def_id: Option<u64>,
) -> (r: (Vec<usize>, Vec<usize>))
    ensures
        (r.0@, r.1@) == terminate_call_blocks(bbs@, caller_def_id, terminate_def_id),
        forall|k: int| 0 <= k < r.1@.len() ==> #[trigger] r.1@[k] < bbs@.len(),
{
    let mut callers: Vec<usize> = Vec::new();
    let mut terms: Vec<usize> = Vec::new();
    let mut i: usize = 0;
    while i < bbs.len()
        invariant
            0 <= i <= bbs@.len(),
            (callers@, terms@) == terminate_call_blocks(bbs@.take(i as int), caller_def_id, terminate_def_id),
            forall|k: int| 0 <= k < terms@.len() ==> #[trigger] terms@[k] < i,
        decreases bbs@.len() - i,
    {
        assert(bbs@.take(i + 1).drop_last() =~= bbs@.take(i as int));
        assert(bbs@.take(i + 1).last() == bbs@[i as int]);
        match called_fn_of(&bbs[i].terminator) {
            Some(f) => {
                if caller_def_id == Some(f) {
                    callers.push(i);
                } else if terminate_def_id == Some(f) {
                    terms.push(i);
                }
            },
            None => {},
        }
        i = i + 1;
    }
    assert(bbs@.take(bbs@.len() as int) =~= bbs@);
    (callers, terms)
}

/// Detects `terminate_contract` calls that run without a check of the
/// caller.
pub struct UnprotectedSelfDestruct {}

impl UnprotectedSelfDestruct {
    /// The detector.
    pub fn new() -> (r: Self) {
        UnprotectedSelfDestruct {  }
    }

    /// The functions that the body `body` calls as `self.env().caller()` and
    /// `self.env().terminate_contract()`, each by its last such call in walk
    /// order, as `resolved` (node id, function) resolves it: the caller query
    /// and the termination whose calls the MIR walk looks for.
    pub fn find_defs(&self, body: &Expr, resolved: &Vec<(u64, u64)>) -> (r: (Option<u64>, Option<u64>))
        ensures
            r.0 == last_env_call_def(walk_nodes(*body), "caller"@, resolved@),
            r.1 == last_env_call_def(walk_nodes(*body), "terminate_contract"@, resolved@),
    {
        let caller = env_call_def(body, "caller", resolved);
        let terminate = env_call_def(body, "terminate_contract", resolved);
        (caller, terminate)
    }

    /// The spans of the `terminate_contract` calls (given by their function
    /// number) that run before any check of the value that `caller()`
    /// returned; when the function never asks for the caller, every such call.
    pub fn unprotected_terminations(
        &self,
        bbs: &Vec<BasicBlock>,
        caller_def_id: Option<u64>,
        terminate_def_id: Option<u64>,
    ) -> (s: Vec<Span>)
        requires
            well_formed(bbs@),
            terminate_call_blocks(bbs@, caller_def_id, terminate_def_id).0.len() > 0
                && terminate_call_blocks(bbs@, caller_def_id, terminate_def_id).1.len() > 0
                ==> acyclic_from(bbs@, 0),
        ensures
            s@ == self_destruct_spans(bbs@, caller_def_id, terminate_def_id),
    {
        let (callers, terms) = find_caller_and_terminate_in_mir(bbs, caller_def_id, terminate_def_id);
        let mut s: Vec<Span> = Vec::new();
        if terms.len() == 0 {
            return s;
        }
        if callers.len() == 0 {
            let mut i: usize = 0;
            while i < terms.len()
                invariant
                    0 <= i <= terms@.len(),
                    forall|k: int| 0 <= k < terms@.len() ==> #[trigger] terms@[k] < bbs@.len(),
                    s@ == terms@.take(i as int).map_values(|b: usize| call_span(bbs@[b as int])),
                decreases terms@.len() - i,
            {
                let span = match &bbs[terms[i]].terminator {
                    Some(Terminator::Call { fn_span, .. }) => *fn_span,
                    _ => Span { lo: 0, hi: 0 },
                };
                s.push(span);
                i = i + 1;
                assert(s@ =~= terms@.take(i as int).map_values(|b: usize| call_span(bbs@[b as int])));
            }
            assert(terms@.take(terms@.len() as int) =~= terms@);
            return s;
        }
        let r = navigate_terminations(bbs, &callers, &terms);
        let mut i: usize = 0;
        while i < r.len()
            invariant
                0 <= i <= r@.len(),
                s@ == r@.take(i as int).map_values(|x: (Place, Span)| x.1),
            decreases r@.len() - i,
        {
            s.push(r[i].1);
            i = i + 1;
            assert(s@ =~= r@.take(i as int).map_values(|x: (Place, Span)| x.1));
        }
        assert(r@.take(r@.len() as int) =~= r@);
        s
    }
}

// ---------------------------------------------------------------------
// What the walk reports
// ---------------------------------------------------------------------

/// The walk from a block reports only `terminate_contract` calls, each
/// with its own destination and span.
proof fn lemma_terminate_walk_watched(
    bbs: Seq<BasicBlock>,
    callers: Seq<usize>,
    terms: Seq<usize>,
    fuel: nat,
    bb: usize,
    after: bool,
    t: Set<Place>,
)
    ensures
        all_watched(bbs, terms, terminate_walk(bbs, callers, terms, fuel, bb, after, t).0),
        after ==> terminate_walk(bbs, callers, terms, fuel, bb, after, t).0 == Seq::<(Place, Span)>::empty(),
    decreases fuel, 0nat, 0nat,
{
    if !(fuel == 0 || bb >= bbs.len()) {
        match bbs[bb as int].terminator {
            None => {},
            Some(term) => {
                let t1 = taint_statements(bbs[bb as int].statements@, t);
                match term {
                    Terminator::SwitchInt { discr, targets } => {
                        let checked = match discr.place_spec() {
                            Some(p) => t1.contains(p) || after,
                            None => after,
                        };
                        lemma_terminate_targets_watched(bbs, callers, terms, (fuel - 1) as nat, targets@, 0, checked, t1);
                    },
                    Terminator::Call { args, destination, target, fn_span, .. } => {
                        let t2 = taint_args(args@, t1, destination);
                        let t3 = if callers.contains(bb) {
                            t2.insert(destination)
                        } else {
                            t2
                        };
                        lemma_here_watched(bbs, terms, bb, destination, fn_span);
                        let here = if !after {
                            repeat((destination, fn_span), occurrences(terms, bb))
                        } else {
                            Seq::empty()
                        };
                        assert(all_watched(bbs, terms, here));
                        match target {
                            Some(b) => {
                                lemma_terminate_walk_watched(bbs, callers, terms, (fuel - 1) as nat, b, after, t3);
                                let r = terminate_walk(bbs, callers, terms, (fuel - 1) as nat, b, after, t3);
                                lemma_all_watched_join(bbs, terms, here, r.0);
                                if after {
                                    assert(here + r.0 =~= Seq::<(Place, Span)>::empty());
                                }
                            },
                            None => {},
                        }
                    },
                    Terminator::Goto { target } => lemma_terminate_walk_watched(bbs, callers, terms, (fuel - 1) as nat, target, after, t1),
                    Terminator::Assert { target } => lemma_terminate_walk_watched(bbs, callers, terms, (fuel - 1) as nat, target, after, t1),
                    Terminator::Drop { target } => lemma_terminate_walk_watched(bbs, callers, terms, (fuel - 1) as nat, target, after, t1),
                    Terminator::Yield { resume } => lemma_terminate_walk_watched(bbs, callers, terms, (fuel - 1) as nat, resume, after, t1),
                    Terminator::FalseEdge { real_target } => lemma_terminate_walk_watched(bbs, callers, terms, (fuel - 1) as nat, real_target, after, t1),
                    Terminator::FalseUnwind { real_target } => lemma_terminate_walk_watched(bbs, callers, terms, (fuel - 1) as nat, real_target, after, t1),
                    Terminator::InlineAsm { destination } => match destination {
                        Some(b) => lemma_terminate_walk_watched(bbs, callers, terms, (fuel - 1) as nat, b, after, t1),
                        None => {},
                    },
                    Terminator::Exit => {},
                }
            },
        }
    }
}

proof fn lemma_terminate_targets_watched(
    bbs: Seq<BasicBlock>,
    callers: Seq<usize>,
    terms: Seq<usize>,
    fuel: nat,
    targets: Seq<usize>,
    i: nat,
    after: bool,
    t: Set<Place>,
)
    ensures
        all_watched(bbs, terms, terminate_walk_targets(bbs, callers, terms, fuel, targets, i, after, t).0),
        after ==> terminate_walk_targets(bbs, callers, terms, fuel, targets, i, after, t).0 == Seq::<
            (Place, Span),
        >::empty(),
    decreases fuel, 1nat, targets.len() - i,
{
    if i < targets.len() {
        let r = terminate_walk(bbs, callers, terms, fuel, targets[i as int], after, t);
        let rest = terminate_walk_targets(bbs, callers, terms, fuel, targets, i + 1, after, r.1);
        lemma_terminate_walk_watched(bbs, callers, terms, fuel, targets[i as int], after, t);
        lemma_terminate_targets_watched(bbs, callers, terms, fuel, targets, i + 1, after, r.1);
        lemma_all_watched_join(bbs, terms, r.0, rest.0);
        if after {
            assert(r.0 + rest.0 =~= Seq::<(Place, Span)>::empty());
        }
    }
}

/// Law: below a branch on a value derived from the caller no
/// `terminate_contract` call is reported, and every call that the walk
/// reports is a `terminate_contract` call, with its own destination and
/// span.
pub proof fn lemma_terminations_reported_are_unchecked_calls(
    bbs: Seq<BasicBlock>,
    callers: Seq<usize>,
    terms: Seq<usize>,
    fuel: nat,
    bb: usize,
    after: bool,
    t: Set<Place>,
)
    ensures
        forall|k: int|
            0 <= k < terminate_walk(bbs, callers, terms, fuel, bb, after, t).0.len() ==> watched_call(
                bbs,
                terms,
                #[trigger] terminate_walk(bbs, callers, terms, fuel, bb, after, t).0[k],
            ),
        after ==> terminate_walk(bbs, callers, terms, fuel, bb, after, t).0 == Seq::<(Place, Span)>::empty(),
{
    lemma_terminate_walk_watched(bbs, callers, terms, fuel, bb, after, t);
}

} // verus!
