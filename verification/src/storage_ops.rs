//! Two detectors that look for watched calls made without checking the
//! caller: storage mapping operations keyed by account (`insert`, `remove`,
//! `take`) and pushes onto a vector.
//!
//! The front end of each detector (a walk over the HIR that finds which
//! functions are the caller query and the watched operations) gives the
//! function numbers: each detector's `find_defs`, over the HIR model with
//! the compiler's resolutions and, for the mapping detector, the receivers'
//! types, for the vector detector, the called functions' printed paths. The part
//! here then locates those calls in the MIR and runs the unchecked-call walk
//! of `guard`.
use crate::env_calls::{
    is_self_env_call, is_typed_as, last_def_where, resolved_def, resolved_def_of, self_env_call,
    typed_as,
};
use crate::guard::{find_unguarded_calls, repeat, unguarded_calls};
use crate::hir::{Expr, ExprKind, QPath, walk_nodes};
use crate::span_probes::walk_node_refs;
use crate::text::text_eq;
use crate::mir::{called_fn, called_fn_of, well_formed, BasicBlock, Place, Span};
use vstd::prelude::*;

verus! {

// ---------------------------------------------------------------------
// Specifications
// ---------------------------------------------------------------------

/// How many entries of `ops` are `Some(f)`.
pub open spec fn count_some(ops: Seq<Option<u64>>, f: u64) -> nat
    decreases ops.len(),
{
    if ops.len() == 0 {
        0
    } else {
        count_some(ops.drop_last(), f) + if ops.last() == Some(f) {
            1nat
        } else {
            0nat
        }
    }
}

/// How many entries of `defs` are `f`.
pub open spec fn count_def(defs: Seq<u64>, f: u64) -> nat
    decreases defs.len(),
{
    if defs.len() == 0 {
        0
    } else {
        count_def(defs.drop_last(), f) + if defs.last() == f {
            1nat
        } else {
            0nat
        }
    }
}

/// The blocks that call the caller query and the blocks that call a watched
/// mapping operation (once per watched entry that names the callee), in
/// block order. A block that calls the caller query is not also a watched one.
pub open spec fn mapping_call_blocks(bbs: Seq<BasicBlock>, caller: Option<u64>, map_ops: Seq<Option<u64>>) -> (
    Seq<usize>,
    Seq<usize>,
)
    decreases bbs.len(),
{
    if bbs.len() == 0 {
        (Seq::empty(), Seq::empty())
    } else {
        let prev = mapping_call_blocks(bbs.drop_last(), caller, map_ops);
        let b = (bbs.len() - 1) as usize;
        match called_fn(bbs.last().terminator) {
            Some(f) => if caller == Some(f) {
                (prev.0.push(b), prev.1)
            } else {
                (prev.0, prev.1 + repeat(b, count_some(map_ops, f)))
            },
            None => prev,
        }
    }
}

/// The blocks that call one of the caller queries (once per query that names
/// the callee) and the blocks that call the push; a push is looked for only
/// when there is no caller query at all.
pub open spec fn push_call_blocks(bbs: Seq<BasicBlock>, callers: Seq<u64>, push: Option<u64>) -> (
    Seq<usize>,
    Seq<usize>,
)
    decreases bbs.len(),
{
    if bbs.len() == 0 {
        (Seq::empty(), Seq::empty())
    } else {
        let prev = push_call_blocks(bbs.drop_last(), callers, push);
        let b = (bbs.len() - 1) as usize;
        match called_fn(bbs.last().terminator) {
            Some(f) => if callers.len() > 0 {
                (prev.0 + repeat(b, count_def(callers, f)), prev.1)
            } else if push == Some(f) {
                (prev.0, prev.1.push(b))
            } else {
                prev
            },
            None => prev,
        }
    }
}

/// The spans of a list of reports.
pub open spec fn report_spans(r: Seq<(Place, Span)>) -> Seq<Span> {
    r.map_values(|x: (Place, Span)| x.1)
}

/// What a detector reports once the call blocks are known: nothing without a
/// watched call, else the spans of the watched calls reached unchecked.
pub open spec fn unchecked_spans(bbs: Seq<BasicBlock>, blocks: (Seq<usize>, Seq<usize>)) -> Seq<Span> {
    if blocks.1.len() == 0 {
        Seq::empty()
    } else {
        report_spans(unguarded_calls(bbs, blocks.0, blocks.1))
    }
}

// ---------------------------------------------------------------------
// Lemmas
// ---------------------------------------------------------------------

proof fn lemma_repeat_push_index(b: usize, n: nat)
    ensures
        repeat(b, n + 1) == repeat(b, n).push(b),
{
    assert(repeat(b, n + 1) =~= repeat(b, n).push(b));
}

// ---------------------------------------------------------------------
// Executable functions
// ---------------------------------------------------------------------

/// Appends `b` once for every entry of `ops` that is `Some(f)`.
fn push_for_matching_ops(out: &mut Vec<usize>, ops: &Vec<Option<u64>>, f: u64, b: usize)
    ensures
        final(out)@ == old(out)@ + repeat(b, count_some(ops@, f)),
{
    let ghost start = out@;
    let mut i: usize = 0;
    while i < ops.len()
        invariant
            0 <= i <= ops@.len(),
            out@ == start + repeat(b, count_some(ops@.take(i as int), f)),
        decreases ops@.len() - i,
    {
        assert(ops@.take(i + 1).drop_last() =~= ops@.take(i as int));
        if ops[i] == Some(f) {
            proof {
                lemma_repeat_push_index(b, count_some(ops@.take(i as int), f));
            }
            out.push(b);
        }
        i = i + 1;
        assert(out@ =~= start + repeat(b, count_some(ops@.take(i as int), f)));
    }
    assert(ops@.take(ops@.len() as int) =~= ops@);
}

/// Appends `b` once for every entry of `defs` that is `f`.
fn push_for_matching_defs(out: &mut Vec<usize>, defs: &Vec<u64>, f: u64, b: usize)
    ensures
        final(out)@ == old(out)@ + repeat(b, count_def(defs@, f)),
{
    let ghost start = out@;
    let mut i: usize = 0;
    while i < defs.len()
        invariant
            0 <= i <= defs@.len(),
            out@ == start + repeat(b, count_def(defs@.take(i as int), f)),
        decreases defs@.len() - i,
    {
        assert(defs@.take(i + 1).drop_last() =~= defs@.take(i as int));
        if defs[i] == f {
            proof {
                lemma_repeat_push_index(b, count_def(defs@.take(i as int), f));
            }
            out.push(b);
        }
        i = i + 1;
        assert(out@ =~= start + repeat(b, count_def(defs@.take(i as int), f)));
    }
    assert(defs@.take(defs@.len() as int) =~= defs@);
}

/// Locates the calls to the caller query and to the watched mapping
/// operations (see `mapping_call_blocks`).
pub fn find_caller_and_map_ops_in_mir(
    bbs: &Vec<BasicBlock>,
    caller_def_id: Option<u64>,
    map_ops: &Vec<Option<u64>>,
) -> (r: (Vec<usize>, Vec<usize>))
    ensures
        (r.0@, r.1@) == mapping_call_blocks(bbs@, caller_def_id, map_ops@),
{
    let mut callers: Vec<usize> = Vec::new();
    let mut ops: Vec<usize> = Vec::new();
    let mut i: usize = 0;
    while i < bbs.len()
        invariant
            0 <= i <= bbs@.len(),
            (callers@, ops@) == mapping_call_blocks(bbs@.take(i as int), caller_def_id, map_ops@),
        decreases bbs@.len() - i,
    {
        assert(bbs@.take(i + 1).drop_last() =~= bbs@.take(i as int));
        assert(bbs@.take(i + 1).last() == bbs@[i as int]);
        match called_fn_of(&bbs[i].terminator) {
            Some(f) => {
                if caller_def_id == Some(f) {
                    callers.push(i);
                } else {
                    push_for_matching_ops(&mut ops, map_ops, f, i);
                }
            },
            None => {},
        }
        i = i + 1;
    }
    assert(bbs@.take(bbs@.len() as int) =~= bbs@);
    (callers, ops)
}

/// Locates the calls to the caller queries and, when there are none, to the
/// push (see `push_call_blocks`).
pub fn find_caller_and_vec_ops_in_mir(
    bbs: &Vec<BasicBlock>,
    callers_def_id: &Vec<u64>,
    push_def_id: Option<u64>,
) -> (r: (Vec<usize>, Vec<usize>))
    ensures
        (r.0@, r.1@) == push_call_blocks(bbs@, callers_def_id@, push_def_id),
{
    let mut callers: Vec<usize> = Vec::new();
    let mut ops: Vec<usize> = Vec::new();
    let mut i: usize = 0;
    while i < bbs.len()
        invariant
            0 <= i <= bbs@.len(),
            (callers@, ops@) == push_call_blocks(bbs@.take(i as int), callers_def_id@, push_def_id),
        decreases bbs@.len() - i,
    {
        assert(bbs@.take(i + 1).drop_last() =~= bbs@.take(i as int));
        assert(bbs@.take(i + 1).last() == bbs@[i as int]);
        match called_fn_of(&bbs[i].terminator) {
            Some(f) => {
                if callers_def_id.len() > 0 {
                    push_for_matching_defs(&mut callers, callers_def_id, f, i);
                } else if push_def_id == Some(f) {
                    ops.push(i);
                }
            },
            None => {},
        }
        i = i + 1;
    }
    assert(bbs@.take(bbs@.len() as int) =~= bbs@);
    (callers, ops)
}

/// The spans of a list of reports.
fn spans_of(r: &Vec<(Place, Span)>) -> (s: Vec<Span>)
    ensures
        s@ == report_spans(r@),
{
    let mut s: Vec<Span> = Vec::new();
    let mut i: usize = 0;
    while i < r.len()
        invariant
            0 <= i <= r@.len(),
            s@ == report_spans(r@.take(i as int)),
        decreases r@.len() - i,
    {
        s.push(r[i].1);
        i = i + 1;
        assert(s@ =~= report_spans(r@.take(i as int)));
    }
    assert(r@.take(r@.len() as int) =~= r@);
    s
}

/// Runs the unchecked-call walk when there is a watched call.
fn unchecked_spans_exec(bbs: &Vec<BasicBlock>, callers: &Vec<usize>, ops: &Vec<usize>) -> (s: Vec<Span>)
    requires
        well_formed(bbs@),
        ops@.len() > 0 ==> bbs@.len() > 0,
    ensures
        s@ == unchecked_spans(bbs@, (callers@, ops@)),
{
    if ops.len() == 0 {
        Vec::new()
    } else {
        let r = find_unguarded_calls(bbs, callers, ops);
        spans_of(&r)
    }
}

/// The printed type of a storage mapping keyed by account.
pub open spec fn account_mapping_type() -> Seq<char> {
    "ink::storage::Mapping<ink::ink_primitives::AccountId"@
}

/// Whether `e` is a method call named `method` on a storage mapping keyed by
/// account.
pub open spec fn mapping_method_call(e: Expr, method: Seq<char>, types: Seq<(u64, String)>) -> bool {
    e.kind matches ExprKind::MethodCall { name, receiver, .. } && name@ == method && typed_as(
        types,
        receiver.hir_id,
        account_mapping_type(),
    )
}

/// Whether `e` is the caller query `self.env().caller()` (its receiver not
/// being such a mapping).
pub open spec fn caller_query(e: Expr, types: Seq<(u64, String)>) -> bool {
    self_env_call(e, "caller"@) && !(e.kind matches ExprKind::MethodCall { receiver, .. }
        && typed_as(types, receiver.hir_id, account_mapping_type()))
}

/// Detects storage mapping operations keyed by account that run without a
/// check of the caller.
pub struct UnprotectedMappingOperation {}

impl UnprotectedMappingOperation {
    /// The detector.
    pub fn new() -> (r: Self) {
        UnprotectedMappingOperation {  }
    }

    /// The functions that the body `body` calls as the caller query and as
    /// `insert`, `remove` and `take` on a storage mapping keyed by account,
    /// each by the last such call in walk order, as `resolved` resolves it;
    /// `types` gives the printed types of the receivers.
    pub fn find_defs(&self, body: &Expr, resolved: &Vec<(u64, u64)>, types: &Vec<(u64, String)>) -> (r: (
        Option<u64>,
        Option<u64>,
        Option<u64>,
        Option<u64>,
    ))
        ensures
            r.0 == last_def_where(walk_nodes(*body), resolved@, |n: Expr| caller_query(n, types@)),
            r.1 == last_def_where(
                walk_nodes(*body),
                resolved@,
                |n: Expr| mapping_method_call(n, "insert"@, types@),
            ),
            r.2 == last_def_where(
                walk_nodes(*body),
                resolved@,
                |n: Expr| mapping_method_call(n, "remove"@, types@),
            ),
            r.3 == last_def_where(
                walk_nodes(*body),
                resolved@,
                |n: Expr| mapping_method_call(n, "take"@, types@),
            ),
    {
        let nodes = walk_node_refs(body);
        let ghost ns = walk_nodes(*body);
        let mut caller: Option<u64> = None;
        let mut insert: Option<u64> = None;
        let mut remove: Option<u64> = None;
        let mut take: Option<u64> = None;
        let mut i: usize = 0;
        assert(ns.take(0) =~= Seq::<Expr>::empty());
        while i < nodes.len()
            invariant
                0 <= i <= nodes@.len(),
                nodes@.len() == ns.len(),
                ns == walk_nodes(*body),
                forall|k: int| 0 <= k < nodes@.len() ==> *nodes@[k] == ns[k],
                caller == last_def_where(ns.take(i as int), resolved@, |n: Expr| caller_query(n, types@)),
                insert == last_def_where(
                    ns.take(i as int),
                    resolved@,
                    |n: Expr| mapping_method_call(n, "insert"@, types@),
                ),
                remove == last_def_where(
                    ns.take(i as int),
                    resolved@,
                    |n: Expr| mapping_method_call(n, "remove"@, types@),
                ),
                take == last_def_where(
                    ns.take(i as int),
                    resolved@,
                    |n: Expr| mapping_method_call(n, "take"@, types@),
                ),
            decreases nodes@.len() - i,
        {
            let n = nodes[i];
            assert(ns.take(i as int + 1).drop_last() =~= ns.take(i as int));
            assert(ns.take(i as int + 1).last() == *n);
            proof {
                reveal_strlit("insert");
                reveal_strlit("remove");
                reveal_strlit("take");
                assert("insert"@[0] != "remove"@[0]);
                assert("insert"@ != "remove"@);
                assert("insert"@.len() != "take"@.len());
                assert("remove"@.len() != "take"@.len());
            }
            if let ExprKind::MethodCall { name, receiver, .. } = &n.kind {
                let on_mapping = is_typed_as(types, receiver.hir_id, "ink::storage::Mapping<ink::ink_primitives::AccountId");
                if on_mapping {
                    if text_eq(name.as_str(), "insert") {
                        insert = resolved_def_of(resolved, n.hir_id);
                    } else if text_eq(name.as_str(), "remove") {
                        remove = resolved_def_of(resolved, n.hir_id);
                    } else if text_eq(name.as_str(), "take") {
                        take = resolved_def_of(resolved, n.hir_id);
                    }
                } else if is_self_env_call(n, "caller") {
                    caller = resolved_def_of(resolved, n.hir_id);
                }
            }
            i = i + 1;
        }
        assert(ns.take(ns.len() as int) =~= ns);
        (caller, insert, remove, take)
    }

    /// The spans of the mapping operations (`insert`, `remove` and `take`,
    /// given by their function numbers) that run before any check of the
    /// value that `caller()` returned.
    pub fn unprotected_operations(
        &self,
        bbs: &Vec<BasicBlock>,
        caller_def_id: Option<u64>,
        insert_def_id: Option<u64>,
        remove_def_id: Option<u64>,
        take_def_id: Option<u64>,
    ) -> (s: Vec<Span>)
        requires
            well_formed(bbs@),
        ensures
            s@ == unchecked_spans(
                bbs@,
                mapping_call_blocks(bbs@, caller_def_id, seq![insert_def_id, remove_def_id, take_def_id]),
            ),
    {
        let ops_ids = vec![insert_def_id, remove_def_id, take_def_id];
        assert(ops_ids@ =~= seq![insert_def_id, remove_def_id, take_def_id]);
        let (callers, ops) = find_caller_and_map_ops_in_mir(bbs, caller_def_id, &ops_ids);
        unchecked_spans_exec(bbs, &callers, &ops)
    }
}

/// The printed path of the functions of `std::vec::Vec`.
pub open spec fn vec_path() -> Seq<char> {
    "std::vec::Vec"@
}

/// Whether `e` is a call `Self::env()`.
pub open spec fn self_type_env_call(e: Expr) -> bool {
    e.kind matches ExprKind::Call { func, .. } && match func.kind {
        ExprKind::Path(QPath::TypeRelative { ty_segments: Some(segs), name }) => name@ == "env"@
            && segs@.len() > 0 && segs@[0].name@ == "Self"@,
        _ => false,
    }
}

/// Whether the method call `e`, which resolves to the function `d`, is a
/// caller query for the vector detector: `d` is no function of `Vec`, and
/// `e` is `self.env().caller()` or any method called on `Self::env()`.
pub open spec fn vec_caller_query(e: Expr, d: u64, paths: Seq<(u64, String)>) -> bool {
    &&& !typed_as(paths, d, vec_path())
    &&& (self_env_call(e, "caller"@) || (e.kind matches ExprKind::MethodCall { receiver, .. }
        && self_type_env_call(*receiver)))
}

/// Whether the method call `e`, which resolves to the function `d`, is a
/// `push` of `Vec`.
pub open spec fn vec_push_call(e: Expr, d: u64, paths: Seq<(u64, String)>) -> bool {
    typed_as(paths, d, vec_path()) && (e.kind matches ExprKind::MethodCall { name, .. } && name@
        == "push"@)
}

/// Every method call among `nodes` resolves to a function.
pub open spec fn method_calls_resolved(nodes: Seq<Expr>, resolved: Seq<(u64, u64)>) -> bool {
    forall|k: int|
        0 <= k < nodes.len() && (#[trigger] nodes[k]).kind is MethodCall ==> resolved_def(
            resolved,
            nodes[k].hir_id,
        ) is Some
}

/// The caller queries among `nodes`, each function once, in the order of
/// their first calls.
pub open spec fn vec_caller_defs(nodes: Seq<Expr>, resolved: Seq<(u64, u64)>, paths: Seq<(u64, String)>) -> Seq<u64>
    decreases nodes.len(),
{
    if nodes.len() == 0 {
        Seq::empty()
    } else {
        let prev = vec_caller_defs(nodes.drop_last(), resolved, paths);
        let n = nodes.last();
        match resolved_def(resolved, n.hir_id) {
            Some(d) => if vec_caller_query(n, d, paths) && !prev.contains(d) {
                prev.push(d)
            } else {
                prev
            },
            None => prev,
        }
    }
}

/// What the last `push` of `Vec` among `nodes` resolves to.
pub open spec fn vec_push_def(nodes: Seq<Expr>, resolved: Seq<(u64, u64)>, paths: Seq<(u64, String)>) -> Option<u64>
    decreases nodes.len(),
{
    if nodes.len() == 0 {
        None
    } else {
        let prev = vec_push_def(nodes.drop_last(), resolved, paths);
        let n = nodes.last();
        match resolved_def(resolved, n.hir_id) {
            Some(d) => if vec_push_call(n, d, paths) {
                Some(d)
            } else {
                prev
            },
            None => prev,
        }
    }
}

proof fn lemma_vec_caller_defs_distinct(nodes: Seq<Expr>, resolved: Seq<(u64, u64)>, paths: Seq<(u64, String)>)
    ensures
        vec_caller_defs(nodes, resolved, paths).no_duplicates(),
    decreases nodes.len(),
{
    if nodes.len() > 0 {
        let prev = vec_caller_defs(nodes.drop_last(), resolved, paths);
        lemma_vec_caller_defs_distinct(nodes.drop_last(), resolved, paths);
        match resolved_def(resolved, nodes.last().hir_id) {
            Some(d) => if vec_caller_query(nodes.last(), d, paths) && !prev.contains(d) {
                let b = prev.push(d);
                assert forall|i: int, j: int| 0 <= i < b.len() && 0 <= j < b.len() && i != j implies b[i]
                    != b[j] by {
                    if i < prev.len() && j < prev.len() {
                        assert(b[i] == prev[i] && b[j] == prev[j]);
                    } else if i < prev.len() {
                        assert(b[i] == prev[i]);
                    } else if j < prev.len() {
                        assert(b[j] == prev[j]);
                    }
                }
            } else {
            },
            None => {},
        }
    }
}

fn contains_def(v: &Vec<u64>, d: u64) -> (b: bool)
    ensures
        b == v@.contains(d),
{
    let mut i: usize = 0;
    while i < v.len()
        invariant
            0 <= i <= v@.len(),
            forall|j: int| 0 <= j < i ==> v@[j] != d,
        decreases v@.len() - i,
    {
        if v[i] == d {
            assert(v@[i as int] == d);
            return true;
        }
        i = i + 1;
    }
    false
}

/// Whether `e` is a call `Self::env()`.
fn is_self_type_env_call(e: &Expr) -> (b: bool)
    ensures
        b == self_type_env_call(*e),
{
    if let ExprKind::Call { func, .. } = &e.kind {
        if let ExprKind::Path(QPath::TypeRelative { ty_segments: Some(segs), name }) = &func.kind {
            return text_eq(name.as_str(), "env") && segs.len() > 0 && text_eq(
                segs[0].name.as_str(),
                "Self",
            );
        }
    }
    false
}

/// Detects pushes onto a vector that run without a check of the caller, so
/// that anyone can grow it until operations on it run out of gas.
pub struct UnexpectedRevertWarn {}

impl UnexpectedRevertWarn {
    /// The detector.
    pub fn new() -> (r: Self) {
        UnexpectedRevertWarn {  }
    }

    /// The caller queries and the `push` of `Vec` that the body `body`
    /// calls: every function that a caller query (`self.env().caller()`, or
    /// any method on `Self::env()`) resolves to, once each, and what the last
    /// `push` resolves to. `resolved` resolves each method call (the compiler
    /// resolves them all), and `paths` gives the printed path of a function,
    /// which tells the functions of `Vec` apart.
    pub fn find_defs(&self, body: &Expr, resolved: &Vec<(u64, u64)>, paths: &Vec<(u64, String)>) -> (r: (
        Vec<u64>,
        Option<u64>,
    ))
        requires
            method_calls_resolved(walk_nodes(*body), resolved@),
        ensures
            r.0@ == vec_caller_defs(walk_nodes(*body), resolved@, paths@),
            r.0@.no_duplicates(),
            r.1 == vec_push_def(walk_nodes(*body), resolved@, paths@),
    {
        let nodes = walk_node_refs(body);
        let ghost ns = walk_nodes(*body);
        let mut callers: Vec<u64> = Vec::new();
        let mut push: Option<u64> = None;
        let mut i: usize = 0;
        assert(ns.take(0) =~= Seq::<Expr>::empty());
        while i < nodes.len()
            invariant
                0 <= i <= nodes@.len(),
                nodes@.len() == ns.len(),
                ns == walk_nodes(*body),
                method_calls_resolved(ns, resolved@),
                forall|k: int| 0 <= k < nodes@.len() ==> *nodes@[k] == ns[k],
                callers@ == vec_caller_defs(ns.take(i as int), resolved@, paths@),
                push == vec_push_def(ns.take(i as int), resolved@, paths@),
            decreases nodes@.len() - i,
        {
            let n = nodes[i];
            assert(ns.take(i as int + 1).drop_last() =~= ns.take(i as int));
            assert(ns.take(i as int + 1).last() == *n);
            assert(ns[i as int] == *n);
            if let ExprKind::MethodCall { name, receiver, .. } = &n.kind {
                let d = match resolved_def_of(resolved, n.hir_id) {
                    Some(d) => d,
                    None => {
                        assert(false);
                        0
                    },
                };
                if is_typed_as(paths, d, "std::vec::Vec") {
                    if text_eq(name.as_str(), "push") {
                        push = Some(d);
                    }
                } else if is_self_env_call(n, "caller") || is_self_type_env_call(receiver) {
                    if !contains_def(&callers, d) {
                        callers.push(d);
                    }
                }
            }
            i = i + 1;
        }
        assert(ns.take(ns.len() as int) =~= ns);
        proof {
            lemma_vec_caller_defs_distinct(ns, resolved@, paths@);
        }
        (callers, push)
    }

    /// The spans of the pushes (given by their function number) that run
    /// before any check of the value that a caller query returned; pushes are
    /// looked for only when there is no caller query.
    pub fn unprotected_pushes(
        &self,
        bbs: &Vec<BasicBlock>,
        callers_def_id: &Vec<u64>,
        push_def_id: Option<u64>,
    ) -> (s: Vec<Span>)
        requires
            well_formed(bbs@),
        ensures
            s@ == unchecked_spans(bbs@, push_call_blocks(bbs@, callers_def_id@, push_def_id)),
    {
        let (callers, ops) = find_caller_and_vec_ops_in_mir(bbs, callers_def_id, push_def_id);
        unchecked_spans_exec(bbs, &callers, &ops)
    }
}

} // verus!
