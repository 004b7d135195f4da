//! The lazy-values-not-set detector.
//!
//! A value read with `Lazy::get` or `Mapping::get` is a copy: when the
//! function changes it, it has to write it back with `set`/`insert`. The
//! detector follows, through the MIR of the function and of the crate's
//! functions it calls, the locals that hold such a copy and the locals they
//! flow into, and reports every `get` whose value never reaches a `set` or
//! `insert` (directly, through the locals it was computed from, or through an
//! argument that a called function passes on to one).
use vstd::prelude::*;
use crate::mir::{BasicBlock, Operand, Place, Rvalue, Span, Statement, Terminator};
use crate::text::{contains_text, text_contains, text_eq, views};

verus! {

// ---------------------------------------------------------------------
// Maps kept as lists of entries
// ---------------------------------------------------------------------

/// The dependency map that a list of `(local, sources)` entries stands for:
/// a later entry for a local replaces an earlier one.
pub open spec fn deps_view(v: Seq<(u32, Vec<u32>)>) -> Map<u32, Seq<u32>>
    decreases v.len(),
{
    if v.len() == 0 {
        Map::empty()
    } else {
        deps_view(v.drop_last()).insert(v.last().0, v.last().1@)
    }
}

/// The span map that a list of `(local, span)` entries stands for: a later
/// entry for a local replaces an earlier one.
pub open spec fn spans_view(v: Seq<(u32, Span)>) -> Map<u32, Span>
    decreases v.len(),
{
    if v.len() == 0 {
        Map::empty()
    } else {
        spans_view(v.drop_last()).insert(v.last().0, v.last().1)
    }
}

/// All the sources named by any entry.
pub open spec fn dep_targets(v: Seq<(u32, Vec<u32>)>) -> Seq<u32>
    decreases v.len(),
{
    if v.len() == 0 {
        Seq::empty()
    } else {
        dep_targets(v.drop_last()) + v.last().1@
    }
}

proof fn lemma_deps_lookup(v: Seq<(u32, Vec<u32>)>, i: int, k: u32)
    requires
        0 <= i <= v.len(),
        forall|j: int| i <= j < v.len() ==> (#[trigger] v[j]).0 != k,
    ensures
        deps_view(v).contains_key(k) == deps_view(v.take(i)).contains_key(k),
        deps_view(v).contains_key(k) ==> deps_view(v)[k] == deps_view(v.take(i))[k],
    decreases v.len() - i,
{
    if i < v.len() {
        assert(v.drop_last().len() == v.len() - 1);
        assert forall|j: int| i <= j < v.drop_last().len() implies (#[trigger] v.drop_last()[j]).0
            != k by {
            assert(v.drop_last()[j] == v[j]);
        }
        lemma_deps_lookup(v.drop_last(), i, k);
        assert(v.drop_last().take(i) =~= v.take(i));
    } else {
        assert(v.take(i) =~= v);
    }
}

proof fn lemma_deps_targets(v: Seq<(u32, Vec<u32>)>, k: u32, x: u32)
    requires
        deps_view(v).contains_key(k),
        deps_view(v)[k].contains(x),
    ensures
        dep_targets(v).contains(x),
    decreases v.len(),
{
    if v.last().0 == k {
        let j = choose|j: int| 0 <= j < v.last().1@.len() && v.last().1@[j] == x;
        assert((dep_targets(v.drop_last()) + v.last().1@)[dep_targets(v.drop_last()).len() + j]
            == x);
    } else {
        lemma_deps_targets(v.drop_last(), k, x);
        let j = choose|j: int| 0 <= j < dep_targets(v.drop_last()).len() && dep_targets(
            v.drop_last(),
        )[j] == x;
        assert((dep_targets(v.drop_last()) + v.last().1@)[j] == x);
    }
}

/// The sources recorded for local `k`, if any.
fn deps_get(v: &Vec<(u32, Vec<u32>)>, k: u32) -> (r: Option<&Vec<u32>>)
    ensures
        match r {
            Some(ds) => deps_view(v@).contains_key(k) && ds@ == deps_view(v@)[k],
            None => !deps_view(v@).contains_key(k),
        },
{
    let mut i: usize = v.len();
    while i > 0
        invariant
            0 <= i <= v@.len(),
            forall|j: int| i <= j < v@.len() ==> (#[trigger] v@[j]).0 != k,
        decreases i,
    {
        if v[i - 1].0 == k {
            proof {
                lemma_deps_lookup(v@, i as int, k);
                assert(v@.take(i as int).drop_last() =~= v@.take(i - 1));
            }
            return Some(&v[i - 1].1);
        }
        i = i - 1;
    }
    proof {
        lemma_deps_lookup(v@, 0, k);
        assert(v@.take(0).len() == 0);
    }
    None
}

/// The entries of `v` without those for local `k`.
fn spans_remove(v: &Vec<(u32, Span)>, k: u32) -> (r: Vec<(u32, Span)>)
    requires
        keys_distinct(v@),
    ensures
        spans_view(r@) == spans_view(v@).remove(k),
        keys_distinct(r@),
        forall|i: int| 0 <= i < r@.len() ==> (#[trigger] r@[i]).0 != k,
{
    let mut r: Vec<(u32, Span)> = Vec::new();
    let mut j: usize = 0;
    assert(spans_view(r@) =~= spans_view(v@.take(0)).remove(k));
    while j < v.len()
        invariant
            0 <= j <= v@.len(),
            keys_distinct(v@),
            spans_view(r@) == spans_view(v@.take(j as int)).remove(k),
            keys_distinct(r@),
            forall|i: int| 0 <= i < r@.len() ==> (#[trigger] r@[i]).0 != k,
            forall|i: int|
                0 <= i < r@.len() ==> exists|t: int| 0 <= t < j && (#[trigger] r@[i]).0 == v@[t].0,
        decreases v@.len() - j,
    {
        assert(v@.take(j + 1).drop_last() =~= v@.take(j as int));
        let e = v[j];
        let ghost prev = r@;
        if e.0 != k {
            r.push(e);
            assert(r@.drop_last() =~= prev);
            assert forall|a: int, b: int| 0 <= a < b < r@.len() implies r@[a].0 != r@[b].0 by {
                if b == r@.len() - 1 {
                    assert(r@[a] == prev[a]);
                    let t = choose|t: int| 0 <= t < j && prev[a].0 == v@[t].0;
                }
            }
            assert forall|i: int|
                0 <= i < r@.len() implies exists|t: int|
                0 <= t < j + 1 && (#[trigger] r@[i]).0 == v@[t].0 by {
                if i < r@.len() - 1 {
                    assert(r@[i] == prev[i]);
                    let t = choose|t: int| 0 <= t < j && prev[i].0 == v@[t].0;
                    assert(0 <= t < j + 1 && r@[i].0 == v@[t].0);
                } else {
                    assert(r@[i].0 == v@[j as int].0);
                }
            }
            assert(spans_view(r@) =~= spans_view(v@.take(j + 1)).remove(k));
        } else {
            assert(spans_view(r@) =~= spans_view(v@.take(j + 1)).remove(k));
        }
        j = j + 1;
    }
    assert(v@.take(v@.len() as int) =~= v@);
    r
}

// ---------------------------------------------------------------------
// The locals that a write-back reaches, upwards through the dependencies
// ---------------------------------------------------------------------

/// Step `i` of `path` follows a recorded dependency.
pub open spec fn dep_step(deps: Map<u32, Seq<u32>>, path: Seq<u32>, i: int) -> bool {
    deps.contains_key(path[i]) && deps[path[i]].contains(path[i + 1])
}

/// Every step of `path` follows a recorded dependency.
pub open spec fn dep_path(deps: Map<u32, Seq<u32>>, path: Seq<u32>) -> bool {
    forall|i: int| 0 <= i < path.len() - 1 ==> #[trigger] dep_step(deps, path, i)
}

/// The locals reached from `start` by following recorded dependencies, zero
/// or more times: the locals that `clean_local_upwards` collects.
pub open spec fn upward_closure(deps: Map<u32, Seq<u32>>, start: Set<u32>) -> Set<u32> {
    Set::new(
        |l: u32|
            exists|path: Seq<u32>|
                #[trigger] dep_path(deps, path) && path.len() >= 1 && start.contains(path[0])
                    && path.last() == l,
    )
}

proof fn lemma_closure_start(deps: Map<u32, Seq<u32>>, start: Set<u32>, l: u32)
    requires
        start.contains(l),
    ensures
        upward_closure(deps, start).contains(l),
{
    let p = seq![l];
    assert(dep_path(deps, p));
}

proof fn lemma_closure_step(deps: Map<u32, Seq<u32>>, start: Set<u32>, l: u32, x: u32)
    requires
        upward_closure(deps, start).contains(l),
        deps.contains_key(l),
        deps[l].contains(x),
    ensures
        upward_closure(deps, start).contains(x),
{
    let p = choose|path: Seq<u32>|
        #[trigger] dep_path(deps, path) && path.len() >= 1 && start.contains(path[0])
            && path.last() == l;
    let q = p.push(x);
    assert forall|i: int| 0 <= i < q.len() - 1 implies #[trigger] dep_step(deps, q, i) by {
        if i < p.len() - 1 {
            assert(dep_step(deps, p, i));
        }
    }
    assert(dep_path(deps, q));
}

proof fn lemma_closed_path(deps: Map<u32, Seq<u32>>, r: Set<u32>, path: Seq<u32>, k: int)
    requires
        dep_path(deps, path),
        path.len() >= 1,
        r.contains(path[0]),
        forall|a: u32, x: u32|
            r.contains(a) && deps.contains_key(a) && #[trigger] deps[a].contains(x) ==> r.contains(
                x,
            ),
        0 <= k < path.len(),
    ensures
        r.contains(path[k]),
    decreases k,
{
    if k > 0 {
        lemma_closed_path(deps, r, path, k - 1);
        assert(dep_step(deps, path, k - 1));
    }
}

proof fn lemma_closed_contains_closure(deps: Map<u32, Seq<u32>>, start: Set<u32>, r: Set<u32>)
    requires
        start.subset_of(r),
        forall|a: u32, x: u32|
            r.contains(a) && deps.contains_key(a) && #[trigger] deps[a].contains(x) ==> r.contains(
                x,
            ),
    ensures
        upward_closure(deps, start).subset_of(r),
{
    assert forall|l: u32| upward_closure(deps, start).contains(l) implies r.contains(l) by {
        let p = choose|path: Seq<u32>|
            #[trigger] dep_path(deps, path) && path.len() >= 1 && start.contains(path[0])
                && path.last() == l;
        lemma_closed_path(deps, r, p, p.len() - 1);
    }
}

/// Whether `x` is one of the locals of `v`.
pub fn contains_local(v: &Vec<u32>, x: u32) -> (b: bool)
    ensures
        b == v@.contains(x),
{
    let mut i: usize = 0;
    while i < v.len()
        invariant
            0 <= i <= v@.len(),
            forall|j: int| 0 <= j < i ==> v@[j] != x,
        decreases v@.len() - i,
    {
        if v[i] == x {
            assert(v@[i as int] == x);
            return true;
        }
        i = i + 1;
    }
    false
}

/// The locals reached from `start` through the dependencies `deps`
/// (`clean_local_upwards`, applied to each start local, together with the
/// start locals), each once.
pub fn upward_closure_exec(deps: &Vec<(u32, Vec<u32>)>, start: &Vec<u32>) -> (r: Vec<u32>)
    ensures
        r@.to_set() == upward_closure(deps_view(deps@), start@.to_set()),
{
    let ghost dv = deps_view(deps@);
    let ghost sset = start@.to_set();
    let ghost universe = (start@ + dep_targets(deps@)).to_set();
    let mut result: Vec<u32> = Vec::new();
    let mut j: usize = 0;
    while j < start.len()
        invariant
            0 <= j <= start@.len(),
            result@.no_duplicates(),
            result@.to_set() == start@.take(j as int).to_set(),
        decreases start@.len() - j,
    {
        let s = start[j];
        proof {
            start@.take(j as int).lemma_push_to_set_commute(s);
            assert(start@.take(j + 1) =~= start@.take(j as int).push(s));
        }
        if !contains_local(&result, s) {
            proof {
                result@.lemma_push_to_set_commute(s);
            }
            result.push(s);
        } else {
            assert(result@.to_set().contains(s));
            assert(result@.to_set() =~= start@.take(j + 1).to_set());
        }
        j = j + 1;
    }
    assert(start@.take(start@.len() as int) =~= start@);
    proof {
        vstd::seq_lib::seq_to_set_is_finite(start@ + dep_targets(deps@));
        assert forall|x: u32| sset.contains(x) implies universe.contains(x) by {
            let k = choose|k: int| 0 <= k < start@.len() && start@[k] == x;
            assert((start@ + dep_targets(deps@))[k] == x);
        }
        assert forall|x: u32| sset.contains(x) implies upward_closure(dv, sset).contains(x) by {
            lemma_closure_start(dv, sset, x);
        }
    }
    let mut i: usize = 0;
    while i < result.len()
        invariant
            0 <= i <= result@.len(),
            dv == deps_view(deps@),
            sset == start@.to_set(),
            universe == (start@ + dep_targets(deps@)).to_set(),
            universe.finite(),
            result@.no_duplicates(),
            result@.to_set().subset_of(universe),
            sset.subset_of(result@.to_set()),
            result@.to_set().subset_of(upward_closure(dv, sset)),
            forall|a: int, x: u32|
                0 <= a < i && dv.contains_key(result@[a]) && #[trigger] dv[result@[a]].contains(
                    x,
                ) ==> result@.to_set().contains(x),
        decreases 2 * universe.len() - result@.len() - i,
    {
        let l = result[i];
        let ghost len0 = result@.len();
        assert(result@.to_set().contains(l));
        match deps_get(deps, l) {
            Some(ds) => {
                let mut k: usize = 0;
                while k < ds.len()
                    invariant
                        0 <= k <= ds@.len(),
                        i < result@.len(),
                        result@[i as int] == l,
                        dv == deps_view(deps@),
                        dv.contains_key(l),
                        ds@ == dv[l],
                        universe == (start@ + dep_targets(deps@)).to_set(),
                        result@.no_duplicates(),
                        result@.to_set().subset_of(universe),
                        sset.subset_of(result@.to_set()),
                        result@.to_set().subset_of(upward_closure(dv, sset)),
                        result@.to_set().contains(l),
                        result@.len() >= len0,
                        forall|m: int| 0 <= m < k ==> result@.to_set().contains(#[trigger] ds@[m]),
                        forall|a: int, x: u32|
                            0 <= a < i && dv.contains_key(result@[a]) && #[trigger] dv[result@[
                                a
                            ]].contains(x) ==> result@.to_set().contains(x),
                    decreases ds@.len() - k,
                {
                    let x = ds[k];
                    let ghost before = result@;
                    if !contains_local(&result, x) {
                        proof {
                            result@.lemma_push_to_set_commute(x);
                            assert(dv[l].contains(x));
                            lemma_closure_step(dv, sset, l, x);
                            lemma_deps_targets(deps@, l, x);
                            let t = choose|t: int|
                                0 <= t < dep_targets(deps@).len() && dep_targets(deps@)[t] == x;
                            assert((start@ + dep_targets(deps@))[start@.len() + t] == x);
                        }
                        result.push(x);
                        assert(result@.drop_last() =~= before);
                        assert(result@.no_duplicates()) by {
                            assert forall|p: int, q: int|
                                0 <= p < result@.len() && 0 <= q < result@.len() && p != q
                                    implies result@[p] != result@[q] by {
                                if p == result@.len() - 1 || q == result@.len() - 1 {
                                    if p < result@.len() - 1 {
                                        assert(result@.drop_last()[p] == result@[p]);
                                    }
                                    if q < result@.len() - 1 {
                                        assert(result@.drop_last()[q] == result@[q]);
                                    }
                                } else {
                                    assert(result@.drop_last()[p] == result@[p]);
                                    assert(result@.drop_last()[q] == result@[q]);
                                }
                            }
                        }
                        assert forall|a: int, y: u32|
                            0 <= a < i && dv.contains_key(result@[a]) && #[trigger] dv[result@[
                                a
                            ]].contains(y) implies result@.to_set().contains(y) by {
                            assert(result@[a] == result@.drop_last()[a]);
                            assert(result@.drop_last().to_set().contains(y));
                        }
                        assert forall|m: int| 0 <= m < k + 1 implies result@.to_set().contains(
                            #[trigger] ds@[m],
                        ) by {
                            if m < k {
                                assert(result@.drop_last().to_set().contains(ds@[m]));
                            }
                        }
                    }
                    k = k + 1;
                }
                assert forall|a: int, x: u32|
                    0 <= a < i + 1 && dv.contains_key(result@[a]) && #[trigger] dv[result@[
                        a
                    ]].contains(x) implies result@.to_set().contains(x) by {
                    if a == i {
                        let m = choose|m: int| 0 <= m < ds@.len() && ds@[m] == x;
                        assert(result@.to_set().contains(ds@[m]));
                    }
                }
            },
            None => {},
        }
        proof {
            result@.unique_seq_to_set();
            vstd::set_lib::lemma_len_subset(result@.to_set(), universe);
        }
        i = i + 1;
    }
    proof {
        assert forall|a: u32, x: u32|
            result@.to_set().contains(a) && dv.contains_key(a) && #[trigger] dv[a].contains(
                x,
            ) implies result@.to_set().contains(x) by {
            let p = choose|p: int| 0 <= p < result@.len() && result@[p] == a;
            assert(dv[result@[p]].contains(x));
        }
        lemma_closed_contains_closure(dv, sset, result@.to_set());
    }
    assert(result@.to_set() =~= upward_closure(dv, sset));
    result
}


// ---------------------------------------------------------------------
// The program and the analysis state
// ---------------------------------------------------------------------

/// A function of the crate: its basic blocks, the order in which the
/// compiler's preorder traversal visits them (`traversal::preorder`: from
/// the entry block, each reachable block once), and its number of
/// arguments.
pub struct FnBody {
    pub blocks: Vec<BasicBlock>,
    pub preorder: Vec<usize>,
    pub arg_count: u32,
}

/// A call passes at most as many arguments as a local index can number.
pub open spec fn call_args_fit(t: Option<Terminator>) -> bool {
    match t {
        Some(Terminator::Call { args, .. }) => args@.len() <= 0xFFFF_FF00,
        _ => true,
    }
}

/// The traversal order names blocks of the body, and calls fit.
pub open spec fn body_wf(b: FnBody) -> bool {
    &&& forall|k: int| 0 <= k < b.preorder@.len() ==> #[trigger] b.preorder@[k] < b.blocks@.len()
    &&& forall|k: int| 0 <= k < b.blocks@.len() ==> call_args_fit(#[trigger] b.blocks@[k].terminator)
}

/// The functions of the crate, numbered by their definition ids: an id below
/// the length is a function of the crate, any other id lies outside it.
pub open spec fn program_wf(fns: Seq<FnBody>) -> bool {
    forall|f: int| 0 <= f < fns.len() ==> body_wf(#[trigger] fns[f])
}

/// The detector: the functions that read and write lazy values and
/// mappings, once found.
#[derive(Clone, Copy, Debug)]
pub struct LazyValuesNotSet {
    pub lazy_set_defid: Option<u64>,
    pub lazy_get_defid: Option<u64>,
    pub mapping_insert_defid: Option<u64>,
    pub mapping_get_defid: Option<u64>,
}

/// The state of the analysis of one function body: the locals holding (a
/// value computed from) a mapping read or a lazy read, the span of the read
/// that each reading local got its value from, the locals each local was
/// computed from, the locals whose value is written back, and the functions
/// analysed so far.
pub struct LazyState {
    pub mapping_tainted: Set<u32>,
    pub lazy_tainted: Set<u32>,
    pub spans: Map<u32, Span>,
    pub deps: Map<u32, Seq<u32>>,
    pub to_clean: Set<u32>,
    pub visited: Set<u64>,
}

/// The local that an operand reads, if it reads a place.
pub open spec fn op_locals(op: Operand) -> Seq<u32> {
    match op.place_spec() {
        Some(p) => seq![p.local],
        None => Seq::empty(),
    }
}

/// The locals that a right-hand side reads (`get_locals_in_rvalue`).
pub open spec fn rvalue_locals(rv: Rvalue) -> Seq<u32> {
    match rv {
        Rvalue::Use(op) => op_locals(op),
        Rvalue::Repeat(op) => op_locals(op),
        Rvalue::Cast(op) => op_locals(op),
        Rvalue::UnaryOp(op) => op_locals(op),
        Rvalue::Ref(p) => seq![p.local],
        Rvalue::AddressOf(p) => seq![p.local],
        Rvalue::Len(p) => seq![p.local],
        Rvalue::CopyForDeref(p) => seq![p.local],
        Rvalue::BinaryOp(a, b) => op_locals(a) + op_locals(b),
        Rvalue::CheckedBinaryOp(a, b) => op_locals(a) + op_locals(b),
        Rvalue::Other => Seq::empty(),
    }
}

/// Whether one of the locals `ls` is in `t`.
pub open spec fn reads_any(ls: Seq<u32>, t: Set<u32>) -> bool {
    exists|i: int| 0 <= i < ls.len() && t.contains(#[trigger] ls[i])
}

/// One assignment: its destination depends on the locals it reads, and
/// holds a read value when one of them does.
pub open spec fn lazy_statement(s: Statement, st: LazyState) -> LazyState {
    match s {
        Statement::Assign(dst, rv) => {
            let ls = rvalue_locals(rv);
            LazyState {
                mapping_tainted: if reads_any(ls, st.mapping_tainted) {
                    st.mapping_tainted.insert(dst.local)
                } else {
                    st.mapping_tainted
                },
                lazy_tainted: if reads_any(ls, st.lazy_tainted) {
                    st.lazy_tainted.insert(dst.local)
                } else {
                    st.lazy_tainted
                },
                deps: st.deps.insert(dst.local, ls),
                ..st
            }
        },
        _ => st,
    }
}

/// A block's statements, from the last to the first.
pub open spec fn lazy_statements(stmts: Seq<Statement>, st: LazyState) -> LazyState
    decreases stmts.len(),
{
    if stmts.len() == 0 {
        st
    } else {
        lazy_statements(stmts.drop_last(), lazy_statement(stmts.last(), st))
    }
}

/// The local that argument `i` of a call reads, if it reads a place.
pub open spec fn arg_local(args: Seq<Operand>, i: int) -> Option<u32> {
    if 0 <= i < args.len() {
        match args[i].place_spec() {
            Some(p) => Some(p.local),
            None => None,
        }
    } else {
        None
    }
}

/// The local that the argument at position `pos` (counting from 1, as the
/// callee's locals number its arguments) reads, if any.
pub open spec fn arg_local_at(args: Seq<Operand>, pos: u32) -> Option<u32> {
    if pos >= 1 {
        arg_local(args, pos - 1)
    } else {
        None
    }
}

/// The positions of the arguments that read a local of `t`.
pub open spec fn arg_positions(args: Seq<Operand>, t: Set<u32>) -> Set<u32> {
    Set::new(
        |pos: u32|
            arg_local_at(args, pos) is Some && t.contains(arg_local_at(args, pos)->0),
    )
}

/// The caller's locals passed at the callee's argument positions `cleaned`.
pub open spec fn cleared_locals(args: Seq<Operand>, cleaned: Set<u32>) -> Set<u32> {
    Set::new(
        |l: u32| exists|pos: u32| cleaned.contains(pos) && #[trigger] arg_local_at(args, pos) == Some(l),
    )
}

/// The locals that the arguments of a call read.
pub open spec fn args_read(args: Seq<Operand>) -> Set<u32> {
    Set::new(|l: u32| exists|i: int| #[trigger] arg_local(args, i) == Some(l))
}

/// The locals that the arguments of a call read, in order.
pub open spec fn args_read_seq(args: Seq<Operand>) -> Seq<u32>
    decreases args.len(),
{
    if args.len() == 0 {
        Seq::empty()
    } else {
        args_read_seq(args.drop_last()) + op_locals(args.last())
    }
}

/// The number of the crate's functions (ids below `n`) not analysed yet.
pub open spec fn unvisited_count(n: nat, visited: Set<u64>) -> nat
    decreases n,
{
    if n == 0 {
        0
    } else {
        unvisited_count((n - 1) as nat, visited) + if visited.contains((n - 1) as u64) {
            0nat
        } else {
            1nat
        }
    }
}

proof fn lemma_unvisited_mono(n: nat, a: Set<u64>, b: Set<u64>)
    requires
        a.subset_of(b),
    ensures
        unvisited_count(n, b) <= unvisited_count(n, a),
    decreases n,
{
    if n > 0 {
        lemma_unvisited_mono((n - 1) as nat, a, b);
    }
}

proof fn lemma_unvisited_insert(n: nat, a: Set<u64>, f: u64)
    requires
        f < n,
        n <= u64::MAX + 1,
        !a.contains(f),
    ensures
        unvisited_count(n, a.insert(f)) + 1 == unvisited_count(n, a),
    decreases n,
{
    if (n - 1) as u64 == f {
        lemma_unvisited_same((n - 1) as nat, a, f);
    } else {
        lemma_unvisited_insert((n - 1) as nat, a, f);
    }
}

proof fn lemma_unvisited_same(n: nat, a: Set<u64>, f: u64)
    requires
        n <= f,
    ensures
        unvisited_count(n, a.insert(f)) == unvisited_count(n, a),
    decreases n,
{
    if n > 0 {
        lemma_unvisited_same((n - 1) as nat, a, f);
    }
}

/// What a block's terminator does: a mapping or lazy read taints its
/// destination and remembers the call's span; a call of a function of the
/// crate is analysed with the positions of the tainted arguments, and the
/// arguments it writes back are written back here too; a `set` or `insert`
/// writes back the locals it is passed; any other call makes its
/// destination depend on its arguments.
pub open spec fn terminator_info(
    fns: Seq<FnBody>,
    defs: LazyValuesNotSet,
    fuel: nat,
    t: Option<Terminator>,
    st: LazyState,
) -> LazyState
    decreases fuel, 0nat, 0nat,
{
    match t {
        Some(Terminator::Call { func, args, destination, fn_span, .. }) => match func {
            Operand::Constant(c) => match c.fn_def {
                Some(d) => if defs.lazy_get_defid == Some(d) {
                    LazyState {
                        lazy_tainted: st.lazy_tainted.insert(destination.local),
                        spans: st.spans.insert(destination.local, fn_span),
                        ..st
                    }
                } else if defs.mapping_get_defid == Some(d) {
                    LazyState {
                        mapping_tainted: st.mapping_tainted.insert(destination.local),
                        spans: st.spans.insert(destination.local, fn_span),
                        ..st
                    }
                } else if d < fns.len() {
                    if fuel == 0 {
                        st
                    } else {
                        let callee = fn_info(
                            fns,
                            defs,
                            (fuel - 1) as nat,
                            d,
                            arg_positions(args@, st.mapping_tainted),
                            arg_positions(args@, st.lazy_tainted),
                            st.visited,
                        );
                        let cl = cleared_locals(args@, callee.0);
                        LazyState {
                            mapping_tainted: st.mapping_tainted.difference(cl),
                            lazy_tainted: st.lazy_tainted.difference(cl),
                            to_clean: st.to_clean.union(cl),
                            visited: callee.2,
                            ..st
                        }
                    }
                } else if defs.lazy_set_defid == Some(d) || defs.mapping_insert_defid == Some(d) {
                    LazyState { to_clean: st.to_clean.union(args_read(args@)), ..st }
                } else {
                    LazyState { deps: st.deps.insert(destination.local, args_read_seq(args@)), ..st }
                },
                None => st,
            },
            _ => st,
        },
        _ => st,
    }
}

/// The state after the first `k` blocks in traversal order.
pub open spec fn blocks_info(
    fns: Seq<FnBody>,
    defs: LazyValuesNotSet,
    fuel: nat,
    body: FnBody,
    k: nat,
    st0: LazyState,
) -> LazyState
    decreases fuel, 1nat, k,
{
    if k == 0 {
        st0
    } else {
        let prev = blocks_info(fns, defs, fuel, body, (k - 1) as nat, st0);
        let b = body.preorder@[k - 1];
        if b < body.blocks@.len() {
            let bb = body.blocks@[b as int];
            terminator_info(fns, defs, fuel, bb.terminator, lazy_statements(bb.statements@, prev))
        } else {
            prev
        }
    }
}

/// The analysis of function `f`, entered with the argument positions `mt`
/// holding mapping reads and `lt` holding lazy reads, with the functions
/// `visited` analysed before: the argument positions whose value is written
/// back, the reads never written back (by local), and the functions
/// analysed afterwards. A function analysed before gives nothing. `fuel`
/// bounds the nesting of calls; it is never exhausted when it exceeds the
/// number of functions not analysed yet.
pub open spec fn fn_info(
    fns: Seq<FnBody>,
    defs: LazyValuesNotSet,
    fuel: nat,
    f: u64,
    mt: Set<u32>,
    lt: Set<u32>,
    visited: Set<u64>,
) -> (Set<u32>, Map<u32, Span>, Set<u64>)
    decreases fuel, 2nat, 0nat,
{
    if visited.contains(f) || f >= fns.len() || fuel == 0 {
        (Set::empty(), Map::empty(), visited)
    } else {
        let body = fns[f as int];
        let st0 = LazyState {
            mapping_tainted: mt,
            lazy_tainted: lt,
            spans: Map::empty(),
            deps: Map::empty(),
            to_clean: Set::empty(),
            visited: visited.insert(f),
        };
        let st = blocks_info(fns, defs, fuel, body, body.preorder@.len(), st0);
        let clean = upward_closure(st.deps, st.to_clean);
        (
            Set::new(|l: u32| clean.contains(l) && l <= body.arg_count),
            st.spans.remove_keys(clean),
            st.visited,
        )
    }
}


// ---------------------------------------------------------------------
// Executable analysis
// ---------------------------------------------------------------------

/// The analysis state that the executable lists stand for.
pub open spec fn state_of(
    mg: Seq<u32>,
    lg: Seq<u32>,
    spans: Seq<(u32, Span)>,
    deps: Seq<(u32, Vec<u32>)>,
    to_clean: Seq<u32>,
    visited: Seq<u64>,
) -> LazyState {
    LazyState {
        mapping_tainted: mg.to_set(),
        lazy_tainted: lg.to_set(),
        spans: spans_view(spans),
        deps: deps_view(deps),
        to_clean: to_clean.to_set(),
        visited: visited.to_set(),
    }
}

/// No two entries have the same local.
pub open spec fn keys_distinct(v: Seq<(u32, Span)>) -> bool {
    forall|i: int, j: int| 0 <= i < j < v.len() ==> v[i].0 != v[j].0
}

fn op_locals_exec(op: &Operand) -> (r: Vec<u32>)
    ensures
        r@ == op_locals(*op),
{
    let mut r: Vec<u32> = Vec::new();
    if let Some(p) = op.place() {
        r.push(p.local);
    }
    assert(r@ =~= op_locals(*op));
    r
}

/// The locals that a right-hand side reads.
pub fn get_locals_in_rvalue(rv: &Rvalue) -> (r: Vec<u32>)
    ensures
        r@ == rvalue_locals(*rv),
{
    match rv {
        Rvalue::Use(op) => op_locals_exec(op),
        Rvalue::Repeat(op) => op_locals_exec(op),
        Rvalue::Cast(op) => op_locals_exec(op),
        Rvalue::UnaryOp(op) => op_locals_exec(op),
        Rvalue::Ref(p) => vec![p.local],
        Rvalue::AddressOf(p) => vec![p.local],
        Rvalue::Len(p) => vec![p.local],
        Rvalue::CopyForDeref(p) => vec![p.local],
        Rvalue::BinaryOp(a, b) => {
            let mut v = op_locals_exec(a);
            let mut w = op_locals_exec(b);
            v.append(&mut w);
            v
        },
        Rvalue::CheckedBinaryOp(a, b) => {
            let mut v = op_locals_exec(a);
            let mut w = op_locals_exec(b);
            v.append(&mut w);
            v
        },
        Rvalue::Other => Vec::new(),
    }
}

fn reads_any_exec(ls: &Vec<u32>, t: &Vec<u32>) -> (b: bool)
    ensures
        b == reads_any(ls@, t@.to_set()),
{
    let mut i: usize = 0;
    while i < ls.len()
        invariant
            0 <= i <= ls@.len(),
            forall|j: int| 0 <= j < i ==> !t@.to_set().contains(#[trigger] ls@[j]),
        decreases ls@.len() - i,
    {
        if contains_local(t, ls[i]) {
            assert(t@.to_set().contains(ls@[i as int]));
            return true;
        }
        i = i + 1;
    }
    false
}

fn copy_locals(v: &Vec<u32>) -> (r: Vec<u32>)
    ensures
        r@ == v@,
{
    let mut r: Vec<u32> = Vec::new();
    let mut i: usize = 0;
    while i < v.len()
        invariant
            0 <= i <= v@.len(),
            r@ == v@.take(i as int),
        decreases v@.len() - i,
    {
        r.push(v[i]);
        i = i + 1;
        assert(r@ =~= v@.take(i as int));
    }
    assert(v@.take(v@.len() as int) =~= v@);
    r
}

/// Runs a block's statements, from the last to the first.
fn process_statements(
    stmts: &Vec<Statement>,
    mg: &mut Vec<u32>,
    lg: &mut Vec<u32>,
    deps: &mut Vec<(u32, Vec<u32>)>,
    Ghost(st): Ghost<LazyState>,
)
    requires
        st.mapping_tainted == old(mg)@.to_set(),
        st.lazy_tainted == old(lg)@.to_set(),
        st.deps == deps_view(old(deps)@),
    ensures
        lazy_statements(stmts@, st) == (LazyState {
            mapping_tainted: final(mg)@.to_set(),
            lazy_tainted: final(lg)@.to_set(),
            deps: deps_view(final(deps)@),
            ..st
        }),
{
    let mut j: usize = stmts.len();
    assert(stmts@.take(j as int) =~= stmts@);
    while j > 0
        invariant
            0 <= j <= stmts@.len(),
            lazy_statements(
                stmts@.take(j as int),
                LazyState {
                    mapping_tainted: mg@.to_set(),
                    lazy_tainted: lg@.to_set(),
                    deps: deps_view(deps@),
                    ..st
                },
            ) == lazy_statements(stmts@, st),
        decreases j,
    {
        let ghost cur = LazyState {
            mapping_tainted: mg@.to_set(),
            lazy_tainted: lg@.to_set(),
            deps: deps_view(deps@),
            ..st
        };
        assert(stmts@.take(j as int).drop_last() =~= stmts@.take(j - 1));
        assert(stmts@.take(j as int).last() == stmts@[j - 1]);
        match &stmts[j - 1] {
            Statement::Assign(dst, rv) => {
                let ls = get_locals_in_rvalue(rv);
                let any_m = reads_any_exec(&ls, mg);
                let any_l = reads_any_exec(&ls, lg);
                let ls2 = copy_locals(&ls);
                let ghost old_deps = deps@;
                deps.push((dst.local, ls2));
                assert(deps@.drop_last() =~= old_deps);
                if any_m {
                    proof {
                        mg@.lemma_push_to_set_commute(dst.local);
                    }
                    mg.push(dst.local);
                }
                if any_l {
                    proof {
                        lg@.lemma_push_to_set_commute(dst.local);
                    }
                    lg.push(dst.local);
                }
                assert(LazyState {
                    mapping_tainted: mg@.to_set(),
                    lazy_tainted: lg@.to_set(),
                    deps: deps_view(deps@),
                    ..st
                } == lazy_statement(stmts@[j - 1], cur));
            },
            _ => {},
        }
        j = j - 1;
    }
}

fn contains_fn(v: &Vec<u64>, f: u64) -> (b: bool)
    ensures
        b == v@.to_set().contains(f),
{
    let mut i: usize = 0;
    while i < v.len()
        invariant
            0 <= i <= v@.len(),
            forall|j: int| 0 <= j < i ==> v@[j] != f,
        decreases v@.len() - i,
    {
        if v[i] == f {
            assert(v@.contains(f));
            return true;
        }
        i = i + 1;
    }
    false
}

spec fn positions_upto(args: Seq<Operand>, t: Set<u32>, n: int) -> Set<u32> {
    Set::new(
        |pos: u32|
            pos <= n && arg_local_at(args, pos) is Some && t.contains(
                arg_local_at(args, pos)->0,
            ),
    )
}

/// The argument positions (from 1) whose argument reads a local of `t`.
fn arg_positions_exec(args: &Vec<Operand>, t: &Vec<u32>) -> (r: Vec<u32>)
    requires
        args@.len() <= 0xFFFF_FF00,
    ensures
        r@.to_set() == arg_positions(args@, t@.to_set()),
{
    let mut r: Vec<u32> = Vec::new();
    let mut i: usize = 0;
    assert(r@.to_set() =~= positions_upto(args@, t@.to_set(), 0));
    while i < args.len()
        invariant
            0 <= i <= args@.len() <= 0xFFFF_FF00,
            r@.to_set() == positions_upto(args@, t@.to_set(), i as int),
        decreases args@.len() - i,
    {
        let pos: u32 = (i + 1) as u32;
        let ghost before = r@;
        assert(arg_local_at(args@, pos) == match args@[i as int].place_spec() {
            Some(p) => Some(p.local),
            None => None,
        });
        if let Some(p) = args[i].place() {
            if contains_local(t, p.local) {
                proof {
                    before.lemma_push_to_set_commute(pos);
                }
                r.push(pos);
            }
        }
        assert(r@.to_set() =~= positions_upto(args@, t@.to_set(), i + 1));
        i = i + 1;
    }
    assert(r@.to_set() =~= arg_positions(args@, t@.to_set()));
    r
}

/// The locals read by the arguments at the positions `cleaned`.
fn cleared_exec(args: &Vec<Operand>, cleaned: &Vec<u32>) -> (r: Vec<u32>)
    ensures
        r@.to_set() == cleared_locals(args@, cleaned@.to_set()),
{
    let mut r: Vec<u32> = Vec::new();
    let mut k: usize = 0;
    while k < cleaned.len()
        invariant
            0 <= k <= cleaned@.len(),
            r@.to_set() == cleared_locals(args@, cleaned@.take(k as int).to_set()),
        decreases cleaned@.len() - k,
    {
        let pos = cleaned[k];
        let ghost before = r@;
        proof {
            cleaned@.take(k as int).lemma_push_to_set_commute(pos);
            assert(cleaned@.take(k + 1) =~= cleaned@.take(k as int).push(pos));
        }
        if pos >= 1 && ((pos - 1) as usize) < args.len() {
            let idx: usize = (pos - 1) as usize;
            if let Some(p) = args[idx].place() {
                proof {
                    before.lemma_push_to_set_commute(p.local);
                }
                r.push(p.local);
                assert(arg_local_at(args@, pos) == Some(p.local));
            } else {
                assert(arg_local_at(args@, pos) is None);
            }
        } else {
            assert(arg_local_at(args@, pos) is None);
        }
        assert(r@.to_set() =~= cleared_locals(args@, cleaned@.take(k + 1).to_set()));
        k = k + 1;
    }
    assert(cleaned@.take(cleaned@.len() as int) =~= cleaned@);
    r
}

/// The locals that the arguments read, in order.
fn args_read_exec(args: &Vec<Operand>) -> (r: Vec<u32>)
    ensures
        r@ == args_read_seq(args@),
        r@.to_set() == args_read(args@),
{
    let mut r: Vec<u32> = Vec::new();
    let mut i: usize = 0;
    while i < args.len()
        invariant
            0 <= i <= args@.len(),
            r@ == args_read_seq(args@.take(i as int)),
            r@.to_set() == Set::new(
                |l: u32| exists|j: int| 0 <= j < i && #[trigger] arg_local(args@, j) == Some(l),
            ),
        decreases args@.len() - i,
    {
        assert(args@.take(i + 1).drop_last() =~= args@.take(i as int));
        let ghost before = r@;
        if let Some(p) = args[i].place() {
            proof {
                before.lemma_push_to_set_commute(p.local);
            }
            r.push(p.local);
            assert(arg_local(args@, i as int) == Some(p.local));
        }
        assert(r@ =~= args_read_seq(args@.take(i + 1)));
        assert(r@.to_set() =~= Set::new(
            |l: u32| exists|j: int| 0 <= j < i + 1 && #[trigger] arg_local(args@, j) == Some(l),
        ));
        i = i + 1;
    }
    assert(args@.take(args@.len() as int) =~= args@);
    assert(r@.to_set() =~= args_read(args@));
    r
}

/// `v` without the locals of `xs`.
fn without_locals(v: &Vec<u32>, xs: &Vec<u32>) -> (r: Vec<u32>)
    ensures
        r@.to_set() == v@.to_set().difference(xs@.to_set()),
{
    let mut r: Vec<u32> = Vec::new();
    let mut j: usize = 0;
    while j < v.len()
        invariant
            0 <= j <= v@.len(),
            r@.to_set() == v@.take(j as int).to_set().difference(xs@.to_set()),
        decreases v@.len() - j,
    {
        let ghost before = r@;
        proof {
            v@.take(j as int).lemma_push_to_set_commute(v@[j as int]);
            assert(v@.take(j + 1) =~= v@.take(j as int).push(v@[j as int]));
        }
        if !contains_local(xs, v[j]) {
            proof {
                before.lemma_push_to_set_commute(v@[j as int]);
            }
            r.push(v[j]);
        }
        assert(r@.to_set() =~= v@.take(j + 1).to_set().difference(xs@.to_set()));
        j = j + 1;
    }
    assert(v@.take(v@.len() as int) =~= v@);
    r
}

/// `v` with the locals of `xs` added.
fn with_locals(v: &mut Vec<u32>, xs: &Vec<u32>)
    ensures
        final(v)@.to_set() == old(v)@.to_set().union(xs@.to_set()),
{
    let ghost start = v@;
    let mut k: usize = 0;
    while k < xs.len()
        invariant
            0 <= k <= xs@.len(),
            v@.to_set() == start.to_set().union(xs@.take(k as int).to_set()),
        decreases xs@.len() - k,
    {
        proof {
            xs@.take(k as int).lemma_push_to_set_commute(xs@[k as int]);
            assert(xs@.take(k + 1) =~= xs@.take(k as int).push(xs@[k as int]));
            v@.lemma_push_to_set_commute(xs@[k as int]);
        }
        v.push(xs[k]);
        assert(v@.to_set() =~= start.to_set().union(xs@.take(k + 1).to_set()));
        k = k + 1;
    }
    assert(xs@.take(xs@.len() as int) =~= xs@);
}

/// Records the span of the read that local `k` holds.
fn spans_insert(v: &mut Vec<(u32, Span)>, k: u32, s: Span)
    requires
        keys_distinct(old(v)@),
    ensures
        spans_view(final(v)@) == spans_view(old(v)@).insert(k, s),
        keys_distinct(final(v)@),
{
    let mut r = spans_remove(v, k);
    let ghost before = r@;
    r.push((k, s));
    assert(r@.drop_last() =~= before);
    assert(spans_view(r@) =~= spans_view(old(v)@).insert(k, s));
    *v = r;
}


/// Whether the list `new` starts with the list `old`.
pub open spec fn list_extends(old: Seq<u64>, new: Seq<u64>) -> bool {
    old.len() <= new.len() && new.subrange(0, old.len() as int) =~= old
}

proof fn lemma_extends_refl(a: Seq<u64>)
    ensures
        list_extends(a, a),
{
    assert(a.subrange(0, a.len() as int) =~= a);
}

proof fn lemma_extends_trans(a: Seq<u64>, b: Seq<u64>, c: Seq<u64>)
    requires
        list_extends(a, b),
        list_extends(b, c),
    ensures
        list_extends(a, c),
{
    assert forall|i: int| 0 <= i < a.len() implies c.subrange(0, a.len() as int)[i] == a[i] by {
        assert(c.subrange(0, b.len() as int)[i] == b[i]);
        assert(b.subrange(0, a.len() as int)[i] == a[i]);
    }
    assert(c.subrange(0, a.len() as int) =~= a);
}

proof fn lemma_push_extends_distinct(a: Seq<u64>, f: u64)
    requires
        !a.contains(f),
    ensures
        list_extends(a, a.push(f)),
        a.no_duplicates() ==> a.push(f).no_duplicates(),
{
    assert(a.push(f).subrange(0, a.len() as int) =~= a);
    if a.no_duplicates() {
        let b = a.push(f);
        assert forall|i: int, j: int| 0 <= i < b.len() && 0 <= j < b.len() && i != j implies b[i]
            != b[j] by {
            if i < a.len() && j < a.len() {
                assert(b[i] == a[i] && b[j] == a[j]);
            } else if i < a.len() {
                assert(b[i] == a[i]);
                assert(b[j] == f);
            } else if j < a.len() {
                assert(b[j] == a[j]);
                assert(b[i] == f);
            }
        }
    }
}

impl LazyValuesNotSet {
    /// Analyses a block's terminator (see `terminator_info`).
    fn process_terminator(
        &self,
        fns: &Vec<FnBody>,
        t: &Option<Terminator>,
        mg: &mut Vec<u32>,
        lg: &mut Vec<u32>,
        spans: &mut Vec<(u32, Span)>,
        deps: &mut Vec<(u32, Vec<u32>)>,
        to_clean: &mut Vec<u32>,
        visited: &mut Vec<u64>,
        Ghost(fuel): Ghost<nat>,
    )
        requires
            program_wf(fns@),
            call_args_fit(*t),
            keys_distinct(old(spans)@),
            unvisited_count(fns@.len() as nat, old(visited)@.to_set()) + 1 < fuel,
        ensures
            state_of(
                final(mg)@,
                final(lg)@,
                final(spans)@,
                final(deps)@,
                final(to_clean)@,
                final(visited)@,
            ) == terminator_info(
                fns@,
                *self,
                fuel,
                *t,
                state_of(
                    old(mg)@,
                    old(lg)@,
                    old(spans)@,
                    old(deps)@,
                    old(to_clean)@,
                    old(visited)@,
                ),
            ),
            keys_distinct(final(spans)@),
            old(visited)@.to_set().subset_of(final(visited)@.to_set()),
            list_extends(old(visited)@, final(visited)@),
            old(visited)@.no_duplicates() ==> final(visited)@.no_duplicates(),
        decreases fuel, 0nat,
    {
        let ghost st = state_of(mg@, lg@, spans@, deps@, to_clean@, visited@);
        proof {
            lemma_extends_refl(visited@);
        }
        if let Some(Terminator::Call { func, args, destination, fn_span, .. }) = t {
            if let Operand::Constant(c) = func {
                if let Some(d) = c.fn_def {
                    if self.lazy_get_defid == Some(d) {
                        proof {
                            lg@.lemma_push_to_set_commute(destination.local);
                        }
                        lg.push(destination.local);
                        spans_insert(spans, destination.local, *fn_span);
                    } else if self.mapping_get_defid == Some(d) {
                        proof {
                            mg@.lemma_push_to_set_commute(destination.local);
                        }
                        mg.push(destination.local);
                        spans_insert(spans, destination.local, *fn_span);
                    } else if d < fns.len() as u64 {
                        let margs = arg_positions_exec(args, mg);
                        let largs = arg_positions_exec(args, lg);
                        let ghost v0 = visited@.to_set();
                        let (cleaned, _) = self.func_info(
                            fns,
                            d,
                            &margs,
                            &largs,
                            visited,
                            Ghost((fuel - 1) as nat),
                        );
                        let cl = cleared_exec(args, &cleaned);
                        let m2 = without_locals(mg, &cl);
                        *mg = m2;
                        let l2 = without_locals(lg, &cl);
                        *lg = l2;
                        with_locals(to_clean, &cl);
                    } else if self.lazy_set_defid == Some(d) || self.mapping_insert_defid == Some(
                        d,
                    ) {
                        let read = args_read_exec(args);
                        with_locals(to_clean, &read);
                    } else {
                        let read = args_read_exec(args);
                        let ghost old_deps = deps@;
                        deps.push((destination.local, read));
                        assert(deps@.drop_last() =~= old_deps);
                    }
                }
            }
        }
        assert(state_of(mg@, lg@, spans@, deps@, to_clean@, visited@) == terminator_info(
            fns@,
            *self,
            fuel,
            *t,
            st,
        ));
    }

    /// Analyses function `f` (see `fn_info`).
    fn func_info(
        &self,
        fns: &Vec<FnBody>,
        f: u64,
        tainted_get_map: &Vec<u32>,
        tainted_get_lazy: &Vec<u32>,
        visited: &mut Vec<u64>,
        Ghost(fuel): Ghost<nat>,
    ) -> (r: (Vec<u32>, Vec<(u32, Span)>))
        requires
            program_wf(fns@),
            unvisited_count(fns@.len() as nat, old(visited)@.to_set()) < fuel,
        ensures
            (r.0@.to_set(), spans_view(r.1@), final(visited)@.to_set()) == fn_info(
                fns@,
                *self,
                fuel,
                f,
                tainted_get_map@.to_set(),
                tainted_get_lazy@.to_set(),
                old(visited)@.to_set(),
            ),
            keys_distinct(r.1@),
            old(visited)@.to_set().subset_of(final(visited)@.to_set()),
            list_extends(old(visited)@, final(visited)@),
            old(visited)@.no_duplicates() ==> final(visited)@.no_duplicates(),
            old(visited)@.contains(f) || f >= fns@.len() ==> final(visited)@ == old(visited)@,
            !old(visited)@.contains(f) && f < fns@.len() ==> final(visited)@.len() > old(
                visited,
            )@.len() && final(visited)@[old(visited)@.len() as int] == f,
        decreases fuel, 1nat,
    {
        let ghost v_old = visited@;
        if contains_fn(visited, f) || f >= fns.len() as u64 {
            let r: (Vec<u32>, Vec<(u32, Span)>) = (Vec::new(), Vec::new());
            assert(r.0@.to_set() =~= Set::<u32>::empty());
            assert(spans_view(r.1@) =~= Map::<u32, Span>::empty());
            return r;
        }
        let ghost n = fns@.len() as nat;
        let ghost v0 = visited@.to_set();
        proof {
            visited@.lemma_push_to_set_commute(f);
            lemma_unvisited_insert(n, v0, f);
            lemma_push_extends_distinct(visited@, f);
        }
        visited.push(f);
        let ghost v1 = visited@;
        proof {
            lemma_extends_refl(v1);
        }
        let body = &fns[f as usize];
        assert(body_wf(*body));
        let mut mg = copy_locals(tainted_get_map);
        let mut lg = copy_locals(tainted_get_lazy);
        let mut spans: Vec<(u32, Span)> = Vec::new();
        let mut deps: Vec<(u32, Vec<u32>)> = Vec::new();
        let mut to_clean: Vec<u32> = Vec::new();
        let ghost st0 = LazyState {
            mapping_tainted: tainted_get_map@.to_set(),
            lazy_tainted: tainted_get_lazy@.to_set(),
            spans: Map::empty(),
            deps: Map::empty(),
            to_clean: Set::empty(),
            visited: v0.insert(f),
        };
        assert(state_of(mg@, lg@, spans@, deps@, to_clean@, visited@) == st0) by {
            assert(to_clean@.to_set() =~= Set::<u32>::empty());
            assert(spans_view(spans@) =~= Map::<u32, Span>::empty());
            assert(deps_view(deps@) =~= Map::<u32, Seq<u32>>::empty());
        }
        let mut i: usize = 0;
        while i < body.preorder.len()
            invariant
                0 <= i <= body.preorder@.len(),
                body == &fns@[f as int],
                body_wf(*body),
                program_wf(fns@),
                n == fns@.len(),
                v0.insert(f).subset_of(visited@.to_set()),
                unvisited_count(n, v0.insert(f)) + 1 < fuel,
                keys_distinct(spans@),
                list_extends(v_old, v1),
                v1 == v_old.push(f),
                list_extends(v1, visited@),
                v_old.no_duplicates() ==> visited@.no_duplicates(),
                state_of(mg@, lg@, spans@, deps@, to_clean@, visited@) == blocks_info(
                    fns@,
                    *self,
                    fuel,
                    *body,
                    i as nat,
                    st0,
                ),
            decreases body.preorder@.len() - i,
        {
            let b = body.preorder[i];
            assert(b < body.blocks@.len());
            let bb = &body.blocks[b];
            let ghost prev = state_of(mg@, lg@, spans@, deps@, to_clean@, visited@);
            process_statements(&bb.statements, &mut mg, &mut lg, &mut deps, Ghost(prev));
            assert(state_of(mg@, lg@, spans@, deps@, to_clean@, visited@) == lazy_statements(
                bb.statements@,
                prev,
            ));
            proof {
                lemma_unvisited_mono(n, v0.insert(f), visited@.to_set());
                assert(call_args_fit(body.blocks@[b as int].terminator));
            }
            let ghost before = visited@;
            self.process_terminator(
                fns,
                &bb.terminator,
                &mut mg,
                &mut lg,
                &mut spans,
                &mut deps,
                &mut to_clean,
                visited,
                Ghost(fuel),
            );
            proof {
                lemma_extends_trans(v1, before, visited@);
            }
            i = i + 1;
        }
        let ghost st = state_of(mg@, lg@, spans@, deps@, to_clean@, visited@);
        proof {
            lemma_extends_trans(v_old, v1, visited@);
            assert(visited@.subrange(0, v1.len() as int)[v_old.len() as int] == v1[v_old.len() as int]);
        }
        let closure = upward_closure_exec(&deps, &to_clean);
        let ghost clean = upward_closure(st.deps, st.to_clean);
        let mut k: usize = 0;
        assert(closure@.take(0).to_set() =~= Set::<u32>::empty());
        assert(st.spans.remove_keys(Set::<u32>::empty()) =~= st.spans);
        while k < closure.len()
            invariant
                0 <= k <= closure@.len(),
                keys_distinct(spans@),
                spans_view(spans@) == st.spans.remove_keys(closure@.take(k as int).to_set()),
            decreases closure@.len() - k,
        {
            let ghost before = spans_view(spans@);
            let next = spans_remove(&spans, closure[k]);
            spans = next;
            proof {
                closure@.take(k as int).lemma_push_to_set_commute(closure@[k as int]);
                assert(closure@.take(k + 1) =~= closure@.take(k as int).push(closure@[k as int]));
            }
            assert(spans_view(spans@) =~= st.spans.remove_keys(closure@.take(k + 1).to_set()));
            k = k + 1;
        }
        assert(closure@.take(closure@.len() as int) =~= closure@);
        let mut cleaned: Vec<u32> = Vec::new();
        let mut j: usize = 0;
        while j < closure.len()
            invariant
                0 <= j <= closure@.len(),
                cleaned@.to_set() == Set::new(
                    |l: u32| closure@.take(j as int).to_set().contains(l) && l <= body.arg_count,
                ),
            decreases closure@.len() - j,
        {
            let ghost before = cleaned@;
            proof {
                closure@.take(j as int).lemma_push_to_set_commute(closure@[j as int]);
                assert(closure@.take(j + 1) =~= closure@.take(j as int).push(closure@[j as int]));
            }
            if closure[j] <= body.arg_count {
                proof {
                    before.lemma_push_to_set_commute(closure@[j as int]);
                }
                cleaned.push(closure[j]);
            }
            assert(cleaned@.to_set() =~= Set::new(
                |l: u32| closure@.take(j + 1).to_set().contains(l) && l <= body.arg_count,
            ));
            j = j + 1;
        }
        assert(cleaned@.to_set() =~= Set::new(|l: u32| clean.contains(l) && l <= body.arg_count));
        (cleaned, spans)
    }

    /// The analysis of function `f` of the crate, entered with the argument
    /// positions `tainted_get_map` and `tainted_get_lazy` holding mapping and
    /// lazy reads, with the functions `visited_funs` analysed before: the
    /// argument positions whose value is written back, and each read never
    /// written back, by the local that holds it, with the span of the read.
    /// The list of analysed functions keeps its entries in front: it stays as
    /// it was when `f` was analysed before (or lies outside the crate), and
    /// otherwise `f` comes next, followed by the functions first analysed
    /// below it; a list without repeats stays without repeats.
    pub fn get_func_info(
        &self,
        fns: &Vec<FnBody>,
        f: u64,
        tainted_get_map: &Vec<u32>,
        tainted_get_lazy: &Vec<u32>,
        visited_funs: &mut Vec<u64>,
    ) -> (r: (Vec<u32>, Vec<(u32, Span)>))
        requires
            program_wf(fns@),
        ensures
            (r.0@.to_set(), spans_view(r.1@), final(visited_funs)@.to_set()) == fn_info(
                fns@,
                *self,
                unvisited_count(fns@.len() as nat, old(visited_funs)@.to_set()) + 1,
                f,
                tainted_get_map@.to_set(),
                tainted_get_lazy@.to_set(),
                old(visited_funs)@.to_set(),
            ),
            keys_distinct(r.1@),
            old(visited_funs)@.to_set().subset_of(final(visited_funs)@.to_set()),
            old(visited_funs)@.contains(f) ==> final(visited_funs)@ == old(visited_funs)@,
            f >= fns@.len() ==> final(visited_funs)@ == old(visited_funs)@,
            !old(visited_funs)@.contains(f) && f < fns@.len() ==> final(visited_funs)@.len() > old(
                visited_funs,
            )@.len() && final(visited_funs)@[old(visited_funs)@.len() as int] == f,
            list_extends(old(visited_funs)@, final(visited_funs)@),
            old(visited_funs)@.no_duplicates() ==> final(visited_funs)@.no_duplicates(),
    {
        let ghost fuel = unvisited_count(fns@.len() as nat, visited_funs@.to_set()) + 1;
        self.func_info(fns, f, tainted_get_map, tainted_get_lazy, visited_funs, Ghost(fuel))
    }
}


/// The definition path of `ink_storage`'s `Lazy`.
pub open spec fn lazy_type_path() -> Seq<Seq<char>> {
    seq!["ink_storage"@, "lazy"@, "Lazy"@]
}

/// The definition path of `ink_storage`'s `Mapping`.
pub open spec fn mapping_type_path() -> Seq<Seq<char>> {
    seq!["ink_storage"@, "lazy"@, "mapping"@, "Mapping"@]
}

/// Whether a method name reads or writes a lazy value (contains `get`, `set`
/// or `insert`).
pub open spec fn is_access_name(name: Seq<char>) -> bool {
    contains_text(name, "get"@) || contains_text(name, "set"@) || contains_text(name, "insert"@)
}

/// The visitor that finds the functions reading and writing lazy values and
/// mappings, from the method calls of a body.
#[derive(Clone, Copy, Debug)]
pub struct FunFinderVisitor {
    pub lazy_set_defid: Option<u64>,
    pub lazy_get_defid: Option<u64>,
    pub mapping_insert_defid: Option<u64>,
    pub mapping_get_defid: Option<u64>,
}

fn path_is(path: &Vec<String>, expected: &Vec<&str>) -> (b: bool)
    ensures
        b == (views(path@) == expected@.map_values(|s: &str| s@)),
{
    if path.len() != expected.len() {
        assert(views(path@).len() != expected@.map_values(|s: &str| s@).len());
        return false;
    }
    let mut i: usize = 0;
    while i < path.len()
        invariant
            0 <= i <= path@.len(),
            path@.len() == expected@.len(),
            forall|j: int| 0 <= j < i ==> path@[j]@ == expected@[j]@,
        decreases path@.len() - i,
    {
        if !text_eq(path[i].as_str(), expected[i]) {
            assert(views(path@)[i as int] != expected@.map_values(|s: &str| s@)[i as int]);
            return false;
        }
        i = i + 1;
    }
    assert(views(path@) =~= expected@.map_values(|s: &str| s@));
    true
}

impl FunFinderVisitor {
    /// Nothing found yet.
    pub fn new() -> (r: Self)
        ensures
            r.lazy_set_defid is None,
            r.lazy_get_defid is None,
            r.mapping_insert_defid is None,
            r.mapping_get_defid is None,
    {
        FunFinderVisitor {
            lazy_set_defid: None,
            lazy_get_defid: None,
            mapping_insert_defid: None,
            mapping_get_defid: None,
        }
    }

    /// Visits a method call named `name` that resolves to `def_id`, on a
    /// receiver whose type is the ADT with definition path
    /// `receiver_path` (if it is an ADT): a call named like an access on a
    /// `Lazy` or a `Mapping` records its function, as a read when the name
    /// contains `get` and as a write otherwise.
    pub fn visit_method_call(
        &mut self,
        name: &str,
        def_id: Option<u64>,
        receiver_path: Option<&Vec<String>>,
    )
        ensures
            ({
                let o = *old(self);
                let get = contains_text(name@, "get"@);
                if !is_access_name(name@) || receiver_path is None {
                    *final(self) == o
                } else if views(receiver_path->0@) == lazy_type_path() {
                    *final(self) == if get {
                        FunFinderVisitor { lazy_get_defid: def_id, ..o }
                    } else {
                        FunFinderVisitor { lazy_set_defid: def_id, ..o }
                    }
                } else if views(receiver_path->0@) == mapping_type_path() {
                    *final(self) == if get {
                        FunFinderVisitor { mapping_get_defid: def_id, ..o }
                    } else {
                        FunFinderVisitor { mapping_insert_defid: def_id, ..o }
                    }
                } else {
                    *final(self) == o
                }
            }),
    {
        let get = text_contains(name, "get");
        if !(get || text_contains(name, "set") || text_contains(name, "insert")) {
            return;
        }
        if let Some(path) = receiver_path {
            let lazy_path: Vec<&str> = vec!["ink_storage", "lazy", "Lazy"];
            let mapping_path: Vec<&str> = vec!["ink_storage", "lazy", "mapping", "Mapping"];
            proof {
                assert(lazy_path@.map_values(|s: &str| s@) =~= lazy_type_path());
                assert(mapping_path@.map_values(|s: &str| s@) =~= mapping_type_path());
            }
            if path_is(path, &lazy_path) {
                if get {
                    self.lazy_get_defid = def_id;
                } else {
                    self.lazy_set_defid = def_id;
                }
            } else if path_is(path, &mapping_path) {
                if get {
                    self.mapping_get_defid = def_id;
                } else {
                    self.mapping_insert_defid = def_id;
                }
            }
        }
    }
}

/// `found` if it is known, `known` otherwise.
pub open spec fn found_or(found: Option<u64>, known: Option<u64>) -> Option<u64> {
    if found is Some {
        found
    } else {
        known
    }
}

impl LazyValuesNotSet {
    /// The detector before any function was checked.
    pub fn new() -> (r: Self)
        ensures
            r.lazy_set_defid is None,
            r.lazy_get_defid is None,
            r.mapping_insert_defid is None,
            r.mapping_get_defid is None,
    {
        LazyValuesNotSet {
            lazy_set_defid: None,
            lazy_get_defid: None,
            mapping_insert_defid: None,
            mapping_get_defid: None,
        }
    }

    /// Checks function `id` of the crate, once `finder` has visited its
    /// body: the functions it found replace the known ones, and the result
    /// is every read in the function (and the functions it calls) that is
    /// never written back, by the local holding it, each with the span of
    /// the read to report.
    pub fn check_fn(&mut self, finder: &FunFinderVisitor, fns: &Vec<FnBody>, id: u64) -> (r: Vec<(u32, Span)>)
        requires
            program_wf(fns@),
        ensures
            final(self).lazy_set_defid == found_or(finder.lazy_set_defid, old(self).lazy_set_defid),
            final(self).lazy_get_defid == found_or(finder.lazy_get_defid, old(self).lazy_get_defid),
            final(self).mapping_insert_defid == found_or(
                finder.mapping_insert_defid,
                old(self).mapping_insert_defid,
            ),
            final(self).mapping_get_defid == found_or(
                finder.mapping_get_defid,
                old(self).mapping_get_defid,
            ),
            spans_view(r@) == fn_info(
                fns@,
                *final(self),
                fns@.len() as nat + 1,
                id,
                Set::empty(),
                Set::empty(),
                Set::empty(),
            ).1,
            keys_distinct(r@),
    {
        if finder.lazy_set_defid.is_some() {
            self.lazy_set_defid = finder.lazy_set_defid;
        }
        if finder.lazy_get_defid.is_some() {
            self.lazy_get_defid = finder.lazy_get_defid;
        }
        if finder.mapping_insert_defid.is_some() {
            self.mapping_insert_defid = finder.mapping_insert_defid;
        }
        if finder.mapping_get_defid.is_some() {
            self.mapping_get_defid = finder.mapping_get_defid;
        }
        let mut visited: Vec<u64> = Vec::new();
        let empty: Vec<u32> = Vec::new();
        proof {
            assert(visited@.to_set() =~= Set::<u64>::empty());
            assert(empty@.to_set() =~= Set::<u32>::empty());
            lemma_unvisited_all(fns@.len() as nat);
        }
        let (_, spans) = self.get_func_info(fns, id, &empty, &empty, &mut visited);
        spans
    }
}

proof fn lemma_unvisited_all(n: nat)
    ensures
        unvisited_count(n, Set::empty()) == n,
    decreases n,
{
    if n > 0 {
        lemma_unvisited_all((n - 1) as nat);
    }
}


/// Block `b` of `body` ends in a call of the lazy or mapping read function
/// that stores its result in local `l`, at span `span`.
pub open spec fn read_call_at(defs: LazyValuesNotSet, body: FnBody, b: int, l: u32, span: Span) -> bool {
    &&& 0 <= b < body.blocks@.len()
    &&& match body.blocks@[b].terminator {
        Some(Terminator::Call { func, destination, fn_span, .. }) => match func {
            Operand::Constant(c) => c.fn_def is Some && (defs.lazy_get_defid == c.fn_def
                || defs.mapping_get_defid == c.fn_def) && destination.local == l && fn_span == span,
            _ => false,
        },
        _ => false,
    }
}

proof fn lemma_statements_keep_spans(stmts: Seq<Statement>, st: LazyState)
    ensures
        lazy_statements(stmts, st).spans == st.spans,
    decreases stmts.len(),
{
    if stmts.len() > 0 {
        lemma_statements_keep_spans(stmts.drop_last(), lazy_statement(stmts.last(), st));
    }
}

proof fn lemma_blocks_spans_from_reads(
    fns: Seq<FnBody>,
    defs: LazyValuesNotSet,
    fuel: nat,
    body: FnBody,
    k: nat,
    st0: LazyState,
)
    requires
        st0.spans == Map::<u32, Span>::empty(),
        k <= body.preorder@.len(),
    ensures
        forall|l: u32|
            #[trigger] blocks_info(fns, defs, fuel, body, k, st0).spans.contains_key(l) ==> exists|
                b: int,
            |
                #[trigger] read_call_at(
                    defs,
                    body,
                    b,
                    l,
                    blocks_info(fns, defs, fuel, body, k, st0).spans[l],
                ),
    decreases k,
{
    if k > 0 {
        lemma_blocks_spans_from_reads(fns, defs, fuel, body, (k - 1) as nat, st0);
        let prev = blocks_info(fns, defs, fuel, body, (k - 1) as nat, st0);
        let b = body.preorder@[k - 1];
        if b < body.blocks@.len() {
            let bb = body.blocks@[b as int];
            let mid = lazy_statements(bb.statements@, prev);
            lemma_statements_keep_spans(bb.statements@, prev);
            let next = terminator_info(fns, defs, fuel, bb.terminator, mid);
            assert forall|l: u32| #[trigger] next.spans.contains_key(l) implies exists|b2: int|
                #[trigger] read_call_at(defs, body, b2, l, next.spans[l]) by {
                if prev.spans.contains_key(l) && next.spans[l] == prev.spans[l] {
                } else {
                    assert(read_call_at(defs, body, b as int, l, next.spans[l]));
                }
            }
        }
    }
}

/// Every read the detector reports is a call of the lazy or mapping read
/// function in the analysed function's body, and the local it reports it by
/// is where that call stores its result.
pub proof fn lemma_reports_are_reads(
    fns: Seq<FnBody>,
    defs: LazyValuesNotSet,
    fuel: nat,
    f: u64,
    mt: Set<u32>,
    lt: Set<u32>,
    visited: Set<u64>,
    l: u32,
)
    requires
        fn_info(fns, defs, fuel, f, mt, lt, visited).1.contains_key(l),
    ensures
        0 <= f < fns.len(),
        exists|b: int|
            #[trigger] read_call_at(
                defs,
                fns[f as int],
                b,
                l,
                fn_info(fns, defs, fuel, f, mt, lt, visited).1[l],
            ),
{
    let body = fns[f as int];
    let st0 = LazyState {
        mapping_tainted: mt,
        lazy_tainted: lt,
        spans: Map::empty(),
        deps: Map::empty(),
        to_clean: Set::empty(),
        visited: visited.insert(f),
    };
    lemma_blocks_spans_from_reads(fns, defs, fuel, body, body.preorder@.len(), st0);
    let st = blocks_info(fns, defs, fuel, body, body.preorder@.len(), st0);
    assert(st.spans.contains_key(l));
    let b = choose|b: int| read_call_at(defs, body, b, l, st.spans[l]);
    assert(fn_info(fns, defs, fuel, f, mt, lt, visited).1[l] == st.spans[l]);
    assert(read_call_at(defs, body, b, l, fn_info(fns, defs, fuel, f, mt, lt, visited).1[l]));
}

/// Without a known read function, nothing is reported.
pub proof fn lemma_no_reads_no_reports(
    fns: Seq<FnBody>,
    defs: LazyValuesNotSet,
    fuel: nat,
    f: u64,
    mt: Set<u32>,
    lt: Set<u32>,
    visited: Set<u64>,
)
    requires
        defs.lazy_get_defid is None,
        defs.mapping_get_defid is None,
    ensures
        fn_info(fns, defs, fuel, f, mt, lt, visited).1 == Map::<u32, Span>::empty(),
{
    let m = fn_info(fns, defs, fuel, f, mt, lt, visited).1;
    assert forall|l: u32| !m.contains_key(l) by {
        if m.contains_key(l) {
            lemma_reports_are_reads(fns, defs, fuel, f, mt, lt, visited, l);
        }
    }
    assert(m =~= Map::<u32, Span>::empty());
}

/// A read whose local is written back, directly or through the locals it
/// was computed from, is not reported.
pub proof fn lemma_written_back_not_reported(
    fns: Seq<FnBody>,
    defs: LazyValuesNotSet,
    fuel: nat,
    f: u64,
    mt: Set<u32>,
    lt: Set<u32>,
    visited: Set<u64>,
    l: u32,
)
    requires
        !visited.contains(f),
        f < fns.len(),
        fuel > 0,
        ({
            let body = fns[f as int];
            let st = blocks_info(
                fns,
                defs,
                fuel,
                body,
                body.preorder@.len(),
                LazyState {
                    mapping_tainted: mt,
                    lazy_tainted: lt,
                    spans: Map::empty(),
                    deps: Map::empty(),
                    to_clean: Set::empty(),
                    visited: visited.insert(f),
                },
            );
            upward_closure(st.deps, st.to_clean).contains(l)
        }),
    ensures
        !fn_info(fns, defs, fuel, f, mt, lt, visited).1.contains_key(l),
{
}

} // verus!
