use cargo_scout_audit::mir::{BasicBlock, Constant, Operand, Place, Rvalue, Span, Statement, Terminator};
use cargo_scout_audit::reentrancy::Reentrancy;
use cargo_scout_audit::self_destruct::UnprotectedSelfDestruct;
use cargo_scout_audit::storage_ops::{UnexpectedRevertWarn, UnprotectedMappingOperation};
use cargo_scout_audit::transfer_from::UnrestrictedTransferFrom;

const CALLER: u64 = 1;
const INSERT: u64 = 2;
const REMOVE: u64 = 3;
const TAKE: u64 = 4;
const PUSH: u64 = 7;
const TERMINATE: u64 = 8;
const ALLOW: u64 = 10;
const INVOKE: u64 = 11;
const SELECTOR: u64 = 20;
const PUSH_ARG: u64 = 21;

fn place(local: u32) -> Place {
    Place { local, projection: 0 }
}

fn span(lo: u32) -> Span {
    Span { lo, hi: lo + 1 }
}

fn func(f: u64) -> Operand {
    Operand::Constant(Constant { fn_def: Some(f), bool_value: None })
}

fn flag(b: bool) -> Operand {
    Operand::Constant(Constant { fn_def: None, bool_value: Some(b) })
}

fn call(f: u64, args: Vec<Operand>, dest: u32, target: Option<usize>, lo: u32) -> BasicBlock {
    call_after(vec![], f, args, dest, target, lo)
}

fn call_after(
    statements: Vec<Statement>,
    f: u64,
    args: Vec<Operand>,
    dest: u32,
    target: Option<usize>,
    lo: u32,
) -> BasicBlock {
    BasicBlock {
        statements,
        terminator: Some(Terminator::Call {
            func: func(f),
            args,
            destination: place(dest),
            target,
            fn_span: span(lo),
        }),
    }
}

fn exit() -> BasicBlock {
    BasicBlock { statements: vec![], terminator: Some(Terminator::Exit) }
}

fn branch_on(statements: Vec<Statement>, local: u32, targets: Vec<usize>) -> BasicBlock {
    BasicBlock {
        statements,
        terminator: Some(Terminator::SwitchInt { discr: Operand::Copy(place(local)), targets }),
    }
}

fn copy_into(dst: u32, src: u32) -> Statement {
    Statement::Assign(place(dst), Rvalue::Use(Operand::Copy(place(src))))
}

fn mapping(bbs: &Vec<BasicBlock>) -> Vec<Span> {
    UnprotectedMappingOperation::new().unprotected_operations(
        bbs,
        Some(CALLER),
        Some(INSERT),
        Some(REMOVE),
        Some(TAKE),
    )
}

#[test]
fn mapping_insert_without_caller_check_is_reported() {
    let bbs = vec![call(INSERT, vec![Operand::Move(place(1)), Operand::Move(place(2))], 5, Some(1), 10), exit()];
    assert_eq!(mapping(&bbs), vec![span(10)]);
}

#[test]
fn mapping_operations_after_a_caller_check_are_not_reported() {
    let bbs = vec![
        call(CALLER, vec![], 3, Some(1), 5),
        branch_on(vec![copy_into(4, 3)], 4, vec![2, 3]),
        call(REMOVE, vec![Operand::Move(place(1)), Operand::Move(place(2))], 6, Some(3), 20),
        exit(),
    ];
    assert_eq!(mapping(&bbs), vec![]);
}

#[test]
fn mapping_keyed_by_the_caller_is_not_reported() {
    let bbs = vec![
        call(CALLER, vec![], 3, Some(1), 5),
        call(TAKE, vec![Operand::Move(place(1)), Operand::Copy(place(3))], 6, Some(2), 20),
        call(INSERT, vec![Operand::Move(place(1)), Operand::Move(place(9))], 7, Some(3), 30),
        exit(),
    ];
    assert_eq!(mapping(&bbs), vec![span(30)]);
}

#[test]
fn mapping_without_operations_reports_nothing() {
    let bbs = vec![call(CALLER, vec![], 3, Some(1), 5), exit()];
    assert_eq!(mapping(&bbs), vec![]);
    assert_eq!(mapping(&vec![exit()]), vec![]);
}

#[test]
fn unchecked_push_is_reported_only_without_caller_queries() {
    let bbs = vec![call(PUSH, vec![Operand::Move(place(1)), Operand::Move(place(2))], 5, Some(1), 12), exit()];
    let d = UnexpectedRevertWarn::new();
    assert_eq!(d.unprotected_pushes(&bbs, &vec![], Some(PUSH)), vec![span(12)]);
    assert_eq!(d.unprotected_pushes(&bbs, &vec![CALLER], Some(PUSH)), vec![]);
    assert_eq!(d.unprotected_pushes(&bbs, &vec![], None), vec![]);
}

#[test]
fn self_destruct_checks() {
    let d = UnprotectedSelfDestruct::new();
    // No caller query at all: every termination is reported.
    let bare = vec![call(TERMINATE, vec![Operand::Move(place(1))], 2, Some(1), 50), exit()];
    assert_eq!(d.unprotected_terminations(&bare, Some(CALLER), Some(TERMINATE)), vec![span(50)]);
    // A check of the caller before the termination.
    let checked = vec![
        call(CALLER, vec![], 3, Some(1), 5),
        branch_on(vec![copy_into(4, 3)], 4, vec![2, 3]),
        call(TERMINATE, vec![Operand::Move(place(1))], 6, Some(3), 60),
        exit(),
    ];
    assert_eq!(d.unprotected_terminations(&checked, Some(CALLER), Some(TERMINATE)), vec![]);
    // The caller is asked for, but the termination comes before the check.
    let early = vec![
        call(CALLER, vec![], 3, Some(1), 5),
        call(TERMINATE, vec![Operand::Move(place(1))], 6, Some(2), 70),
        branch_on(vec![copy_into(4, 3)], 4, vec![3]),
        exit(),
    ];
    assert_eq!(d.unprotected_terminations(&early, Some(CALLER), Some(TERMINATE)), vec![span(70)]);
    assert_eq!(d.unprotected_terminations(&bare, Some(CALLER), None), vec![]);
}

#[test]
fn reentrancy_after_allowing_reentry() {
    let d = Reentrancy::new();
    let bbs = vec![
        call(ALLOW, vec![Operand::Move(place(1)), flag(true)], 5, Some(1), 5),
        call_after(
            vec![Statement::Assign(place(6), Rvalue::Ref(place(5)))],
            INVOKE,
            vec![Operand::Move(place(6))],
            7,
            Some(2),
            30,
        ),
        exit(),
    ];
    assert_eq!(d.reentrant_calls(&bbs, Some(ALLOW), Some(INVOKE)), vec![span(30)]);
    let off = vec![
        call(ALLOW, vec![Operand::Move(place(1)), flag(false)], 5, Some(1), 5),
        call_after(
            vec![Statement::Assign(place(6), Rvalue::Ref(place(5)))],
            INVOKE,
            vec![Operand::Move(place(6))],
            7,
            Some(2),
            30,
        ),
        exit(),
    ];
    assert_eq!(d.reentrant_calls(&off, Some(ALLOW), Some(INVOKE)), vec![]);
    // An invocation with an unrelated argument is not reported.
    let unrelated = vec![
        call(ALLOW, vec![Operand::Move(place(1)), flag(true)], 5, Some(1), 5),
        call(INVOKE, vec![Operand::Move(place(9))], 7, Some(2), 30),
        exit(),
    ];
    assert_eq!(d.reentrant_calls(&unrelated, Some(ALLOW), Some(INVOKE)), vec![]);
}

#[test]
fn transfer_from_with_caller_arguments() {
    let d = UnrestrictedTransferFrom::new();
    let bbs = vec![
        call(SELECTOR, vec![], 3, Some(1), 5),
        call(PUSH_ARG, vec![Operand::Move(place(3)), Operand::Copy(place(1))], 4, Some(2), 40),
        exit(),
    ];
    assert_eq!(d.tainted_transfer_args(&bbs, 1, false, Some(SELECTOR), Some(PUSH_ARG)), vec![span(40)]);
    assert_eq!(d.tainted_transfer_args(&bbs, 1, true, Some(SELECTOR), Some(PUSH_ARG)), vec![]);
    assert_eq!(d.tainted_transfer_args(&bbs, 0, false, Some(SELECTOR), Some(PUSH_ARG)), vec![]);
    assert_eq!(d.tainted_transfer_args(&bbs, 1, false, None, Some(PUSH_ARG)), vec![]);
    // Taint spreads through assignments: local 5 copies argument 2.
    let spread = vec![
        call(SELECTOR, vec![], 3, Some(1), 5),
        call_after(
            vec![copy_into(5, 2)],
            PUSH_ARG,
            vec![Operand::Copy(place(5)), Operand::Copy(place(2))],
            4,
            Some(2),
            41,
        ),
        exit(),
    ];
    assert_eq!(
        d.tainted_transfer_args(&spread, 2, false, Some(SELECTOR), Some(PUSH_ARG)),
        vec![span(41), span(41)]
    );
}
