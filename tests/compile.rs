use jitcalc::engine::{Execution, Phase, Step};
use jitcalc::ops::{translate, Op};
use jitcalc::{Jit, JitError, Soln1, Soln2};

const PROLOGUE: [u8; 7] = [0x48, 0xc7, 0xc0, 0x00, 0x00, 0x00, 0x00];
const INC: [u8; 3] = [0x48, 0xff, 0xc0];
const DEC: [u8; 3] = [0x48, 0xff, 0xc8];
const SAL: [u8; 3] = [0x48, 0xd1, 0xe0];
const SAR: [u8; 3] = [0x48, 0xd1, 0xf8];

fn routine(parts: &[[u8; 3]]) -> Vec<u8> {
    let mut code = PROLOGUE.to_vec();
    for p in parts {
        code.extend_from_slice(p);
    }
    code.push(0xc3);
    code
}

#[test]
fn three_increments() {
    assert_eq!(Soln2::jit("+++").unwrap(), routine(&[INC, INC, INC]));
}

#[test]
fn increments_then_decrements() {
    assert_eq!(Soln2::jit("+++--").unwrap(), routine(&[INC, INC, INC, DEC, DEC]));
}

#[test]
fn doubling_zero_stays_zero() {
    assert_eq!(Soln2::jit("**").unwrap(), routine(&[SAL, SAL]));
}

#[test]
fn increment_then_double() {
    assert_eq!(Soln2::jit("+*").unwrap(), routine(&[INC, SAL]));
}

#[test]
fn increment_then_halve() {
    assert_eq!(Soln2::jit("+/").unwrap(), routine(&[INC, SAR]));
}

#[test]
fn halving_follows_decrements() {
    assert_eq!(Soln2::jit("---/").unwrap(), routine(&[DEC, DEC, DEC, SAR]));
}

#[test]
fn empty_program_is_zero() {
    assert_eq!(Soln2::jit("").unwrap(), routine(&[]));
}

#[test]
fn unknown_symbol_is_refused() {
    assert!(matches!(Soln2::jit("a"), Err(JitError::InvalidSymbol('a'))));
    assert!(matches!(Soln1::compile("a"), Err(JitError::InvalidSymbol('a'))));
}

#[test]
fn first_unknown_symbol_is_named() {
    assert!(matches!(Soln2::jit("+ x-y"), Err(JitError::InvalidSymbol('x'))));
    assert!(matches!(Soln1::compile("+ x-y"), Err(JitError::InvalidSymbol('x'))));
    assert!(matches!(translate("++9"), Err(JitError::InvalidSymbol('9'))));
}

#[test]
fn whitespace_is_skipped() {
    assert_eq!(Soln2::jit(" +\t+\n+ ").unwrap(), routine(&[INC, INC, INC]));
    assert_eq!(translate("\u{3000}-\u{a0}*").unwrap(), vec![Op::Decrement, Op::Double]);
}

#[test]
fn translation_keeps_order() {
    assert_eq!(
        translate("+-*/").unwrap(),
        vec![Op::Increment, Op::Decrement, Op::Double, Op::HalveSigned]
    );
    assert_eq!(translate("").unwrap(), Vec::<Op>::new());
}

#[test]
fn assembly_text_lists_each_operation() {
    assert_eq!(
        Soln1::compile("+-*/").unwrap(),
        "movq $0, %rax\ninc %rax\ndec %rax\nsal $1, %rax\nsar $1, %rax\nret\n"
    );
    assert_eq!(Soln1::compile(" + ").unwrap(), "movq $0, %rax\ninc %rax\nret\n");
}

#[test]
fn assembly_text_of_empty_program() {
    assert_eq!(Soln1::compile("").unwrap(), "movq $0, %rax\n\nret\n");
}

#[test]
fn both_compilers_accept_the_same_programs() {
    for p in ["", "+", "+-*/", " * / ", "+a", "\u{2003}-"] {
        assert_eq!(Soln1::compile(p).is_ok(), Soln2::jit(p).is_ok());
    }
}

#[test]
fn same_program_twice_gives_same_code() {
    let a = Soln2::jit("++*-/").unwrap();
    let b = Soln2::jit("++*-/").unwrap();
    assert_eq!(a, b);
    assert_eq!(a, routine(&[INC, INC, SAL, DEC, SAR]));
    assert_eq!(Soln1::compile("++*-/").unwrap(), Soln1::compile("++*-/").unwrap());
}

#[test]
fn code_length_follows_operation_count() {
    for n in 0..200usize {
        let program = "+".repeat(n);
        let code = Soln2::jit(&program).unwrap();
        assert_eq!(code.len(), 7 + 3 * n + 1);
        assert_eq!(code[code.len() - 1], 0xc3);
    }
}

#[test]
fn whole_session_of_engine_steps() {
    for v in [0i64, 1, -1, i64::MAX, i64::MIN] {
        let (mut exec, step) = Execution::start(&[0xc3]);
        assert!(matches!(step, Step::MapRegion(1)));
        assert!(matches!(exec.mapped(true), Step::CopyAndCall));
        assert!(matches!(exec.returned(v), Step::Unmap(1)));
        match exec.unmapped(0) {
            Step::Finish(Ok(r)) => assert_eq!(r, v),
            _ => panic!("expected a value"),
        }
    }
}

#[test]
fn engine_reports_refused_mapping() {
    let (mut exec, step) = Execution::start(&[0xc3, 0x90]);
    assert!(matches!(step, Step::MapRegion(2)));
    assert!(matches!(exec.mapped(false), Step::Finish(Err(JitError::MmapFailure(2)))));
    assert_eq!(exec.phase, Phase::Finished);
}

#[test]
fn engine_releases_after_call() {
    let (mut exec, _) = Execution::start(&[0xc3]);
    assert!(matches!(exec.mapped(true), Step::CopyAndCall));
    assert!(matches!(exec.returned(-7), Step::Unmap(1)));
    assert!(matches!(exec.unmapped(0), Step::Finish(Ok(-7))));
    assert_eq!(exec.phase, Phase::Finished);
}

#[test]
fn engine_reports_failed_release() {
    let (mut exec, _) = Execution::start(&[0xc3]);
    exec.mapped(true);
    exec.returned(5);
    assert!(matches!(exec.unmapped(-1), Step::Finish(Err(JitError::MmapFailure(usize::MAX)))));
}

#[test]
fn io_error_converts() {
    let e = std::io::Error::new(std::io::ErrorKind::NotFound, "gone");
    assert!(matches!(JitError::from(e), JitError::IoError(_)));
}

#[test]
fn messages_name_the_failure() {
    assert_eq!(JitError::InvalidSymbol('a').message(), "invalid symbol: a");
    assert_eq!(JitError::AsmFailure(1).message(), "failed to assemble program: 1");
    assert_eq!(JitError::AsmFailure(-3).message(), "failed to assemble program: -3");
    assert_eq!(JitError::BinFailure(127).message(), "failed to extract binary from ELF: 127");
    assert_eq!(
        JitError::MmapFailure(4096).message(),
        "failed to allocate or free mmap region with size 4096"
    );
    let e = std::io::Error::new(std::io::ErrorKind::Other, "disk on fire");
    assert_eq!(JitError::IoError(e).message(), "disk on fire");
}
