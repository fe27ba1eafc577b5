use brainv::compiler::{Compiler, SyntaxError};
use brainv::ops::Op;

#[test]
fn empty_source_compiles_to_empty_program() {
    let ops = Compiler::new("").compile().unwrap();
    assert_eq!(ops, vec![]);
}

#[test]
fn folds_consecutive_increments() {
    let ops = Compiler::new("+++").compile().unwrap();
    assert_eq!(ops, vec![Op::Inc(3)]);
}

#[test]
fn folds_across_ignored_characters() {
    let ops = Compiler::new("+ comment +").compile().unwrap();
    assert_eq!(ops, vec![Op::Inc(2)]);
}

#[test]
fn distinct_kinds_do_not_fold() {
    let ops = Compiler::new("+-><").compile().unwrap();
    assert_eq!(ops, vec![Op::Inc(1), Op::Dec(1), Op::MovR(1), Op::MovL(1)]);
}

#[test]
fn io_ops_are_singletons() {
    let ops = Compiler::new("..,,").compile().unwrap();
    assert_eq!(ops, vec![Op::Print, Op::Print, Op::Read, Op::Read]);
}

#[test]
fn brackets_resolve_mutually() {
    let ops = Compiler::new("+[-]").compile().unwrap();
    assert_eq!(ops, vec![Op::Inc(1), Op::JmpIfZ(3), Op::Dec(1), Op::JmpIfNZ(1)]);
}

#[test]
fn nested_brackets_resolve_mutually() {
    let ops = Compiler::new("[[]]").compile().unwrap();
    assert_eq!(
        ops,
        vec![Op::JmpIfZ(3), Op::JmpIfZ(2), Op::JmpIfNZ(1), Op::JmpIfNZ(0)]
    );
    for (i, op) in ops.iter().enumerate() {
        match op {
            Op::JmpIfZ(t) => assert_eq!(ops[*t], Op::JmpIfNZ(i)),
            Op::JmpIfNZ(t) => assert_eq!(ops[*t], Op::JmpIfZ(i)),
            _ => {}
        }
    }
}

#[test]
fn lone_open_bracket_is_rejected() {
    let r = Compiler::new("[").compile();
    assert_eq!(r, Err(SyntaxError::UnmatchedOpen));
}

#[test]
fn lone_close_bracket_is_rejected() {
    let r = Compiler::new("]").compile();
    assert_eq!(r, Err(SyntaxError::UnmatchedClose));
}

#[test]
fn no_partial_output_on_failure() {
    let r = Compiler::new("+++]").compile();
    assert_eq!(r, Err(SyntaxError::UnmatchedClose));
}

#[test]
fn long_run_splits_at_the_cap() {
    let src: String = std::iter::repeat('+').take(300).collect();
    let ops = Compiler::new(&src).compile().unwrap();
    assert!(ops.len() >= 2);
    assert_eq!(ops, vec![Op::Inc(255), Op::Inc(45)]);
    let total: u32 = ops
        .iter()
        .map(|op| match op {
            Op::Inc(n) => *n as u32,
            _ => panic!("unexpected op"),
        })
        .sum();
    assert_eq!(total, 300);
}

#[test]
fn compilation_is_deterministic() {
    let src = "++[>+<-]>.";
    let a = Compiler::new(src).compile().unwrap();
    let b = Compiler::new(src).compile().unwrap();
    assert_eq!(a, b);
}

#[test]
fn op_text_renders_kind_and_operand() {
    assert_eq!(Op::Inc(5).text(), "Inc by 5");
    assert_eq!(Op::Dec(255).text(), "Dec by 255");
    assert_eq!(Op::MovR(10).text(), "MovR by 10");
    assert_eq!(Op::MovL(1).text(), "MovL by 1");
    assert_eq!(Op::JmpIfZ(1234).text(), "JmpIfZ to 1234");
    assert_eq!(Op::JmpIfNZ(0).text(), "JmpIfNZ to 0");
    assert_eq!(Op::Nop.text(), "Nop");
    assert_eq!(Op::Print.text(), "Print");
    assert_eq!(Op::Read.text(), "Read");
}
