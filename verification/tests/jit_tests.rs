use brainv::compiler::Compiler;
use brainv::io::MemoryIO;
use brainv::jit::JIT;
use brainv::runtime::{Runtime, JIT_TAPE_LEN};

#[test]
fn lowering_yields_an_entry_point() {
    let code = Compiler::new("++[>+<-]>.").compile().unwrap();
    let mut jit = JIT::new(code);
    let entry = jit.compile().unwrap();
    assert!(entry != 0);
}

#[test]
fn empty_program_lowers() {
    let mut jit = JIT::new(vec![]);
    let entry = jit.compile().unwrap();
    assert!(entry != 0);
}

#[test]
fn runtime_owns_a_zeroed_fixed_tape() {
    let io = MemoryIO::new(vec![]);
    let rt = Runtime::new(io, vec![0xC3]);
    let tape = rt.tape();
    assert_eq!(tape.len(), JIT_TAPE_LEN);
    assert!(tape.iter().all(|&c| c == 0));
}

#[test]
fn runtime_hands_its_parts_back_unchanged() {
    let io = MemoryIO::new(vec![7]);
    let rt = Runtime::new(io, vec![1, 2, 3]);
    let (tape, _io, code) = rt.into_parts();
    assert_eq!(tape.len(), JIT_TAPE_LEN);
    assert_eq!(code, vec![1, 2, 3]);
}
