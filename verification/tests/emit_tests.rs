use brainv::compiler::Compiler;
use brainv::emit::{compile_native, emit_x86_64, Arch, EmitError};
use brainv::ops::Op;

const PROLOGUE: [u8; 24] = [
    0x41, 0x54, // push r12
    0x41, 0x55, // push r13
    0x41, 0x56, // push r14
    0x41, 0x57, // push r15
    0x48, 0x83, 0xEC, 0x08, // sub rsp, 8: call sites need a 16-byte-aligned stack
    0x49, 0x89, 0xFD, // mov r13, rdi
    0x49, 0x89, 0xF6, // mov r14, rsi
    0x49, 0x89, 0xD7, // mov r15, rdx
    0x49, 0x89, 0xCC, // mov r12, rcx
];

const EPILOGUE: [u8; 18] = [
    0x41, 0x0F, 0xB6, 0x45, 0x00, // movzx eax, byte [r13]
    0x48, 0x83, 0xC4, 0x08, // add rsp, 8
    0x41, 0x5F, // pop r15
    0x41, 0x5E, // pop r14
    0x41, 0x5D, // pop r13
    0x41, 0x5C, // pop r12
    0xC3, // ret
];

#[test]
fn empty_program_is_prologue_and_epilogue() {
    let bytes = emit_x86_64(&vec![]);
    assert_eq!(bytes.len(), 42);
    assert_eq!(&bytes[..24], &PROLOGUE);
    assert_eq!(&bytes[24..], &EPILOGUE);
}

#[test]
fn increment_encodes_at_its_offset() {
    let bytes = emit_x86_64(&vec![Op::Inc(7)]);
    assert_eq!(&bytes[24..29], &[0x41, 0x80, 0x45, 0x00, 0x07]);
    assert_eq!(bytes.len(), 47);
}

#[test]
fn moves_use_full_width_immediates() {
    let bytes = emit_x86_64(&vec![Op::MovR(200), Op::MovL(200)]);
    assert_eq!(&bytes[24..31], &[0x49, 0x81, 0xC5, 200, 0, 0, 0]);
    assert_eq!(&bytes[31..38], &[0x49, 0x81, 0xED, 200, 0, 0, 0]);
}

#[test]
fn branch_displacements_point_past_the_partner() {
    let code = Compiler::new("+[-]").compile().unwrap();
    // layout: Inc@24..29, JmpIfZ@29..40, Dec@40..45, JmpIfNZ@45..56, end 56
    let bytes = emit_x86_64(&code);
    assert_eq!(bytes.len(), 56 + 18);
    // forward branch: to 56, from the end of the je at 40: +16
    assert_eq!(&bytes[29..36], &[0x41, 0x80, 0x7D, 0x00, 0x00, 0x0F, 0x84]);
    assert_eq!(&bytes[36..40], &16i32.to_le_bytes());
    // backward branch: to 40, from the end of the jne at 56: -16
    assert_eq!(&bytes[45..52], &[0x41, 0x80, 0x7D, 0x00, 0x00, 0x0F, 0x85]);
    assert_eq!(&bytes[52..56], &(-16i32).to_le_bytes());
}

#[test]
fn io_ops_call_through_the_trampoline_registers() {
    let bytes = emit_x86_64(&vec![Op::Print, Op::Read]);
    assert_eq!(
        &bytes[24..35],
        &[0x4C, 0x89, 0xF7, 0x41, 0x0F, 0xB6, 0x75, 0x00, 0x41, 0xFF, 0xD7]
    );
    assert_eq!(
        &bytes[35..45],
        &[0x4C, 0x89, 0xF7, 0x41, 0xFF, 0xD4, 0x41, 0x88, 0x45, 0x00]
    );
}

#[test]
fn other_architecture_fails_fast_with_no_bytes() {
    let r = compile_native(&vec![Op::Inc(1)], Arch::Other);
    assert_eq!(r, Err(EmitError::UnsupportedArchitecture));
}

#[test]
fn supported_architecture_emits() {
    let r = compile_native(&vec![Op::Inc(1)], Arch::X86_64);
    assert!(r.is_ok());
    assert_eq!(r.unwrap().len(), 47);
}
