//! Direct machine-code emission for one fixed architecture (x86-64, System
//! V calling convention): the first just-in-time backend.
//!
//! The emitted function has the native entry signature
//! `(tape_base, context, write_trampoline, read_trampoline) -> byte`. A
//! first pass records each instruction's code offset from fixed per-kind
//! instruction lengths; the second pass emits the bytes, branching to the
//! offsets of the first pass. The output is inert bytes: activating them as
//! executable memory is the runtime's job, not this module's.
//!
//! Register plan: `r13` current cell, `r14` context, `r15` write
//! trampoline, `r12` read trampoline — all callee-saved, so they survive
//! the indirect calls. The prologue's four pushes keep the stack pointer at
//! 8 mod 16, so it also subtracts 8 more: every indirect call then runs
//! with the 16-byte-aligned stack the calling convention demands of call
//! sites, and the epilogue gives the 8 bytes back before the pops.

use vstd::prelude::*;

use crate::ops::{targets_in_range, Op};

verus! {

/// Code offset where the first instruction's bytes start (prologue length).
pub const CODE_START: usize = 24;

/// Length of the returned-cell epilogue.
pub const CODE_END_LEN: usize = 18;

/// Largest program the emitter accepts: keeps every branch displacement
/// within a signed 32-bit immediate and every offset within 32 bits.
pub const MAX_EMIT_OPS: usize = 100000000;

/// Machine-code length of one instruction, by kind.
pub open spec fn op_len(o: Op) -> int {
    match o {
        Op::Nop => 0,
        Op::Inc(_) => 5,
        Op::Dec(_) => 5,
        Op::MovR(_) => 7,
        Op::MovL(_) => 7,
        Op::JmpIfZ(_) => 11,
        Op::JmpIfNZ(_) => 11,
        Op::Print => 11,
        Op::Read => 10,
    }
}

/// Code offset of instruction `i` (for `i == prog.len()`, of the epilogue).
pub open spec fn off(prog: Seq<Op>, i: int) -> int
    decreases i,
{
    if i <= 0 {
        CODE_START as int
    } else {
        off(prog, i - 1) + op_len(prog[i - 1])
    }
}

/// Little-endian 32-bit encoding of `v`, modulo `2^32`.
pub open spec fn le32(v: int) -> Seq<u8> {
    let m = v % 0x100000000;
    seq![
        (m % 256) as u8,
        ((m / 256) % 256) as u8,
        ((m / 65536) % 256) as u8,
        ((m / 16777216) % 256) as u8,
    ]
}

/// Saves the callee-saved registers used, realigns the stack pointer to a
/// 16-byte boundary (entry leaves it at 8 mod 16 and the four pushes keep
/// it there), then moves the four native arguments (tape base, context,
/// write trampoline, read trampoline) into `r13`, `r14`, `r15`, `r12`.
pub open spec fn prologue() -> Seq<u8> {
    seq![
        0x41u8, 0x54,  // push r12
        0x41, 0x55,  // push r13
        0x41, 0x56,  // push r14
        0x41, 0x57,  // push r15
        0x48, 0x83, 0xEC, 0x08,  // sub rsp, 8
        0x49, 0x89, 0xFD,  // mov r13, rdi
        0x49, 0x89, 0xF6,  // mov r14, rsi
        0x49, 0x89, 0xD7,  // mov r15, rdx
        0x49, 0x89, 0xCC,  // mov r12, rcx
    ]
}

/// Loads the final cell into the return register, undoes the prologue's
/// stack adjustment, restores the saved registers and returns.
pub open spec fn epilogue() -> Seq<u8> {
    seq![
        0x41u8, 0x0F, 0xB6, 0x45, 0x00,  // movzx eax, byte [r13]
        0x48, 0x83, 0xC4, 0x08,  // add rsp, 8
        0x41, 0x5F,  // pop r15
        0x41, 0x5E,  // pop r14
        0x41, 0x5D,  // pop r13
        0x41, 0x5C,  // pop r12
        0xC3,  // ret
    ]
}

/// The bytes of instruction `i`. A branch lands on the code of the
/// instruction after its target, mirroring the interpreter's jump-then-
/// advance dispatch.
pub open spec fn enc_op(prog: Seq<Op>, i: int) -> Seq<u8> {
    match prog[i] {
        Op::Nop => Seq::empty(),
        Op::Inc(n) => seq![0x41u8, 0x80, 0x45, 0x00, n],  // add byte [r13], n
        Op::Dec(n) => seq![0x41u8, 0x80, 0x6D, 0x00, n],  // sub byte [r13], n
        Op::MovR(n) => seq![0x49u8, 0x81, 0xC5] + le32(n as int),  // add r13, n
        Op::MovL(n) => seq![0x49u8, 0x81, 0xED] + le32(n as int),  // sub r13, n
        Op::JmpIfZ(t) => seq![0x41u8, 0x80, 0x7D, 0x00, 0x00, 0x0F, 0x84] + le32(
            off(prog, t + 1) - (off(prog, i) + 11),
        ),  // cmp byte [r13], 0; je
        Op::JmpIfNZ(t) => seq![0x41u8, 0x80, 0x7D, 0x00, 0x00, 0x0F, 0x85] + le32(
            off(prog, t + 1) - (off(prog, i) + 11),
        ),  // cmp byte [r13], 0; jne
        Op::Print => seq![
            0x4Cu8, 0x89, 0xF7,  // mov rdi, r14
            0x41, 0x0F, 0xB6, 0x75, 0x00,  // movzx esi, byte [r13]
            0x41, 0xFF, 0xD7,  // call r15
        ],
        Op::Read => seq![
            0x4Cu8, 0x89, 0xF7,  // mov rdi, r14
            0x41, 0xFF, 0xD4,  // call r12
            0x41, 0x88, 0x45, 0x00,  // mov byte [r13], al
        ],
    }
}

/// The concatenated bytes of the first `i` instructions.
pub open spec fn body(prog: Seq<Op>, i: int) -> Seq<u8>
    decreases i,
{
    if i <= 0 {
        Seq::empty()
    } else {
        body(prog, i - 1) + enc_op(prog, i - 1)
    }
}

/// The whole artifact for `prog`.
pub open spec fn emit_spec(prog: Seq<Op>) -> Seq<u8> {
    prologue() + body(prog, prog.len() as int) + epilogue()
}

/// The artifact's total length: prologue, every instruction's fixed-length
/// code, epilogue.
pub proof fn lemma_emit_len(prog: Seq<Op>)
    ensures
        emit_spec(prog).len() == off(prog, prog.len() as int) + CODE_END_LEN,
{
    lemma_off_bound(prog, prog.len() as int);
}

/// The offsets grow by exactly the per-kind lengths and stay small.
pub proof fn lemma_off_bound(prog: Seq<Op>, i: int)
    requires
        0 <= i,
    ensures
        CODE_START as int <= off(prog, i) <= CODE_START as int + 11 * i,
        body(prog, i).len() == off(prog, i) - CODE_START as int,
    decreases i,
{
    if i > 0 {
        lemma_off_bound(prog, i - 1);
    }
}

/// Offsets never decrease along the program.
pub proof fn lemma_off_mono(prog: Seq<Op>, a: int, b: int)
    requires
        0 <= a <= b,
    ensures
        off(prog, a) <= off(prog, b),
    decreases b - a,
{
    if a < b {
        lemma_off_mono(prog, a, b - 1);
    }
}

/// Each instruction's bytes stand exactly at its recorded offset inside the
/// emitted artifact.
pub proof fn lemma_op_at_offset(prog: Seq<Op>, i: int)
    requires
        0 <= i < prog.len(),
    ensures
        off(prog, i + 1) == off(prog, i) + op_len(prog[i]),
        emit_spec(prog).subrange(off(prog, i), off(prog, i + 1)) == enc_op(prog, i),
{
    lemma_off_bound(prog, i);
    lemma_off_bound(prog, i + 1);
    lemma_off_bound(prog, prog.len() as int);
    lemma_off_mono(prog, i + 1, prog.len() as int);
    lemma_body_covers(prog, i + 1, prog.len() as int);
    assert(emit_spec(prog).subrange(off(prog, i), off(prog, i + 1))
        =~= enc_op(prog, i));
}

/// The byte range of instruction `i` inside `body(prog, n)`, for any later
/// cut `n`, is `enc_op(prog, i)`.
proof fn lemma_body_covers(prog: Seq<Op>, n: int, m: int)
    requires
        0 < n <= m,
    ensures
        body(prog, m).subrange(
            off(prog, n - 1) - CODE_START as int,
            off(prog, n) - CODE_START as int,
        ) == enc_op(prog, n - 1),
    decreases m - n,
{
    lemma_off_bound(prog, n - 1);
    lemma_off_bound(prog, n);
    lemma_off_bound(prog, m);
    if n == m {
        assert(body(prog, m).subrange(
            off(prog, n - 1) - CODE_START as int,
            off(prog, n) - CODE_START as int,
        ) =~= enc_op(prog, n - 1));
    } else {
        lemma_body_covers(prog, n, m - 1);
        lemma_off_bound(prog, m - 1);
        lemma_off_mono(prog, n, m - 1);
        assert(body(prog, m).subrange(
            off(prog, n - 1) - CODE_START as int,
            off(prog, n) - CODE_START as int,
        ) =~= body(prog, m - 1).subrange(
            off(prog, n - 1) - CODE_START as int,
            off(prog, n) - CODE_START as int,
        ));
    }
}

/// A host architecture, as the embedder reports it.
#[derive(Clone, Copy, Debug, PartialEq, Eq, Structural)]
pub enum Arch {
    /// The one architecture this backend emits for.
    X86_64,
    /// Anything else: the backend refuses fast, emitting nothing.
    Other,
}

/// Why direct emission produced no bytes.
#[derive(Clone, Copy, Debug, PartialEq, Eq, Structural)]
pub enum EmitError {
    /// The host is not the fixed architecture of this backend.
    UnsupportedArchitecture,
}

/// Append the little-endian 32-bit encoding of `v`.
fn push_le32(out: &mut Vec<u8>, v: i64)
    requires
        -0x80000000 <= v < 0x80000000,
    ensures
        final(out)@ == old(out)@ + le32(v as int),
{
    let m: i64 = if v < 0 {
        v + 0x100000000
    } else {
        v
    };
    proof {
        assert(m == (v as int) % 0x100000000);
    }
    out.push((m % 256) as u8);
    out.push(((m / 256) % 256) as u8);
    out.push(((m / 65536) % 256) as u8);
    out.push(((m / 16777216) % 256) as u8);
    proof {
        assert(final(out)@ =~= old(out)@ + le32(v as int));
    }
}

/// Emit x86-64 machine code for `code`: pass one records offsets, pass two
/// emits bytes against them. The result is exactly [`emit_spec`].
#[verifier::rlimit(60)]
#[verifier::spinoff_prover]
pub fn emit_x86_64(code: &Vec<Op>) -> (out: Vec<u8>)
    requires
        targets_in_range(code@),
        code@.len() <= MAX_EMIT_OPS,
    ensures
        out@ == emit_spec(code@),
{
    let n: usize = code.len();
    let ghost prog = code@;

    // pass one: the offset table, one entry per instruction plus the end
    let mut offs: Vec<usize> = Vec::new();
    offs.push(CODE_START);
    let mut i: usize = 0;
    while i < n
        invariant
            i <= n,
            n == prog.len(),
            prog == code@,
            n <= MAX_EMIT_OPS,
            offs@.len() == i + 1,
            forall|j: int| 0 <= j <= i ==> #[trigger] offs@[j] == off(prog, j),
            forall|j: int| 0 <= j <= i ==> #[trigger] offs@[j] <= CODE_START + 11 * j,
        decreases n - i,
    {
        let prev: usize = offs[i];
        let l: usize = match code[i] {
            Op::Nop => 0,
            Op::Inc(_) => 5,
            Op::Dec(_) => 5,
            Op::MovR(_) => 7,
            Op::MovL(_) => 7,
            Op::JmpIfZ(_) => 11,
            Op::JmpIfNZ(_) => 11,
            Op::Print => 11,
            Op::Read => 10,
        };
        offs.push(prev + l);
        i = i + 1;
    }

    // pass two: the bytes
    let mut out: Vec<u8> = Vec::new();
    out.push(0x41u8);
    out.push(0x54u8);
    out.push(0x41u8);
    out.push(0x55u8);
    out.push(0x41u8);
    out.push(0x56u8);
    out.push(0x41u8);
    out.push(0x57u8);
    out.push(0x48u8);
    out.push(0x83u8);
    out.push(0xECu8);
    out.push(0x08u8);
    out.push(0x49u8);
    out.push(0x89u8);
    out.push(0xFDu8);
    out.push(0x49u8);
    out.push(0x89u8);
    out.push(0xF6u8);
    out.push(0x49u8);
    out.push(0x89u8);
    out.push(0xD7u8);
    out.push(0x49u8);
    out.push(0x89u8);
    out.push(0xCCu8);
    proof {
        assert(out@ =~= prologue() + body(prog, 0));
    }

    let mut i: usize = 0;
    while i < n
        invariant
            i <= n,
            n == prog.len(),
            prog == code@,
            targets_in_range(prog),
            n <= MAX_EMIT_OPS,
            offs@.len() == n + 1,
            forall|j: int| 0 <= j <= n ==> #[trigger] offs@[j] == off(prog, j),
            forall|j: int| 0 <= j <= n ==> #[trigger] offs@[j] <= CODE_START + 11 * j,
            out@ == prologue() + body(prog, i as int),
        decreases n - i,
    {
        let ghost pre = out@;
        match code[i] {
            Op::Nop => {},
            Op::Inc(k) => {
                out.push(0x41u8);
                out.push(0x80u8);
                out.push(0x45u8);
                out.push(0x00u8);
                out.push(k);
            },
            Op::Dec(k) => {
                out.push(0x41u8);
                out.push(0x80u8);
                out.push(0x6Du8);
                out.push(0x00u8);
                out.push(k);
            },
            Op::MovR(k) => {
                out.push(0x49u8);
                out.push(0x81u8);
                out.push(0xC5u8);
                push_le32(&mut out, k as i64);
            },
            Op::MovL(k) => {
                out.push(0x49u8);
                out.push(0x81u8);
                out.push(0xEDu8);
                push_le32(&mut out, k as i64);
            },
            Op::JmpIfZ(t) => {
                out.push(0x41u8);
                out.push(0x80u8);
                out.push(0x7Du8);
                out.push(0x00u8);
                out.push(0x00u8);
                out.push(0x0Fu8);
                out.push(0x84u8);
                let dest: usize = offs[t + 1];
                let from: usize = offs[i];
                push_le32(&mut out, (dest as i64) - ((from as i64) + 11));
            },
            Op::JmpIfNZ(t) => {
                out.push(0x41u8);
                out.push(0x80u8);
                out.push(0x7Du8);
                out.push(0x00u8);
                out.push(0x00u8);
                out.push(0x0Fu8);
                out.push(0x85u8);
                let dest: usize = offs[t + 1];
                let from: usize = offs[i];
                push_le32(&mut out, (dest as i64) - ((from as i64) + 11));
            },
            Op::Print => {
                out.push(0x4Cu8);
                out.push(0x89u8);
                out.push(0xF7u8);
                out.push(0x41u8);
                out.push(0x0Fu8);
                out.push(0xB6u8);
                out.push(0x75u8);
                out.push(0x00u8);
                out.push(0x41u8);
                out.push(0xFFu8);
                out.push(0xD7u8);
            },
            Op::Read => {
                out.push(0x4Cu8);
                out.push(0x89u8);
                out.push(0xF7u8);
                out.push(0x41u8);
                out.push(0xFFu8);
                out.push(0xD4u8);
                out.push(0x41u8);
                out.push(0x88u8);
                out.push(0x45u8);
                out.push(0x00u8);
            },
        }
        proof {
            assert(out@ =~= pre + enc_op(prog, i as int));
            assert(out@ =~= prologue() + body(prog, i + 1));
        }
        i = i + 1;
    }

    out.push(0x41u8);
    out.push(0x0Fu8);
    out.push(0xB6u8);
    out.push(0x45u8);
    out.push(0x00u8);
    out.push(0x48u8);
    out.push(0x83u8);
    out.push(0xC4u8);
    out.push(0x08u8);
    out.push(0x41u8);
    out.push(0x5Fu8);
    out.push(0x41u8);
    out.push(0x5Eu8);
    out.push(0x41u8);
    out.push(0x5Du8);
    out.push(0x41u8);
    out.push(0x5Cu8);
    out.push(0xC3u8);
    proof {
        assert(out@ =~= emit_spec(prog));
    }
    out
}

/// The direct-emission backend: fails fast, with no bytes emitted, unless
/// the embedder reports the one supported host architecture.
pub fn compile_native(code: &Vec<Op>, host: Arch) -> (r: Result<Vec<u8>, EmitError>)
    requires
        targets_in_range(code@),
        code@.len() <= MAX_EMIT_OPS,
    ensures
        match host {
            Arch::X86_64 => r matches Ok(bytes) && bytes@ == emit_spec(code@),
            Arch::Other => r == Err::<Vec<u8>, EmitError>(EmitError::UnsupportedArchitecture),
        },
{
    match host {
        Arch::X86_64 => Ok(emit_x86_64(code)),
        Arch::Other => Err(EmitError::UnsupportedArchitecture),
    }
}

} // verus!
