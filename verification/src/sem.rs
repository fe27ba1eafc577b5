//! Specification-level semantics of the bytecode machine: a small-step
//! interpreter over mathematical state, used as the meaning of program
//! execution by the interpreter's and the backends' contracts.

use vstd::prelude::*;

use crate::io::IoEvent;
use crate::ops::Op;

verus! {

/// Machine state: program counter, tape pointer, tape contents, the
/// effective input bytes not yet read, and the I/O events so far.
pub struct MState {
    pub pc: int,
    pub tp: int,
    pub tape: Seq<u8>,
    pub input: Seq<u8>,
    pub evs: Seq<IoEvent>,
}

/// Bytes written, in order, by a sequence of I/O events.
pub open spec fn outs(evs: Seq<IoEvent>) -> Seq<u8>
    decreases evs.len(),
{
    if evs.len() == 0 {
        Seq::empty()
    } else {
        let pre = outs(evs.drop_last());
        match evs.last() {
            IoEvent::Wrote(b) => pre.push(b),
            IoEvent::ReadGot(_) => pre,
        }
    }
}

/// Bytes read, in order, by a sequence of I/O events.
pub open spec fn ins(evs: Seq<IoEvent>) -> Seq<u8>
    decreases evs.len(),
{
    if evs.len() == 0 {
        Seq::empty()
    } else {
        let pre = ins(evs.drop_last());
        match evs.last() {
            IoEvent::Wrote(_) => pre,
            IoEvent::ReadGot(b) => pre.push(b),
        }
    }
}

/// Wrapping cell increment by `n`.
pub open spec fn cell_add(v: u8, n: u8) -> u8 {
    ((v + n) % 256) as u8
}

/// Wrapping cell decrement by `n`.
pub open spec fn cell_sub(v: u8, n: u8) -> u8 {
    ((v + 256 - n) % 256) as u8
}

/// The tape extended rightward with zero cells until index `i` exists.
pub open spec fn grow(t: Seq<u8>, i: int) -> Seq<u8>
    decreases i + 1 - t.len(),
{
    if i < t.len() {
        t
    } else {
        grow(t, i - 1).push(0u8)
    }
}

pub proof fn lemma_grow_len(t: Seq<u8>, i: int)
    ensures
        grow(t, i).len() == if i + 1 > t.len() {
            i + 1
        } else {
            t.len() as int
        },
        forall|j: int| 0 <= j < t.len() ==> grow(t, i)[j] == t[j],
        forall|j: int| t.len() <= j < grow(t, i).len() ==> grow(t, i)[j] == 0u8,
    decreases i + 1 - t.len(),
{
    if i < t.len() {
    } else {
        lemma_grow_len(t, i - 1);
    }
}

/// The state is positioned on an instruction of the program.
pub open spec fn in_prog(prog: Seq<Op>, s: MState) -> bool {
    0 <= s.pc < prog.len()
}

/// Result of one machine step.
pub enum StepRes {
    Next(MState),
    /// The instruction moves the tape pointer left past position zero.
    Underflow,
    /// The instruction reads, but no input remains.
    Starve,
}

/// One step of the machine at `s.pc`.
pub open spec fn step(prog: Seq<Op>, s: MState) -> StepRes
    recommends
        in_prog(prog, s),
{
    match prog[s.pc] {
        Op::Nop => StepRes::Next(MState { pc: s.pc + 1, ..s }),
        Op::Inc(n) => StepRes::Next(
            MState {
                pc: s.pc + 1,
                tape: s.tape.update(s.tp, cell_add(s.tape[s.tp], n)),
                ..s
            },
        ),
        Op::Dec(n) => StepRes::Next(
            MState {
                pc: s.pc + 1,
                tape: s.tape.update(s.tp, cell_sub(s.tape[s.tp], n)),
                ..s
            },
        ),
        Op::MovR(n) => StepRes::Next(
            MState { pc: s.pc + 1, tp: s.tp + n, tape: grow(s.tape, s.tp + n), ..s },
        ),
        Op::MovL(n) => if n > s.tp {
            StepRes::Underflow
        } else {
            StepRes::Next(MState { pc: s.pc + 1, tp: s.tp - n, ..s })
        },
        Op::Print => StepRes::Next(
            MState { pc: s.pc + 1, evs: s.evs.push(IoEvent::Wrote(s.tape[s.tp])), ..s },
        ),
        Op::Read => if s.input.len() == 0 {
            StepRes::Starve
        } else {
            StepRes::Next(
                MState {
                    pc: s.pc + 1,
                    tape: s.tape.update(s.tp, s.input[0]),
                    input: s.input.skip(1),
                    evs: s.evs.push(IoEvent::ReadGot(s.input[0])),
                    ..s
                },
            )
        },
        Op::JmpIfZ(t) => StepRes::Next(
            MState { pc: if s.tape[s.tp] == 0 { t + 1 } else { s.pc + 1 }, ..s },
        ),
        Op::JmpIfNZ(t) => StepRes::Next(
            MState { pc: if s.tape[s.tp] != 0 { t + 1 } else { s.pc + 1 }, ..s },
        ),
    }
}

/// Where a bounded run ends up.
pub enum Outcome {
    /// The program counter left the program: normal termination.
    Halted(MState),
    /// The fuel ran out with the machine still going.
    Running(MState),
    /// Aborted: tape-pointer underflow at this state.
    Underflowed(MState),
    /// Aborted: read with no input remaining, at this state.
    Starved(MState),
}

/// Run the machine for at most `n` steps.
pub open spec fn run_n(prog: Seq<Op>, s: MState, n: nat) -> Outcome
    decreases n,
{
    if !in_prog(prog, s) {
        Outcome::Halted(s)
    } else if n == 0 {
        Outcome::Running(s)
    } else {
        match step(prog, s) {
            StepRes::Next(s2) => run_n(prog, s2, (n - 1) as nat),
            StepRes::Underflow => Outcome::Underflowed(s),
            StepRes::Starve => Outcome::Starved(s),
        }
    }
}

/// Running one step longer continues from a `Running` outcome and leaves
/// any other outcome as it is.
pub proof fn lemma_run_n_succ(prog: Seq<Op>, s0: MState, n: nat)
    ensures
        run_n(prog, s0, (n + 1) as nat) == (match run_n(prog, s0, n) {
            Outcome::Running(s) => match step(prog, s) {
                StepRes::Next(s2) => if in_prog(prog, s2) {
                    Outcome::Running(s2)
                } else {
                    Outcome::Halted(s2)
                },
                StepRes::Underflow => Outcome::Underflowed(s),
                StepRes::Starve => Outcome::Starved(s),
            },
            o => o,
        }),
    decreases n,
{
    if !in_prog(prog, s0) {
    } else if n == 0 {
        match step(prog, s0) {
            StepRes::Next(s2) => {
                assert(run_n(prog, s0, 1nat) == run_n(prog, s2, 0nat));
            },
            _ => {},
        }
    } else {
        match step(prog, s0) {
            StepRes::Next(s1) => {
                lemma_run_n_succ(prog, s1, (n - 1) as nat);
                assert(run_n(prog, s0, (n + 1) as nat) == run_n(prog, s1, n));
                assert(run_n(prog, s0, n) == run_n(prog, s1, (n - 1) as nat));
            },
            _ => {},
        }
    }
}

/// The same state with extra unread input appended.
pub open spec fn with_input(s: MState, extra: Seq<u8>) -> MState {
    MState { input: s.input + extra, ..s }
}

/// Input not yet consumed does not influence a run: appending unread bytes
/// carries any `Running`, `Halted` or `Underflowed` outcome over unchanged.
pub proof fn lemma_run_n_input_frame(prog: Seq<Op>, s0: MState, n: nat, extra: Seq<u8>)
    ensures
        match run_n(prog, s0, n) {
            Outcome::Running(s) => run_n(prog, with_input(s0, extra), n)
                == Outcome::Running(with_input(s, extra)),
            Outcome::Halted(s) => run_n(prog, with_input(s0, extra), n)
                == Outcome::Halted(with_input(s, extra)),
            Outcome::Underflowed(s) => run_n(prog, with_input(s0, extra), n)
                == Outcome::Underflowed(with_input(s, extra)),
            Outcome::Starved(_) => true,
        },
    decreases n,
{
    let s0x = with_input(s0, extra);
    if !in_prog(prog, s0) {
    } else if n == 0 {
    } else {
        match step(prog, s0) {
            StepRes::Next(s1) => {
                match prog[s0.pc] {
                    Op::Read => {
                        assert(s0.input.len() > 0);
                        assert(s0x.input[0] == s0.input[0]);
                        assert(s0x.input.skip(1) =~= s0.input.skip(1) + extra);
                        assert(step(prog, s0x) == StepRes::Next(with_input(s1, extra)));
                    },
                    _ => {
                        assert(step(prog, s0x) == StepRes::Next(with_input(s1, extra)));
                    },
                }
                lemma_run_n_input_frame(prog, s1, (n - 1) as nat, extra);
            },
            StepRes::Underflow => {},
            StepRes::Starve => {},
        }
    }
}

/// Whether an outcome is terminal (not still running).
pub open spec fn terminal(o: Outcome) -> bool {
    !(o matches Outcome::Running(_))
}

/// A terminal outcome does not change when more fuel is provided.
pub proof fn lemma_terminal_stable(prog: Seq<Op>, s0: MState, n: nat, m: nat)
    requires
        n <= m,
        terminal(run_n(prog, s0, n)),
    ensures
        run_n(prog, s0, m) == run_n(prog, s0, n),
    decreases m - n,
{
    if m > n {
        lemma_run_n_succ(prog, s0, (m - 1) as nat);
        lemma_terminal_stable(prog, s0, n, (m - 1) as nat);
    }
}

/// Execution is deterministic: two terminal outcomes of the same program
/// from the same state are the same outcome.
pub proof fn lemma_outcome_unique(prog: Seq<Op>, s0: MState, n: nat, m: nat)
    requires
        terminal(run_n(prog, s0, n)),
        terminal(run_n(prog, s0, m)),
    ensures
        run_n(prog, s0, n) == run_n(prog, s0, m),
{
    if n <= m {
        lemma_terminal_stable(prog, s0, n, m);
    } else {
        lemma_terminal_stable(prog, s0, m, n);
    }
}

} // verus!
