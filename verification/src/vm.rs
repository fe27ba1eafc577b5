//! The bytecode interpreter: the reference executor. Its contract ties each
//! run exactly to the specification-level machine of [`crate::sem`].

use vstd::prelude::*;
use vstd::string::StringSliceAdditionalSpecFns;

use crate::compiler::{compile_spec, Compiler};
use crate::io::{eff, IoEvent, MemoryIO, IO};
use crate::ops::{targets_in_range, Op};
use crate::sem::{
    ins, lemma_run_n_input_frame, outs, run_n, step, with_input, MState, Outcome, StepRes,
};

verus! {

/// How a bounded interpreter run ended.
#[derive(Clone, Copy, Debug, PartialEq, Eq, Structural)]
pub enum VmStatus {
    /// The program counter advanced past the end of the program.
    Halted,
    /// The step budget ran out first.
    OutOfFuel,
    /// A move left would pass position zero: fatal, never clamped.
    TapeUnderflow { shift: u8, pos: usize },
    /// A read found no input remaining.
    OutOfInput,
}

/// Interprets a program against an I/O capability: program counter, tape
/// pointer, and a tape that grows rightward on demand.
pub struct Vm<T: IO> {
    program: Vec<Op>,
    tape: Vec<u8>,
    pc: usize,
    tp: usize,
    io: T,
}

impl<T: IO> Vm<T> {
    pub closed spec fn prog(&self) -> Seq<Op> {
        self.program@
    }

    pub closed spec fn spec_pc(&self) -> int {
        self.pc as int
    }

    pub closed spec fn spec_tp(&self) -> int {
        self.tp as int
    }

    pub closed spec fn spec_tape(&self) -> Seq<u8> {
        self.tape@
    }

    /// The owned I/O capability.
    pub closed spec fn cap(&self) -> T {
        self.io
    }

    /// This interpreter as a machine state with the given pending input and
    /// event history: program counter, tape pointer and tape project onto
    /// the corresponding state fields.
    pub open spec fn at_state(&self, input: Seq<u8>, evs: Seq<IoEvent>) -> MState {
        MState {
            pc: self.spec_pc(),
            tp: self.spec_tp(),
            tape: self.spec_tape(),
            input,
            evs,
        }
    }

    pub open spec fn wf(&self) -> bool {
        0 <= self.spec_tp() < self.spec_tape().len() && self.cap().inv()
    }

    pub fn new(io: T, program: Vec<Op>) -> (vm: Self)
        requires
            io.inv(),
        ensures
            vm.wf(),
            vm.prog() == program@,
            vm.cap() == io,
            vm.spec_pc() == 0,
            vm.spec_tp() == 0,
            vm.spec_tape() == Seq::new(1024, |i: int| 0u8),
    {
        let mut tape: Vec<u8> = Vec::new();
        let mut i: usize = 0;
        while i < 1024
            invariant
                i <= 1024,
                tape@.len() == i,
                forall|j: int| 0 <= j < i ==> tape@[j] == 0u8,
            decreases 1024 - i,
        {
            tape.push(0u8);
            i = i + 1;
        }
        proof {
            assert(tape@ =~= Seq::new(1024, |i: int| 0u8));
        }
        Self { program, tape, pc: 0, tp: 0, io }
    }

    /// The tape pointer.
    pub fn tape_pos(&self) -> (t: usize)
        ensures
            t as int == self.spec_tp(),
    {
        self.tp
    }

    /// The tape cell at `i`.
    pub fn cell(&self, i: usize) -> (v: u8)
        requires
            i < self.spec_tape().len(),
        ensures
            v == self.spec_tape()[i as int],
    {
        self.tape[i]
    }

    /// Give up the interpreter and hand its capability back.
    pub fn into_io(self) -> (io: T)
        ensures
            io == self.cap(),
    {
        self.io
    }

    /// Force buffered output out through the capability; no observable
    /// state of the interpreter or of the capability's model changes.
    pub fn flush_io(&mut self)
        requires
            old(self).wf(),
        ensures
            final(self).wf(),
            final(self).cap().log() == old(self).cap().log(),
            final(self).prog() == old(self).prog(),
            final(self).spec_pc() == old(self).spec_pc(),
            final(self).spec_tp() == old(self).spec_tp(),
            final(self).spec_tape() == old(self).spec_tape(),
            final(self).cap().det() == old(self).cap().det(),
            final(self).cap().pending() == old(self).cap().pending(),
            final(self).cap().can_read() == old(self).cap().can_read(),
    {
        self.io.flush();
    }

    /// Interpret for at most `fuel` steps.
    ///
    /// The result and the new state are exactly what the specification
    /// machine yields on `fuel` steps from the old state, fed the bytes the
    /// capability actually returned; when the capability's reads are
    /// determined by its state, those bytes are exactly the pending ones.
    #[verifier::spinoff_prover]
    pub fn run(&mut self, fuel: u64) -> (r: VmStatus)
        requires
            old(self).wf(),
            targets_in_range(old(self).prog()),
        ensures
            final(self).wf(),
            final(self).prog() == old(self).prog(),
            old(self).cap().log().is_prefix_of(final(self).cap().log()),
            final(self).cap().det() == old(self).cap().det(),
            ({
                let evs = final(self).cap().log().skip(old(self).cap().log().len() as int);
                let s0 = old(self).at_state(ins(evs), Seq::empty());
                let sf = final(self).at_state(Seq::empty(), evs);
                match r {
                    VmStatus::Halted => run_n(old(self).prog(), s0, fuel as nat)
                        == Outcome::Halted(sf),
                    VmStatus::OutOfFuel => run_n(old(self).prog(), s0, fuel as nat)
                        == Outcome::Running(sf),
                    VmStatus::TapeUnderflow { shift, pos } => run_n(
                        old(self).prog(),
                        s0,
                        fuel as nat,
                    ) == Outcome::Underflowed(sf) && old(self).prog()[sf.pc] == Op::MovL(shift)
                        && pos as int == sf.tp && shift > pos,
                    VmStatus::OutOfInput => run_n(old(self).prog(), s0, fuel as nat)
                        == Outcome::Starved(sf) && !final(self).cap().can_read(),
                }
            }),
            ({
                let evs = final(self).cap().log().skip(old(self).cap().log().len() as int);
                (old(self).cap().det() && (old(self).cap().can_read() <==> old(
                    self,
                ).cap().pending().len() > 0)) ==> {
                    &&& ins(evs).len() <= old(self).cap().pending().len()
                    &&& ins(evs) == old(self).cap().pending().take(ins(evs).len() as int)
                    &&& final(self).cap().pending() == old(self).cap().pending().skip(
                        ins(evs).len() as int,
                    )
                    &&& (final(self).cap().can_read() <==> final(self).cap().pending().len() > 0)
                }
            }),
    {
        let ghost p0 = old(self).prog();
        let ghost log0 = old(self).cap().log();
        let ghost pending0 = old(self).cap().pending();
        let ghost dp = old(self).cap().det() && (old(self).cap().can_read() <==> old(
            self,
        ).cap().pending().len() > 0);
        let plen: usize = self.program.len();
        let mut left: u64 = fuel;

        proof {
            assert(self.cap().log().skip(log0.len() as int) =~= Seq::<IoEvent>::empty());
            assert(log0.is_prefix_of(self.cap().log()));
            assert forall|future: Seq<u8>|
                #[trigger] old(self).at_state(
                    ins(self.cap().log().skip(log0.len() as int)) + future,
                    Seq::empty(),
                ) == self.at_state(future, self.cap().log().skip(log0.len() as int)) by {
                let evs = self.cap().log().skip(log0.len() as int);
                assert(ins(evs) + future =~= future);
            }
        }

        while left > 0 && self.pc < plen
            invariant
                self.cap().inv(),
                0 <= self.spec_tp() < self.spec_tape().len(),
                self.prog() == p0,
                targets_in_range(p0),
                plen == p0.len(),
                p0 == old(self).prog(),
                left <= fuel,
                log0 == old(self).cap().log(),
                log0.is_prefix_of(self.cap().log()),
                self.cap().det() == old(self).cap().det(),
                dp == (old(self).cap().det() && (old(self).cap().can_read() <==> old(
                    self,
                ).cap().pending().len() > 0)),
                pending0 == old(self).cap().pending(),
                ({
                    let evs = self.cap().log().skip(log0.len() as int);
                    dp ==> {
                        &&& ins(evs).len() <= pending0.len()
                        &&& ins(evs) == pending0.take(ins(evs).len() as int)
                        &&& self.cap().pending() == pending0.skip(ins(evs).len() as int)
                        &&& (self.cap().can_read() <==> self.cap().pending().len() > 0)
                    }
                }),
                ({
                    let evs = self.cap().log().skip(log0.len() as int);
                    forall|future: Seq<u8>|
                        run_n(
                            p0,
                            #[trigger] old(self).at_state(ins(evs) + future, Seq::empty()),
                            fuel as nat,
                        ) == run_n(p0, self.at_state(future, evs), left as nat)
                }),
            decreases left,
        {
            let ghost pre = *self;
            let ghost evs_pre = pre.cap().log().skip(log0.len() as int);
            let op: Op = self.program[self.pc];
            match op {
                Op::Nop => {
                    self.pc = self.pc + 1;
                },
                Op::Inc(k) => {
                    let v: u8 = self.tape[self.tp];
                    let nv: u8 = (((v as u16) + (k as u16)) % 256) as u8;
                    self.tape[self.tp] = nv;
                    self.pc = self.pc + 1;
                },
                Op::Dec(k) => {
                    let v: u8 = self.tape[self.tp];
                    let nv: u8 = (((v as u16) + 256 - (k as u16)) % 256) as u8;
                    self.tape[self.tp] = nv;
                    self.pc = self.pc + 1;
                },
                Op::MovR(k) => {
                    let ghost tp0 = self.spec_tp();
                    let ghost tape0 = self.spec_tape();
                    let mut j: u8 = 0;
                    while j < k
                        invariant
                            j <= k,
                            self.spec_tp() == tp0 + j,
                            0 <= self.spec_tp() < self.spec_tape().len(),
                            self.spec_tape() == crate::sem::grow(tape0, tp0 + j),
                            self.program@ == pre.program@,
                            self.pc == pre.pc,
                            self.io == pre.io,
                            tape0 == pre.spec_tape(),
                            tp0 == pre.spec_tp(),
                            tp0 < tape0.len(),
                        decreases k - j,
                    {
                        proof {
                            crate::sem::lemma_grow_len(tape0, tp0 + j);
                            crate::sem::lemma_grow_len(tape0, tp0 + j + 1);
                        }
                        let tl: usize = self.tape.len();
                        self.tp = self.tp + 1;
                        if self.tp == tl {
                            self.tape.push(0u8);
                        }
                        proof {
                            assert(self.spec_tape() =~= crate::sem::grow(tape0, tp0 + j + 1));
                        }
                        j = j + 1;
                    }
                    self.pc = self.pc + 1;
                },
                Op::MovL(k) => {
                    if (k as usize) > self.tp {
                        let r = VmStatus::TapeUnderflow { shift: k, pos: self.tp };
                        proof {
                            let evs = self.cap().log().skip(log0.len() as int);
                            assert(evs == evs_pre);
                            assert(ins(evs) + Seq::<u8>::empty() =~= ins(evs));
                            assert(run_n(
                                p0,
                                old(self).at_state(ins(evs) + Seq::<u8>::empty(), Seq::empty()),
                                fuel as nat,
                            ) == run_n(p0, self.at_state(Seq::empty(), evs), left as nat));
                            assert(step(p0, self.at_state(Seq::empty(), evs))
                                == StepRes::Underflow);
                            assert(run_n(p0, self.at_state(Seq::empty(), evs), left as nat)
                                == Outcome::Underflowed(self.at_state(Seq::empty(), evs)));
                            assert(old(self).at_state(ins(evs), Seq::empty()) == old(
                                self,
                            ).at_state(ins(evs) + Seq::<u8>::empty(), Seq::empty()));
                        }
                        return r;
                    }
                    self.tp = self.tp - (k as usize);
                    self.pc = self.pc + 1;
                },
                Op::Print => {
                    let v: u8 = self.tape[self.tp];
                    self.io.write_byte(v);
                    self.pc = self.pc + 1;
                    proof {
                        let evs = self.cap().log().skip(log0.len() as int);
                        assert(evs =~= evs_pre.push(IoEvent::Wrote(v)));
                        assert(evs.drop_last() =~= evs_pre);
                        assert(ins(evs) == ins(evs_pre));
                    }
                },
                Op::Read => {
                    if self.io.has_input() {
                        let b: u8 = self.io.read_byte();
                        self.tape[self.tp] = b;
                        self.pc = self.pc + 1;
                        proof {
                            let evs = self.cap().log().skip(log0.len() as int);
                            assert(evs =~= evs_pre.push(IoEvent::ReadGot(b)));
                            assert(evs.drop_last() =~= evs_pre);
                            assert(ins(evs) == ins(evs_pre).push(b));
                            if dp {
                                let k = ins(evs_pre).len() as int;
                                assert(pre.cap().pending() == pending0.skip(k));
                                assert(pre.cap().can_read());
                                assert(pending0.skip(k).len() > 0);
                                assert(pending0.skip(k).len() == pending0.len() - k);
                                assert(k < pending0.len());
                                assert(b == pending0.skip(k)[0]);
                                assert(pending0.skip(k)[0] == pending0[0 + k]);
                                assert(b == pending0[k]);
                                assert(ins(evs) =~= pending0.take(k + 1));
                                assert(self.cap().pending() == pending0.skip(k).skip(1));
                                assert(pending0.skip(k).skip(1) =~= pending0.skip(k + 1));
                            }
                        }
                    } else {
                        let r = VmStatus::OutOfInput;
                        proof {
                            let evs = self.cap().log().skip(log0.len() as int);
                            assert(evs == evs_pre);
                            assert(ins(evs) + Seq::<u8>::empty() =~= ins(evs));
                            assert(run_n(
                                p0,
                                old(self).at_state(ins(evs) + Seq::<u8>::empty(), Seq::empty()),
                                fuel as nat,
                            ) == run_n(p0, self.at_state(Seq::empty(), evs), left as nat));
                            assert(step(p0, self.at_state(Seq::empty(), evs)) == StepRes::Starve);
                            assert(run_n(p0, self.at_state(Seq::empty(), evs), left as nat)
                                == Outcome::Starved(self.at_state(Seq::empty(), evs)));
                            assert(old(self).at_state(ins(evs), Seq::empty()) == old(
                                self,
                            ).at_state(ins(evs) + Seq::<u8>::empty(), Seq::empty()));
                        }
                        return r;
                    }
                },
                Op::JmpIfZ(t) => {
                    let v: u8 = self.tape[self.tp];
                    if v == 0 {
                        self.pc = t + 1;
                    } else {
                        self.pc = self.pc + 1;
                    }
                },
                Op::JmpIfNZ(t) => {
                    let v: u8 = self.tape[self.tp];
                    if v != 0 {
                        self.pc = t + 1;
                    } else {
                        self.pc = self.pc + 1;
                    }
                },
            }
            left = left - 1;
            proof {
                let evs_post = self.cap().log().skip(log0.len() as int);
                match p0[pre.spec_pc()] {
                    Op::Read => {
                        let b = self.spec_tape()[pre.spec_tp()];
                        assert forall|future: Seq<u8>|
                            run_n(
                                p0,
                                #[trigger] old(self).at_state(
                                    ins(evs_post) + future,
                                    Seq::empty(),
                                ),
                                fuel as nat,
                            ) == run_n(p0, self.at_state(future, evs_post), left as nat) by {
                            assert(ins(evs_pre) + (seq![b] + future) =~= ins(evs_post) + future);
                            assert(run_n(
                                p0,
                                old(self).at_state(ins(evs_pre) + (seq![b] + future), Seq::empty()),
                                fuel as nat,
                            ) == run_n(
                                p0,
                                pre.at_state(seq![b] + future, evs_pre),
                                (left + 1) as nat,
                            ));
                            assert((seq![b] + future).skip(1) =~= future);
                            assert(step(p0, pre.at_state(seq![b] + future, evs_pre))
                                == StepRes::Next(self.at_state(future, evs_post)));
                        }
                    },
                    _ => {
                        assert forall|future: Seq<u8>|
                            run_n(
                                p0,
                                #[trigger] old(self).at_state(
                                    ins(evs_post) + future,
                                    Seq::empty(),
                                ),
                                fuel as nat,
                            ) == run_n(p0, self.at_state(future, evs_post), left as nat) by {
                            assert(ins(evs_post) == ins(evs_pre));
                            assert(run_n(
                                p0,
                                old(self).at_state(ins(evs_pre) + future, Seq::empty()),
                                fuel as nat,
                            ) == run_n(p0, pre.at_state(future, evs_pre), (left + 1) as nat));
                            assert(step(p0, pre.at_state(future, evs_pre))
                                == StepRes::Next(self.at_state(future, evs_post)));
                        }
                    },
                }
            }
        }

        proof {
            let evs = self.cap().log().skip(log0.len() as int);
            assert(ins(evs) + Seq::<u8>::empty() =~= ins(evs));
            assert(run_n(p0, old(self).at_state(ins(evs) + Seq::<u8>::empty(), Seq::empty()),
                fuel as nat) == run_n(p0, self.at_state(Seq::empty(), evs), left as nat));
            assert(old(self).at_state(ins(evs), Seq::empty()) == old(self).at_state(
                ins(evs) + Seq::<u8>::empty(),
                Seq::empty(),
            ));
        }
        if self.pc >= plen {
            VmStatus::Halted
        } else {
            VmStatus::OutOfFuel
        }
    }
}

/// The machine state a fresh in-memory run starts from: program counter
/// and tape pointer at zero, a zeroed tape, and the effective bytes of
/// `input` (carriage returns and line feeds left out) waiting to be read.
pub open spec fn bench_start(input: Seq<u8>) -> MState {
    MState {
        pc: 0,
        tp: 0,
        tape: Seq::new(1024, |i: int| 0u8),
        input: eff(input, 0),
        evs: Seq::empty(),
    }
}

/// `out` is the output of some bounded specification-machine run of `prog`
/// from [`bench_start`] that either ended, or exhausted the largest step
/// budget an interpreter run takes.
pub open spec fn bench_result(prog: Seq<Op>, input: Seq<u8>, out: Seq<u8>) -> bool {
    exists|n: nat|
        n <= u64::MAX && (match #[trigger] run_n(prog, bench_start(input), n) {
            Outcome::Halted(sf) => out == outs(sf.evs),
            Outcome::Underflowed(sf) => out == outs(sf.evs),
            Outcome::Starved(sf) => out == outs(sf.evs),
            Outcome::Running(sf) => n == u64::MAX && out == outs(sf.evs),
        })
}

/// Compile and interpret `program` in memory: output collects in a buffer,
/// reads come from `input`. The result is exactly the output of the
/// specification machine run from `bench_start`; a source with unbalanced
/// brackets yields no output at all.
///
/// A run that aborts — tape-pointer underflow, or a read with no effective
/// input left — yields the bytes written up to the abort, deliberately:
/// this helper reports output alone, never a synthesized byte, and its
/// contract says which machine outcome the output belongs to. A caller who
/// must tell an aborted run from a completed one drives [`Vm::run`]
/// directly, whose status distinguishes the four outcomes.
pub fn bench_run(program: &str, input: Vec<u8>) -> (out: Vec<u8>)
    ensures
        ({
            match compile_spec(program.spec_bytes()) {
                Err(_) => out@ == Seq::<u8>::empty(),
                Ok(code) => bench_result(code, input@, out@),
            }
        }),
{
    let compiler = Compiler::new(program);
    match compiler.compile() {
        Err(_) => Vec::new(),
        Ok(code) => {
            proof {
                crate::ops::lemma_resolved_targets_in_range(code@);
            }
            let ghost prog = code@;
            let ghost inp = input@;
            let io = MemoryIO::new(input);
            let mut vm = Vm::new(io, code);
            let ghost vm0 = vm;
            let status = vm.run(u64::MAX);
            proof {
                let evs = vm.cap().log().skip(vm0.cap().log().len() as int);
                assert(vm0.cap().log() =~= Seq::<IoEvent>::empty());
                assert(evs =~= vm.cap().log());
                let pending0 = eff(inp, 0);
                let k = ins(evs).len() as int;
                let s0 = vm0.at_state(ins(evs), Seq::empty());
                let extra = pending0.skip(k);
                assert(ins(evs) == pending0.take(k));
                assert(with_input(s0, extra).input =~= pending0) by {
                    assert(pending0.take(k) + pending0.skip(k) =~= pending0);
                }
                assert(with_input(s0, extra) == bench_start(inp));
                let nmax = u64::MAX as nat;
                let sf = vm.at_state(Seq::empty(), evs);
                match status {
                    VmStatus::Halted => {
                        lemma_run_n_input_frame(prog, s0, nmax, extra);
                        assert(run_n(prog, bench_start(inp), nmax)
                            == Outcome::Halted(with_input(sf, extra)));
                    },
                    VmStatus::OutOfFuel => {
                        lemma_run_n_input_frame(prog, s0, nmax, extra);
                        assert(run_n(prog, bench_start(inp), nmax)
                            == Outcome::Running(with_input(sf, extra)));
                    },
                    VmStatus::TapeUnderflow { .. } => {
                        lemma_run_n_input_frame(prog, s0, nmax, extra);
                        assert(run_n(prog, bench_start(inp), nmax)
                            == Outcome::Underflowed(with_input(sf, extra)));
                    },
                    VmStatus::OutOfInput => {
                        assert(!vm.cap().can_read());
                        assert(vm.cap().pending().len() == 0);
                        assert(extra.len() == 0);
                        assert(with_input(s0, extra).input =~= s0.input);
                        assert(s0 == bench_start(inp));
                        assert(run_n(prog, bench_start(inp), nmax) == Outcome::Starved(sf));
                    },
                }
                assert(match run_n(prog, bench_start(inp), nmax) {
                    Outcome::Halted(s) => outs(s.evs) == outs(vm.cap().log()),
                    Outcome::Underflowed(s) => outs(s.evs) == outs(vm.cap().log()),
                    Outcome::Starved(s) => outs(s.evs) == outs(vm.cap().log()),
                    Outcome::Running(s) => outs(s.evs) == outs(vm.cap().log()),
                });
            }
            let ghost vmf = vm;
            let io2 = vm.into_io();
            let out = io2.into_output();
            proof {
                let nmax = u64::MAX as nat;
                assert(out@ == outs(vmf.cap().log()));
                assert(nmax <= u64::MAX);
                assert(match run_n(prog, bench_start(inp), nmax) {
                    Outcome::Halted(s) => out@ == outs(s.evs),
                    Outcome::Underflowed(s) => out@ == outs(s.evs),
                    Outcome::Starved(s) => out@ == outs(s.evs),
                    Outcome::Running(s) => nmax == u64::MAX && out@ == outs(s.evs),
                });
                assert(bench_result(prog, inp, out@));
            }
            out
        },
    }
}

} // verus!
