//! Single-pass bytecode compiler: scans the source left to right, folds runs
//! of identical arithmetic/move characters (capped at [`FOLD_CAP`]), and
//! resolves bracket pairs mutually through an explicit stack of pending
//! opening brackets, so that no bracket scanning is needed at run time.

use vstd::prelude::*;
use vstd::string::{StrSliceExecFns, StringSliceAdditionalSpecFns};

use crate::ops::{brackets_resolved, prog_wf, Op, FOLD_CAP};

verus! {

/// Bracket imbalance found at compile time; no program is produced.
#[derive(Clone, Copy, Debug, PartialEq, Eq, Structural)]
pub enum SyntaxError {
    /// An `[` was never closed.
    UnmatchedOpen,
    /// A `]` had no opening partner.
    UnmatchedClose,
}

/// State of the scan after some prefix of the source has been consumed.
pub struct CompState {
    /// Instructions emitted so far.
    pub code: Seq<Op>,
    /// Indices (into `code`) of `[` instructions whose `]` is still pending.
    pub stack: Seq<usize>,
    /// First bracket error met, if any; once set, the scan is inert.
    pub err: Option<SyntaxError>,
}

/// Does source byte `b` extend the run that instruction `o` carries?
pub open spec fn folds_with(b: u8, o: Op) -> bool {
    match o {
        Op::Inc(n) => b == 43u8 && n < FOLD_CAP,
        Op::Dec(n) => b == 45u8 && n < FOLD_CAP,
        Op::MovR(n) => b == 62u8 && n < FOLD_CAP,
        Op::MovL(n) => b == 60u8 && n < FOLD_CAP,
        _ => false,
    }
}

/// The folded instruction with its run length grown by one.
pub open spec fn bump(o: Op) -> Op {
    match o {
        Op::Inc(n) => Op::Inc((n + 1) as u8),
        Op::Dec(n) => Op::Dec((n + 1) as u8),
        Op::MovR(n) => Op::MovR((n + 1) as u8),
        Op::MovL(n) => Op::MovL((n + 1) as u8),
        _ => o,
    }
}

/// The singleton instruction for an arithmetic or move character.
pub open spec fn unit_op(b: u8) -> Op {
    if b == 43u8 {
        Op::Inc(1)
    } else if b == 45u8 {
        Op::Dec(1)
    } else if b == 62u8 {
        Op::MovR(1)
    } else {
        Op::MovL(1)
    }
}

/// Is `b` one of the four run-length-foldable characters `+ - > <`?
pub open spec fn fold_eligible(b: u8) -> bool {
    b == 43u8 || b == 45u8 || b == 62u8 || b == 60u8
}

/// One step of the scan: consume source byte `b`.
pub open spec fn comp_step(st: CompState, b: u8) -> CompState {
    if st.err is Some {
        st
    } else if fold_eligible(b) {
        if st.code.len() > 0 && folds_with(b, st.code.last()) {
            CompState {
                code: st.code.update(st.code.len() - 1, bump(st.code.last())),
                stack: st.stack,
                err: None,
            }
        } else {
            CompState { code: st.code.push(unit_op(b)), stack: st.stack, err: None }
        }
    } else if b == 91u8 {  // '['
        CompState {
            code: st.code.push(Op::JmpIfZ(0)),
            stack: st.stack.push(st.code.len() as usize),
            err: None,
        }
    } else if b == 93u8 {  // ']'
        if st.stack.len() == 0 {
            CompState { code: st.code, stack: st.stack, err: Some(SyntaxError::UnmatchedClose) }
        } else {
            CompState {
                code: st.code.update(
                    st.stack.last() as int,
                    Op::JmpIfZ(st.code.len() as usize),
                ).push(Op::JmpIfNZ(st.stack.last())),
                stack: st.stack.drop_last(),
                err: None,
            }
        }
    } else if b == 46u8 {  // '.'
        CompState { code: st.code.push(Op::Print), stack: st.stack, err: None }
    } else if b == 44u8 {  // ','
        CompState { code: st.code.push(Op::Read), stack: st.stack, err: None }
    } else {
        st
    }
}

pub open spec fn comp_init() -> CompState {
    CompState { code: Seq::empty(), stack: Seq::empty(), err: None }
}

/// State of the scan after the first `n` bytes of `s`.
pub open spec fn comp_prefix(s: Seq<u8>, n: int) -> CompState
    decreases n,
{
    if n <= 0 {
        comp_init()
    } else {
        comp_step(comp_prefix(s, n - 1), s[n - 1])
    }
}

/// What compilation of the whole source yields.
pub open spec fn compile_spec(s: Seq<u8>) -> Result<Seq<Op>, SyntaxError> {
    let st = comp_prefix(s, s.len() as int);
    match st.err {
        Some(e) => Err(e),
        None => if st.stack.len() > 0 {
            Err(SyntaxError::UnmatchedOpen)
        } else {
            Ok(st.code)
        },
    }
}

/// Internal invariant of the scan, when no error has been met: the stack
/// holds strictly increasing indices of pending opening brackets, every
/// closing jump is resolved against its partner, and every opening jump is
/// either pending or resolved.
pub open spec fn comp_inv(st: CompState) -> bool {
    st.err is None ==> {
        &&& forall|k: int|
            0 <= k < st.stack.len() ==> #[trigger] st.stack[k] < st.code.len()
                && (st.code[st.stack[k] as int] matches Op::JmpIfZ(_))
        &&& forall|a: int, b: int|
            0 <= a < b < st.stack.len() ==> #[trigger] st.stack[a] < #[trigger] st.stack[b]
        &&& forall|i: int|
            0 <= i < st.code.len() ==> match #[trigger] st.code[i] {
                Op::JmpIfNZ(t) => t < i && st.code[t as int] == Op::JmpIfZ(i as usize)
                    && !st.stack.contains(t),
                _ => true,
            }
        &&& forall|i: int|
            0 <= i < st.code.len() ==> match #[trigger] st.code[i] {
                Op::JmpIfZ(t) => st.stack.contains(i as usize) || (i < t < st.code.len()
                    && st.code[t as int] == Op::JmpIfNZ(i as usize)),
                _ => true,
            }
    }
}

proof fn lemma_push_plain_inv(st: CompState, o: Op)
    requires
        comp_inv(st),
        st.err is None,
        !(o matches Op::JmpIfZ(_)),
        !(o matches Op::JmpIfNZ(_)),
    ensures
        comp_inv(CompState { code: st.code.push(o), stack: st.stack, err: None }),
{
    let st2 = CompState { code: st.code.push(o), stack: st.stack, err: None };
    assert forall|k: int| 0 <= k < st2.stack.len() implies #[trigger] st2.stack[k]
        < st2.code.len() && (st2.code[st2.stack[k] as int] matches Op::JmpIfZ(_)) by {
        assert(st2.code[st.stack[k] as int] == st.code[st.stack[k] as int]);
    }
    assert forall|i: int| 0 <= i < st2.code.len() implies match #[trigger] st2.code[i] {
        Op::JmpIfNZ(t) => t < i && st2.code[t as int] == Op::JmpIfZ(i as usize)
            && !st2.stack.contains(t),
        _ => true,
    } by {
        if i < st.code.len() {
            assert(st2.code[i] == st.code[i]);
        } else {
            assert(st2.code[i] == o);
        }
    }
    assert forall|i: int| 0 <= i < st2.code.len() implies match #[trigger] st2.code[i] {
        Op::JmpIfZ(t) => st2.stack.contains(i as usize) || (i < t < st2.code.len()
            && st2.code[t as int] == Op::JmpIfNZ(i as usize)),
        _ => true,
    } by {
        if i < st.code.len() {
            assert(st2.code[i] == st.code[i]);
            match st.code[i] {
                Op::JmpIfZ(t) => {
                    if !st.stack.contains(i as usize) {
                        assert(st2.code[t as int] == st.code[t as int]);
                    }
                },
                _ => {},
            }
        } else {
            assert(st2.code[i] == o);
        }
    }
}

#[verifier::spinoff_prover]
pub proof fn lemma_comp_step_inv(st: CompState, b: u8)
    requires
        comp_inv(st),
        st.code.len() < usize::MAX,
    ensures
        comp_inv(comp_step(st, b)),
        comp_step(st, b).code.len() <= st.code.len() + 1,
{
    let st2 = comp_step(st, b);
    if st.err is Some {
    } else if fold_eligible(b) {
        if st.code.len() > 0 && folds_with(b, st.code.last()) {
            let last = st.code.len() - 1;
            assert forall|k: int| 0 <= k < st2.stack.len() implies #[trigger] st2.stack[k]
                < st2.code.len() && (st2.code[st2.stack[k] as int] matches Op::JmpIfZ(_)) by {
                assert(st.stack[k] < st.code.len());
                assert(st.code[st.stack[k] as int] matches Op::JmpIfZ(_));
                assert(st.stack[k] as int != last);
                assert(st2.code[st.stack[k] as int] == st.code[st.stack[k] as int]);
            }
            assert forall|i: int| 0 <= i < st2.code.len() implies match #[trigger] st2.code[i] {
                Op::JmpIfNZ(t) => t < i && st2.code[t as int] == Op::JmpIfZ(i as usize)
                    && !st2.stack.contains(t),
                _ => true,
            } by {
                assert(st2.code[i] == if i == last { bump(st.code.last()) } else { st.code[i] });
                if i != last {
                    match st.code[i] {
                        Op::JmpIfNZ(t) => {
                            assert(t as int != last);
                            assert(st2.code[t as int] == st.code[t as int]);
                        },
                        _ => {},
                    }
                }
            }
            assert forall|i: int| 0 <= i < st2.code.len() implies match #[trigger] st2.code[i] {
                Op::JmpIfZ(t) => st2.stack.contains(i as usize) || (i < t < st2.code.len()
                    && st2.code[t as int] == Op::JmpIfNZ(i as usize)),
                _ => true,
            } by {
                assert(st2.code[i] == if i == last { bump(st.code.last()) } else { st.code[i] });
                if i != last {
                    match st.code[i] {
                        Op::JmpIfZ(t) => {
                            if !st.stack.contains(i as usize) {
                                assert(t as int != last);
                                assert(st2.code[t as int] == st.code[t as int]);
                            }
                        },
                        _ => {},
                    }
                }
            }
        } else {
            lemma_push_plain_inv(st, unit_op(b));
        }
    } else if b == 91u8 {
        let n = st.code.len() as int;
        assert forall|k: int| 0 <= k < st2.stack.len() implies #[trigger] st2.stack[k]
            < st2.code.len() && (st2.code[st2.stack[k] as int] matches Op::JmpIfZ(_)) by {
            if k < st.stack.len() {
                assert(st2.stack[k] == st.stack[k]);
                assert(st2.code[st.stack[k] as int] == st.code[st.stack[k] as int]);
            } else {
                assert(st2.stack[k] == n as usize);
            }
        }
        assert forall|a: int, c: int| 0 <= a < c < st2.stack.len() implies #[trigger] st2.stack[a]
            < #[trigger] st2.stack[c] by {
            if c < st.stack.len() {
            } else {
                assert(st2.stack[c] == n as usize);
                assert(st2.stack[a] == st.stack[a]);
                assert(st.stack[a] < st.code.len());
            }
        }
        assert forall|i: int| 0 <= i < st2.code.len() implies match #[trigger] st2.code[i] {
            Op::JmpIfNZ(t) => t < i && st2.code[t as int] == Op::JmpIfZ(i as usize)
                && !st2.stack.contains(t),
            _ => true,
        } by {
            if i < n {
                assert(st2.code[i] == st.code[i]);
                match st.code[i] {
                    Op::JmpIfNZ(t) => {
                        assert(st2.code[t as int] == st.code[t as int]);
                        assert(!st2.stack.contains(t)) by {
                            if st2.stack.contains(t) {
                                let k = choose|k: int|
                                    0 <= k < st2.stack.len() && st2.stack[k] == t;
                                if k < st.stack.len() {
                                    assert(st.stack.contains(t));
                                } else {
                                    assert(t == n as usize);
                                }
                            }
                        }
                    },
                    _ => {},
                }
            } else {
                assert(st2.code[i] == Op::JmpIfZ(0));
            }
        }
        assert forall|i: int| 0 <= i < st2.code.len() implies match #[trigger] st2.code[i] {
            Op::JmpIfZ(t) => st2.stack.contains(i as usize) || (i < t < st2.code.len()
                && st2.code[t as int] == Op::JmpIfNZ(i as usize)),
            _ => true,
        } by {
            if i < n {
                assert(st2.code[i] == st.code[i]);
                match st.code[i] {
                    Op::JmpIfZ(t) => {
                        if st.stack.contains(i as usize) {
                            let k = choose|k: int|
                                0 <= k < st.stack.len() && st.stack[k] == i as usize;
                            assert(st2.stack[k] == i as usize);
                            assert(st2.stack.contains(i as usize));
                        } else {
                            assert(st2.code[t as int] == st.code[t as int]);
                        }
                    },
                    _ => {},
                }
            } else {
                assert(st2.code[i] == Op::JmpIfZ(0));
                assert(st2.stack[st2.stack.len() - 1] == n as usize);
                assert(st2.stack.contains(i as usize));
            }
        }
    } else if b == 93u8 && st.stack.len() > 0 {
        let open = st.stack.last() as int;
        let close = st.code.len() as int;
        // the pending opening bracket is a `JmpIfZ`, and nothing points at it
        assert(st.stack[st.stack.len() - 1] == st.stack.last());
        assert(st.code[open] matches Op::JmpIfZ(_));
        assert forall|k: int| 0 <= k < st2.stack.len() implies #[trigger] st2.stack[k]
            < st2.code.len() && (st2.code[st2.stack[k] as int] matches Op::JmpIfZ(_)) by {
            assert(st2.stack[k] == st.stack[k]);
            assert(st.stack[k] < st.stack.last()) by {
                assert(0 <= k < st.stack.len() - 1);
            }
            assert(st2.code[st.stack[k] as int] == st.code[st.stack[k] as int]);
        }
        assert forall|i: int| 0 <= i < st2.code.len() implies match #[trigger] st2.code[i] {
            Op::JmpIfNZ(t) => t < i && st2.code[t as int] == Op::JmpIfZ(i as usize)
                && !st2.stack.contains(t),
            _ => true,
        } by {
            if i < close {
                if i != open {
                    assert(st2.code[i] == st.code[i]);
                    match st.code[i] {
                        Op::JmpIfNZ(t) => {
                            assert(!st.stack.contains(t));
                            assert(t != open as usize) by {
                                assert(st.stack.contains(st.stack.last()));
                            }
                            assert(st2.code[t as int] == st.code[t as int]);
                            assert(!st2.stack.contains(t)) by {
                                if st2.stack.contains(t) {
                                    let k = choose|k: int|
                                        0 <= k < st2.stack.len() && st2.stack[k] == t;
                                    assert(st.stack[k] == t);
                                }
                            }
                        },
                        _ => {},
                    }
                }
            } else {
                // the new closing jump at `close`
                assert(st2.code[i] == Op::JmpIfNZ(st.stack.last()));
                assert(st2.code[open] == Op::JmpIfZ(close as usize));
                assert(!st2.stack.contains(open as usize)) by {
                    if st2.stack.contains(open as usize) {
                        let k = choose|k: int|
                            0 <= k < st2.stack.len() && st2.stack[k] == open as usize;
                        assert(st.stack[k] < st.stack.last());
                    }
                }
            }
        }
        assert forall|i: int| 0 <= i < st2.code.len() implies match #[trigger] st2.code[i] {
            Op::JmpIfZ(t) => st2.stack.contains(i as usize) || (i < t < st2.code.len()
                && st2.code[t as int] == Op::JmpIfNZ(i as usize)),
            _ => true,
        } by {
            if i == open {
                assert(st2.code[i] == Op::JmpIfZ(close as usize));
                assert(st2.code[close] == Op::JmpIfNZ(open as usize));
            } else if i < close {
                assert(st2.code[i] == st.code[i]);
                match st.code[i] {
                    Op::JmpIfZ(t) => {
                        if st.stack.contains(i as usize) {
                            let k = choose|k: int|
                                0 <= k < st.stack.len() && st.stack[k] == i as usize;
                            assert(k < st.stack.len() - 1) by {
                                if k == st.stack.len() - 1 {
                                    assert(st.stack[k] == st.stack.last());
                                    assert(i as usize == st.stack.last());
                                    assert(i == st.stack.last() as int);
                                    assert(false);
                                }
                            }
                            assert(st2.stack[k] == i as usize);
                            assert(st2.stack.contains(i as usize));
                        } else {
                            assert(st.code[t as int] == Op::JmpIfNZ(i as usize));
                            assert(t != open as usize);
                            assert(st2.code[t as int] == st.code[t as int]);
                        }
                    },
                    _ => {},
                }
            }
        }
    } else if b == 46u8 {
        lemma_push_plain_inv(st, Op::Print);
    } else if b == 44u8 {
        lemma_push_plain_inv(st, Op::Read);
    }
}

pub proof fn lemma_comp_prefix_inv(s: Seq<u8>, n: int)
    requires
        0 <= n <= usize::MAX,
    ensures
        comp_inv(comp_prefix(s, n)),
        comp_prefix(s, n).code.len() <= n,
    decreases n,
{
    if n <= 0 {
    } else {
        lemma_comp_prefix_inv(s, n - 1);
        lemma_comp_step_inv(comp_prefix(s, n - 1), s[n - 1]);
        assert(comp_prefix(s, n) == comp_step(comp_prefix(s, n - 1), s[n - 1]));
    }
}

/// A program the compiler accepts has all its bracket pairs mutually
/// resolved.
pub proof fn lemma_compile_resolved(s: Seq<u8>)
    requires
        s.len() <= usize::MAX,
    ensures
        compile_spec(s) matches Ok(code) ==> brackets_resolved(code),
{
    lemma_comp_prefix_inv(s, s.len() as int);
    let st = comp_prefix(s, s.len() as int);
    if st.err is None && st.stack.len() == 0 {
        assert forall|i: int| 0 <= i < st.code.len() implies match #[trigger] st.code[i] {
            Op::JmpIfZ(t) => i < t < st.code.len() && st.code[t as int] == Op::JmpIfNZ(i as usize),
            _ => true,
        } by {
            match st.code[i] {
                Op::JmpIfZ(t) => {
                    assert(!st.stack.contains(i as usize));
                },
                _ => {},
            }
        }
    }
}

/// Once the scan has met an error it no longer moves.
pub proof fn lemma_err_stable(s: Seq<u8>, n: int, m: int)
    requires
        0 <= n <= m,
        comp_prefix(s, n).err is Some,
    ensures
        comp_prefix(s, m) == comp_prefix(s, n),
    decreases m - n,
{
    if m > n {
        lemma_err_stable(s, n, m - 1);
    }
}

/// Compiles source text into a bytecode program.
pub struct Compiler<'a> {
    program: &'a str,
}

impl<'a> Compiler<'a> {
    /// The source text, as the byte sequence the scan walks.
    pub closed spec fn src(&self) -> Seq<u8> {
        self.program.spec_bytes()
    }

    pub fn new(program: &'a str) -> (c: Self)
        ensures
            c.src() == program.spec_bytes(),
    {
        Self { program }
    }

    /// Scan the source once; produce the program, or the first bracket
    /// error, with no partial output.
    pub fn compile(&self) -> (r: Result<Vec<Op>, SyntaxError>)
        ensures
            match r {
                Ok(code) => compile_spec(self.src()) == Ok::<Seq<Op>, SyntaxError>(code@),
                Err(e) => compile_spec(self.src()) == Err::<Seq<Op>, SyntaxError>(e),
            },
            r matches Ok(code) ==> prog_wf(code@),
    {
        let bytes: Vec<u8> = self.program.as_bytes_vec();
        let mut code: Vec<Op> = Vec::new();
        let mut stack: Vec<usize> = Vec::new();
        let n: usize = bytes.len();
        let ghost s = self.src();

        for i in 0..n
            invariant
                s == self.src(),
                bytes@ == s,
                n == bytes@.len(),
                comp_prefix(s, i as int) == (CompState { code: code@, stack: stack@, err: None }),
        {
            proof {
                lemma_comp_prefix_inv(s, i as int);
            }
            let ghost st = comp_prefix(s, i as int);
            let b: u8 = bytes[i];
            match b {
                43u8 | 45u8 | 62u8 | 60u8 => {
                    let clen: usize = code.len();
                    let mut folded = false;
                    if clen > 0 {
                        let last = code[clen - 1];
                        match last {
                            Op::Inc(c) => if b == 43u8 && c < FOLD_CAP {
                                code[clen - 1] = Op::Inc(c + 1);
                                folded = true;
                            },
                            Op::Dec(c) => if b == 45u8 && c < FOLD_CAP {
                                code[clen - 1] = Op::Dec(c + 1);
                                folded = true;
                            },
                            Op::MovR(c) => if b == 62u8 && c < FOLD_CAP {
                                code[clen - 1] = Op::MovR(c + 1);
                                folded = true;
                            },
                            Op::MovL(c) => if b == 60u8 && c < FOLD_CAP {
                                code[clen - 1] = Op::MovL(c + 1);
                                folded = true;
                            },
                            _ => {},
                        }
                    }
                    if !folded {
                        let op = if b == 43u8 {
                            Op::Inc(1)
                        } else if b == 45u8 {
                            Op::Dec(1)
                        } else if b == 62u8 {
                            Op::MovR(1)
                        } else {
                            Op::MovL(1)
                        };
                        code.push(op);
                    }
                }
                91u8 => {
                    stack.push(code.len());
                    code.push(Op::JmpIfZ(0));
                }
                93u8 => {
                    match stack.pop() {
                        None => {
                            proof {
                                assert(comp_prefix(s, i + 1) == comp_step(st, s[i as int]));
                                assert(comp_prefix(s, i + 1).err
                                    == Some(SyntaxError::UnmatchedClose));
                                lemma_err_stable(s, i + 1, s.len() as int);
                                assert(comp_prefix(s, s.len() as int).err
                                    == Some(SyntaxError::UnmatchedClose));
                                assert(compile_spec(s)
                                    == Err::<Seq<Op>, SyntaxError>(SyntaxError::UnmatchedClose));
                            }
                            return Err(SyntaxError::UnmatchedClose);
                        }
                        Some(open) => {
                            proof {
                                assert(st.stack[st.stack.len() - 1] == st.stack.last());
                            }
                            let close: usize = code.len();
                            code[open] = Op::JmpIfZ(close);
                            code.push(Op::JmpIfNZ(open));
                        }
                    }
                }
                46u8 => {
                    code.push(Op::Print);
                }
                44u8 => {
                    code.push(Op::Read);
                }
                _ => {}
            }
            assert(comp_prefix(s, i + 1) == comp_step(st, s[i as int]));
            assert(comp_prefix(s, i + 1) == (CompState {
                code: code@,
                stack: stack@,
                err: None,
            }));
        }

        if stack.len() > 0 {
            Err(SyntaxError::UnmatchedOpen)
        } else {
            proof {
                lemma_compile_resolved(s);
            }
            Ok(code)
        }
    }
}


/// Determinism: compiling the same source always yields the same program
/// (or the same error); the scan is a function of the source alone.
pub proof fn lemma_compile_deterministic(
    s: Seq<u8>,
    r1: Result<Seq<Op>, SyntaxError>,
    r2: Result<Seq<Op>, SyntaxError>,
)
    requires
        r1 == compile_spec(s),
        r2 == compile_spec(s),
    ensures
        r1 == r2,
{
}

/// The run length an instruction carries.
pub open spec fn op_count(o: Op) -> int {
    match o {
        Op::Inc(n) => n as int,
        Op::Dec(n) => n as int,
        Op::MovR(n) => n as int,
        Op::MovL(n) => n as int,
        _ => 0,
    }
}

/// Sum of the run lengths of a program's instructions.
pub open spec fn count_sum(code: Seq<Op>) -> int
    decreases code.len(),
{
    if code.len() == 0 {
        0
    } else {
        count_sum(code.drop_last()) + op_count(code.last())
    }
}

/// The folded instruction of run length `m` for character `c`.
pub open spec fn run_op_of(c: u8, m: u8) -> Op {
    if c == 43u8 {
        Op::Inc(m)
    } else if c == 45u8 {
        Op::Dec(m)
    } else if c == 62u8 {
        Op::MovR(m)
    } else {
        Op::MovL(m)
    }
}

proof fn lemma_fold_run(s: Seq<u8>, c: u8, n: int)
    requires
        fold_eligible(c),
        0 <= n <= s.len(),
        forall|i: int| 0 <= i < s.len() ==> s[i] == c,
    ensures
        ({
            let st = comp_prefix(s, n);
            &&& st.err is None
            &&& st.stack.len() == 0
            &&& count_sum(st.code) == n
            &&& (n == 0 ==> st.code.len() == 0)
            &&& (n > 0 ==> {
                let len = st.code.len() as int;
                &&& len >= 1
                &&& (len - 1) * (FOLD_CAP as int) < n <= len * (FOLD_CAP as int)
                &&& forall|i: int|
                    0 <= i < len - 1 ==> #[trigger] st.code[i] == run_op_of(c, FOLD_CAP)
                &&& st.code[len - 1] == run_op_of(c, (n - (len - 1) * (FOLD_CAP as int)) as u8)
            })
        }),
    decreases n,
{
    if n <= 0 {
    } else {
        lemma_fold_run(s, c, n - 1);
        let st = comp_prefix(s, n - 1);
        let st2 = comp_prefix(s, n);
        assert(st2 == comp_step(st, c));
        if n - 1 == 0 {
            assert(st2.code =~= st.code.push(unit_op(c)));
            assert(st2.code.drop_last() =~= st.code);
        } else {
            let len = st.code.len() as int;
            let last = st.code[len - 1];
            let m = n - 1 - (len - 1) * (FOLD_CAP as int);
            assert(last == run_op_of(c, m as u8));
            if m < FOLD_CAP as int {
                // the run continues inside the last instruction
                assert(folds_with(c, st.code.last()));
                assert(bump(last) == run_op_of(c, (m + 1) as u8));
                assert(st2.code =~= st.code.update(len - 1, bump(last)));
                assert(st2.code.drop_last() =~= st.code.drop_last());
                assert(count_sum(st2.code) == count_sum(st.code) + 1);
            } else {
                // the last instruction is full: a new one starts
                assert(m == FOLD_CAP as int);
                assert(!folds_with(c, st.code.last()));
                assert(st2.code =~= st.code.push(unit_op(c)));
                assert(st2.code.drop_last() =~= st.code);
                assert(unit_op(c) == run_op_of(c, 1u8));
                assert((n - 1) == len * (FOLD_CAP as int));
                assert(len * (FOLD_CAP as int) < n <= (len + 1) * (FOLD_CAP as int))
                    by (nonlinear_arith)
                    requires
                        n - 1 == len * (FOLD_CAP as int),
                        len >= 1,
                {}
            }
        }
    }
}

/// Fold bound: a source of `k` identical fold-eligible characters compiles
/// to at most `ceil(k / FOLD_CAP)` instructions, all of the one kind that
/// character folds to, whose run lengths sum to `k`.
pub proof fn lemma_fold_bound(s: Seq<u8>, c: u8, k: nat)
    requires
        fold_eligible(c),
        s.len() == k,
        forall|i: int| 0 <= i < s.len() ==> s[i] == c,
    ensures
        compile_spec(s) is Ok,
        ({
            let code = compile_spec(s)->Ok_0;
            &&& count_sum(code) == k
            &&& (code.len() as int) * (FOLD_CAP as int) >= k
            &&& k > 0 ==> ((code.len() as int) - 1) * (FOLD_CAP as int) < k
            &&& k > 0 ==> code.len() == (k + FOLD_CAP - 1) / (FOLD_CAP as int)
            &&& forall|i: int|
                0 <= i < code.len() ==> op_count(#[trigger] code[i]) >= 1 && code[i]
                    == run_op_of(c, op_count(code[i]) as u8)
        }),
{
    lemma_fold_run(s, c, k as int);
    let st = comp_prefix(s, k as int);
    let code = st.code;
    if k > 0 {
        let len = code.len() as int;
        assert forall|i: int| 0 <= i < code.len() implies op_count(#[trigger] code[i]) >= 1
            && code[i] == run_op_of(c, op_count(code[i]) as u8) by {
            if i < len - 1 {
                assert(code[i] == run_op_of(c, FOLD_CAP));
            }
        }
        assert(len == (k + FOLD_CAP - 1) / (FOLD_CAP as int)) by (nonlinear_arith)
            requires
                (len - 1) * (FOLD_CAP as int) < k <= len * (FOLD_CAP as int),
                len >= 1,
                FOLD_CAP == 255u8,
        {}
    }
}

} // verus!
