//! The bytecode instruction set and well-formedness of instruction sequences.

use vstd::prelude::*;
use vstd::string::{StringExecFns, StringSliceAdditionalSpecFns};

verus! {

/// Largest run length that a single folded instruction may carry.
pub const FOLD_CAP: u8 = 255;

/// One bytecode instruction.
///
/// The `u8` payloads are run lengths produced by the compiler's folding pass
/// (never larger than [`FOLD_CAP`]); the `usize` payloads of the two jump
/// variants are absolute instruction indices into the enclosing program,
/// resolved once at compile time.
#[derive(Clone, Copy, Debug, PartialEq, Eq, Structural)]
pub enum Op {
    Nop,
    Inc(u8),
    Dec(u8),
    MovR(u8),
    MovL(u8),
    /// Jump to the matching `JmpIfNZ` if the current cell is zero.
    JmpIfZ(usize),
    /// Jump back to the matching `JmpIfZ` if the current cell is not zero.
    JmpIfNZ(usize),
    Print,
    Read,
}

/// Every jump target is an index of some instruction of the program.
pub open spec fn targets_in_range(code: Seq<Op>) -> bool {
    forall|i: int|
        0 <= i < code.len() ==> match #[trigger] code[i] {
            Op::JmpIfZ(t) => t < code.len(),
            Op::JmpIfNZ(t) => t < code.len(),
            _ => true,
        }
}

/// Bracket pairs are mutually resolved: a `JmpIfZ` at `i` with target `j`
/// stands opposite a `JmpIfNZ` at `j` with target `i`, and vice versa.
pub open spec fn brackets_resolved(code: Seq<Op>) -> bool {
    &&& forall|i: int|
        0 <= i < code.len() ==> match #[trigger] code[i] {
            Op::JmpIfZ(t) => i < t < code.len() && code[t as int] == Op::JmpIfNZ(i as usize),
            _ => true,
        }
    &&& forall|i: int|
        0 <= i < code.len() ==> match #[trigger] code[i] {
            Op::JmpIfNZ(t) => t < i && code[t as int] == Op::JmpIfZ(i as usize),
            _ => true,
        }
}

/// A well-formed program: all branch targets resolved to matching partners.
pub open spec fn prog_wf(code: Seq<Op>) -> bool {
    brackets_resolved(code)
}

pub proof fn lemma_resolved_targets_in_range(code: Seq<Op>)
    requires
        brackets_resolved(code),
    ensures
        targets_in_range(code),
{
}

/// The decimal digit character for `d`.
pub open spec fn digit_char(d: int) -> char {
    if d == 0 {
        '0'
    } else if d == 1 {
        '1'
    } else if d == 2 {
        '2'
    } else if d == 3 {
        '3'
    } else if d == 4 {
        '4'
    } else if d == 5 {
        '5'
    } else if d == 6 {
        '6'
    } else if d == 7 {
        '7'
    } else if d == 8 {
        '8'
    } else {
        '9'
    }
}

/// The decimal rendering of `n`, most significant digit first.
pub open spec fn dec_rep(n: int) -> Seq<char>
    decreases n,
{
    if n < 10 {
        seq![digit_char(n)]
    } else {
        dec_rep(n / 10).push(digit_char(n % 10))
    }
}

fn push_digit(s: &mut String, d: u8)
    requires
        d < 10,
    ensures
        final(s)@ == old(s)@ + seq![digit_char(d as int)],
{
    match d {
        0u8 => {
            s.append("0");
            proof {
                reveal_strlit("0");
                assert("0"@ =~= seq![digit_char(0)]);
            }
        },
        1u8 => {
            s.append("1");
            proof {
                reveal_strlit("1");
                assert("1"@ =~= seq![digit_char(1)]);
            }
        },
        2u8 => {
            s.append("2");
            proof {
                reveal_strlit("2");
                assert("2"@ =~= seq![digit_char(2)]);
            }
        },
        3u8 => {
            s.append("3");
            proof {
                reveal_strlit("3");
                assert("3"@ =~= seq![digit_char(3)]);
            }
        },
        4u8 => {
            s.append("4");
            proof {
                reveal_strlit("4");
                assert("4"@ =~= seq![digit_char(4)]);
            }
        },
        5u8 => {
            s.append("5");
            proof {
                reveal_strlit("5");
                assert("5"@ =~= seq![digit_char(5)]);
            }
        },
        6u8 => {
            s.append("6");
            proof {
                reveal_strlit("6");
                assert("6"@ =~= seq![digit_char(6)]);
            }
        },
        7u8 => {
            s.append("7");
            proof {
                reveal_strlit("7");
                assert("7"@ =~= seq![digit_char(7)]);
            }
        },
        8u8 => {
            s.append("8");
            proof {
                reveal_strlit("8");
                assert("8"@ =~= seq![digit_char(8)]);
            }
        },
        _ => {
            s.append("9");
            proof {
                reveal_strlit("9");
                assert("9"@ =~= seq![digit_char(9)]);
            }
        },
    }
}

fn push_decimal(s: &mut String, n: usize)
    ensures
        final(s)@ == old(s)@ + dec_rep(n as int),
    decreases n,
{
    if n >= 10 {
        push_decimal(s, n / 10);
        push_digit(s, (n % 10) as u8);
        proof {
            assert(final(s)@ =~= old(s)@ + dec_rep(n as int));
        }
    } else {
        push_digit(s, n as u8);
    }
}

/// The rendering of one instruction, as [`Op::text`] yields it.
pub open spec fn op_text_spec(o: Op) -> Seq<char> {
    match o {
        Op::Nop => "Nop"@,
        Op::Inc(n) => "Inc by "@ + dec_rep(n as int),
        Op::Dec(n) => "Dec by "@ + dec_rep(n as int),
        Op::MovR(n) => "MovR by "@ + dec_rep(n as int),
        Op::MovL(n) => "MovL by "@ + dec_rep(n as int),
        Op::JmpIfZ(t) => "JmpIfZ to "@ + dec_rep(t as int),
        Op::JmpIfNZ(t) => "JmpIfNZ to "@ + dec_rep(t as int),
        Op::Print => "Print"@,
        Op::Read => "Read"@,
    }
}

impl Op {
    /// A human-readable rendering of the instruction.
    pub fn text(&self) -> (s: String)
        ensures
            s@ == op_text_spec(*self),
    {
        match self {
            Op::Nop => String::from_str("Nop"),
            Op::Inc(n) => {
                let mut s = String::from_str("Inc by ");
                push_decimal(&mut s, *n as usize);
                s
            },
            Op::Dec(n) => {
                let mut s = String::from_str("Dec by ");
                push_decimal(&mut s, *n as usize);
                s
            },
            Op::MovR(n) => {
                let mut s = String::from_str("MovR by ");
                push_decimal(&mut s, *n as usize);
                s
            },
            Op::MovL(n) => {
                let mut s = String::from_str("MovL by ");
                push_decimal(&mut s, *n as usize);
                s
            },
            Op::JmpIfZ(t) => {
                let mut s = String::from_str("JmpIfZ to ");
                push_decimal(&mut s, *t);
                s
            },
            Op::JmpIfNZ(t) => {
                let mut s = String::from_str("JmpIfNZ to ");
                push_decimal(&mut s, *t);
                s
            },
            Op::Print => String::from_str("Print"),
            Op::Read => String::from_str("Read"),
        }
    }
}

} // verus!
