//! The I/O capability consumed by the interpreter and the runtime: ordered
//! byte output, blocking byte input, and an explicit flush.
//!
//! Each implementation models its behaviour as a log of I/O events. An
//! implementation whose reads are determined by its own state (such as
//! [`MemoryIO`]) additionally exposes the exact bytes still pending.

use vstd::prelude::*;

use std::io::Read;
use std::io::Write;

use crate::sem::outs;

verus! {

/// One observable I/O action of a capability.
#[derive(Clone, Copy, Debug, PartialEq, Eq, Structural)]
pub enum IoEvent {
    /// A byte was accepted for output.
    Wrote(u8),
    /// A byte was obtained from input.
    ReadGot(u8),
}

/// Byte I/O capability: ordered writes, blocking reads, explicit flush.
///
/// `log()` is the history of accepted writes and completed reads. When
/// `det()` holds, reads are determined by the capability's own state and
/// `pending()` names the exact bytes still to be read.
pub trait IO: Sized {
    /// Implementation-specific well-formedness.
    spec fn inv(&self) -> bool;

    /// History of I/O events, oldest first.
    spec fn log(&self) -> Seq<IoEvent>;

    /// Do reads return state-determined bytes?
    spec fn det(&self) -> bool;

    /// The bytes still to be read, when `det()` holds.
    spec fn pending(&self) -> Seq<u8>;

    /// May `read_byte` be called now?
    spec fn can_read(&self) -> bool;

    /// Whether input remains; `read_byte` is permitted exactly when it does.
    fn has_input(&self) -> (b: bool)
        requires
            self.inv(),
        ensures
            b == self.can_read(),
    ;

    /// Accept one byte for ordered output.
    fn write_byte(&mut self, c: u8)
        requires
            old(self).inv(),
        ensures
            final(self).inv(),
            final(self).log() == old(self).log().push(IoEvent::Wrote(c)),
            final(self).det() == old(self).det(),
            final(self).pending() == old(self).pending(),
            final(self).can_read() == old(self).can_read(),
    ;

    /// Obtain the next input byte (blocking).
    fn read_byte(&mut self) -> (r: u8)
        requires
            old(self).inv(),
            old(self).can_read(),
        ensures
            final(self).inv(),
            final(self).log() == old(self).log().push(IoEvent::ReadGot(r)),
            final(self).det() == old(self).det(),
            old(self).det() ==> old(self).pending().len() > 0 && r == old(self).pending()[0]
                && final(self).pending() == old(self).pending().skip(1),
            old(self).det() ==> (final(self).can_read() <==> final(self).pending().len() > 0),
    ;

    /// Force buffered output out now.
    fn flush(&mut self)
        requires
            old(self).inv(),
        ensures
            final(self).inv(),
            final(self).log() == old(self).log(),
            final(self).det() == old(self).det(),
            final(self).pending() == old(self).pending(),
            final(self).can_read() == old(self).can_read(),
    ;
}

/// The input bytes at or after `pos`, with carriage returns and line feeds
/// left out: what a reader of `s` will actually be handed.
pub open spec fn eff(s: Seq<u8>, pos: int) -> Seq<u8>
    decreases s.len() - pos,
{
    if pos < 0 || pos >= s.len() {
        Seq::empty()
    } else if s[pos] == 13u8 || s[pos] == 10u8 {
        eff(s, pos + 1)
    } else {
        seq![s[pos]] + eff(s, pos + 1)
    }
}

/// In-memory capability: writes collect in an owned buffer, reads come from
/// a fixed byte sequence, skipping carriage returns and line feeds.
pub struct MemoryIO {
    output: Vec<u8>,
    input: Vec<u8>,
    input_pos: usize,
    hist: Ghost<Seq<IoEvent>>,
}

impl MemoryIO {
    /// The bytes written so far.
    pub closed spec fn out_view(&self) -> Seq<u8> {
        self.output@
    }

    pub fn new(input: Vec<u8>) -> (io: Self)
        ensures
            io.inv(),
            io.log() == Seq::<IoEvent>::empty(),
            io.det(),
            io.pending() == eff(input@, 0),
            io.can_read() <==> io.pending().len() > 0,
            io.out_view() == Seq::<u8>::empty(),
    {
        Self { output: Vec::new(), input, input_pos: 0, hist: Ghost(Seq::empty()) }
    }

    /// Hand back everything written: exactly the written bytes of the log.
    pub fn into_output(self) -> (out: Vec<u8>)
        requires
            self.inv(),
        ensures
            out@ == self.out_view(),
            out@ == outs(self.log()),
    {
        self.output
    }
}

impl IO for MemoryIO {
    closed spec fn inv(&self) -> bool {
        self.input_pos <= self.input@.len() && self.output@ == outs(self.hist@)
    }

    closed spec fn log(&self) -> Seq<IoEvent> {
        self.hist@
    }

    closed spec fn det(&self) -> bool {
        true
    }

    closed spec fn pending(&self) -> Seq<u8> {
        eff(self.input@, self.input_pos as int)
    }

    closed spec fn can_read(&self) -> bool {
        eff(self.input@, self.input_pos as int).len() > 0
    }

    fn has_input(&self) -> (b: bool) {
        let n: usize = self.input.len();
        let mut i: usize = self.input_pos;
        while i < n
            invariant
                self.input_pos <= i <= n,
                n == self.input@.len(),
                eff(self.input@, self.input_pos as int) == eff(self.input@, i as int),
            decreases n - i,
        {
            let b: u8 = self.input[i];
            if b != 13u8 && b != 10u8 {
                assert(eff(self.input@, i as int).len() > 0);
                return true;
            }
            i = i + 1;
        }
        false
    }

    fn write_byte(&mut self, c: u8) {
        self.output.push(c);
        self.hist = Ghost(self.hist@.push(IoEvent::Wrote(c)));
        proof {
            assert(self.hist@.drop_last() =~= old(self).hist@);
            assert(outs(self.hist@) == outs(old(self).hist@).push(c));
        }
    }

    fn read_byte(&mut self) -> (r: u8) {
        loop
            invariant
                self.input_pos <= self.input@.len(),
                self.input@ == old(self).input@,
                self.output@ == old(self).output@,
                self.hist@ == old(self).hist@,
                self.output@ == outs(self.hist@),
                eff(self.input@, self.input_pos as int)
                    == eff(old(self).input@, old(self).input_pos as int),
                eff(self.input@, self.input_pos as int).len() > 0,
            decreases self.input@.len() - self.input_pos,
        {
            let ghost p = self.input_pos as int;
            let n: usize = self.input.len();
            assert(self.input_pos < n);
            let b: u8 = self.input[self.input_pos];
            self.input_pos = self.input_pos + 1;
            if b != 13u8 && b != 10u8 {
                self.hist = Ghost(self.hist@.push(IoEvent::ReadGot(b)));
                proof {
                    assert(self.hist@.drop_last() =~= old(self).hist@);
                    assert(outs(self.hist@) == outs(old(self).hist@));
                    assert(eff(self.input@, p) == seq![b] + eff(self.input@, p + 1));
                    assert((seq![b] + eff(self.input@, p + 1))[0] == b);
                    assert((seq![b] + eff(self.input@, p + 1)).skip(1)
                        =~= eff(self.input@, p + 1));
                }
                return b;
            }
        }
    }

    fn flush(&mut self) {
    }
}

/// Relies on `std::io::Stdout::write_all`: sends one byte to standard
/// output.
#[verifier::external_body]
fn stdout_write(c: u8)
{
    std::io::stdout().write_all(&[c]).unwrap();
}

/// Relies on `std::io::Stdout::write_all`: sends the first `n` bytes of
/// `buf` to standard output.
#[verifier::external_body]
fn stdout_write_prefix(buf: &Vec<u8>, n: usize)
    requires
        n <= buf@.len(),
{
    std::io::stdout().write_all(&buf[..n]).unwrap();
}

/// Relies on `std::io::Stdout::flush`: forces buffered standard output out.
#[verifier::external_body]
fn stdout_flush()
{
    std::io::stdout().flush().unwrap();
}

/// Relies on `std::io::Stdin::read_exact`: blocks for the next byte of
/// standard input that is not a carriage return (the retry on `\r` must sit
/// here, for nothing bounds how often a terminal may yield one); aborts the
/// process when input is exhausted, as the capability contract demands.
#[verifier::external_body]
fn stdin_read_byte() -> u8
{
    let mut buf = [0u8; 1];
    loop {
        std::io::stdin().read_exact(&mut buf).unwrap();
        if buf[0] != b'\r' {
            return buf[0];
        }
    }
}

/// Unbuffered capability over standard input and output; each written byte
/// is flushed at once.
pub struct SimpleIO {
    hist: Ghost<Seq<IoEvent>>,
}

impl SimpleIO {
    pub fn new() -> (io: Self)
        ensures
            io.inv(),
            io.log() == Seq::<IoEvent>::empty(),
    {
        Self { hist: Ghost(Seq::empty()) }
    }
}

impl IO for SimpleIO {
    closed spec fn inv(&self) -> bool {
        true
    }

    closed spec fn log(&self) -> Seq<IoEvent> {
        self.hist@
    }

    closed spec fn det(&self) -> bool {
        false
    }

    closed spec fn pending(&self) -> Seq<u8> {
        Seq::empty()
    }

    closed spec fn can_read(&self) -> bool {
        true
    }

    fn has_input(&self) -> (b: bool) {
        true
    }

    fn write_byte(&mut self, c: u8) {
        stdout_write(c);
        stdout_flush();
        self.hist = Ghost(self.hist@.push(IoEvent::Wrote(c)));
    }

    fn read_byte(&mut self) -> (r: u8) {
        stdout_flush();
        let b: u8 = stdin_read_byte();
        self.hist = Ghost(self.hist@.push(IoEvent::ReadGot(b)));
        b
    }

    fn flush(&mut self) {
        stdout_flush();
    }
}

/// Buffering capability over standard input and output: writes collect in a
/// fixed-size buffer that is sent out when full, on `flush`, and before any
/// read.
pub struct BatchedIO {
    buffer: Vec<u8>,
    pos: usize,
    hist: Ghost<Seq<IoEvent>>,
}

impl BatchedIO {
    pub fn new(buffer_size: usize) -> (io: Self)
        requires
            buffer_size >= 1,
        ensures
            io.inv(),
            io.log() == Seq::<IoEvent>::empty(),
    {
        let mut buffer: Vec<u8> = Vec::new();
        let mut i: usize = 0;
        while i < buffer_size
            invariant
                i <= buffer_size,
                buffer@.len() == i,
            decreases buffer_size - i,
        {
            buffer.push(0u8);
            i = i + 1;
        }
        Self { buffer, pos: 0, hist: Ghost(Seq::empty()) }
    }
}

impl IO for BatchedIO {
    closed spec fn inv(&self) -> bool {
        self.pos <= self.buffer@.len() && self.buffer@.len() >= 1
    }

    closed spec fn log(&self) -> Seq<IoEvent> {
        self.hist@
    }

    closed spec fn det(&self) -> bool {
        false
    }

    closed spec fn pending(&self) -> Seq<u8> {
        Seq::empty()
    }

    closed spec fn can_read(&self) -> bool {
        true
    }

    fn has_input(&self) -> (b: bool) {
        true
    }

    fn write_byte(&mut self, c: u8) {
        if self.pos == self.buffer.len() {
            stdout_write_prefix(&self.buffer, self.pos);
            self.pos = 0;
            stdout_flush();
        }
        self.buffer[self.pos] = c;
        self.pos = self.pos + 1;
        self.hist = Ghost(self.hist@.push(IoEvent::Wrote(c)));
    }

    fn read_byte(&mut self) -> (r: u8) {
        self.flush();
        let b: u8 = stdin_read_byte();
        self.hist = Ghost(self.hist@.push(IoEvent::ReadGot(b)));
        b
    }

    fn flush(&mut self) {
        if self.pos > 0 {
            stdout_write_prefix(&self.buffer, self.pos);
            self.pos = 0;
            stdout_flush();
        }
    }
}

} // verus!
