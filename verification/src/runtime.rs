//! The runtime context for just-in-time execution: it owns the fixed-size
//! tape, the I/O capability, and one compiled artifact of raw machine-code
//! bytes.
//!
//! Activating the artifact — mapping executable memory, copying the bytes
//! in, making the instruction cache coherent, and the indirect native call
//! with the trampolines — is inherently outside what can be verified here;
//! the embedding binary performs it on the parts this type hands out.

use vstd::prelude::*;

use crate::io::IO;

verus! {

/// Number of byte cells in the fixed tape used for natively executed code.
pub const JIT_TAPE_LEN: usize = 30000;

/// Owns tape, I/O and one compiled artifact for a native run.
pub struct Runtime<T: IO> {
    tape: Vec<u8>,
    io: T,
    code: Vec<u8>,
}

impl<T: IO> Runtime<T> {
    pub closed spec fn spec_tape(&self) -> Seq<u8> {
        self.tape@
    }

    pub closed spec fn cap(&self) -> T {
        self.io
    }

    pub closed spec fn spec_code(&self) -> Seq<u8> {
        self.code@
    }

    /// A fresh runtime: a zeroed tape of [`JIT_TAPE_LEN`] cells beside the
    /// given capability and artifact.
    pub fn new(io: T, code: Vec<u8>) -> (rt: Self)
        ensures
            rt.cap() == io,
            rt.spec_code() == code@,
            rt.spec_tape() == Seq::new(JIT_TAPE_LEN as nat, |i: int| 0u8),
    {
        let mut tape: Vec<u8> = Vec::new();
        let mut i: usize = 0;
        while i < JIT_TAPE_LEN
            invariant
                i <= JIT_TAPE_LEN,
                tape@.len() == i,
                forall|j: int| 0 <= j < i ==> tape@[j] == 0u8,
            decreases JIT_TAPE_LEN - i,
        {
            tape.push(0u8);
            i = i + 1;
        }
        proof {
            assert(tape@ =~= Seq::new(JIT_TAPE_LEN as nat, |i: int| 0u8));
        }
        Self { tape, io, code }
    }

    /// Consume the runtime and hand the tape back.
    pub fn tape(self) -> (t: Vec<u8>)
        ensures
            t@ == self.spec_tape(),
    {
        self.tape
    }

    /// Take the runtime apart: tape, capability, artifact, unchanged.
    pub fn into_parts(self) -> (parts: (Vec<u8>, T, Vec<u8>))
        ensures
            parts.0@ == self.spec_tape(),
            parts.1 == self.cap(),
            parts.2@ == self.spec_code(),
    {
        (self.tape, self.io, self.code)
    }
}

} // verus!
