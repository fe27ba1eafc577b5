//! A small stack-machine language toolchain: a bytecode compiler with
//! branch-target resolution and run-length folding, a bytecode interpreter,
//! and two just-in-time backends (direct machine-code emission and IR-based
//! code generation through an external framework), plus the runtime pieces
//! that surround them.

pub mod compiler;
pub mod emit;
pub mod io;
pub mod jit;
pub mod ops;
pub mod runtime;
pub mod sem;
pub mod vm;
