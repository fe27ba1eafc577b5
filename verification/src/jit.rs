//! The IR-based just-in-time backend: one basic block per instruction plus
//! a terminal exit block, handed to an external code-generation framework
//! (cranelift) for instruction selection, register allocation and memory
//! activation.
//!
//! This module's own responsibility is IR construction. The verified driver
//! walks the program and fills block `i` with the lowering of instruction
//! `i`, with every control-flow edge created before the single closing
//! pass. A taken branch goes to the block *after* the resolved target —
//! the same jump-past-the-partner dispatch the interpreter uses, which
//! under mutual bracket resolution lands at the loop body (forward) or
//! back inside it (backward). What each filling method writes into the
//! framework is trusted, and is recorded abstractly through the state
//! names [`ir_blocks`], [`ir_filled`], [`ir_sigs`], [`ir_done`] and
//! [`ir_installed`].

use vstd::prelude::*;

use cranelift_codegen::ir::condcodes::IntCC;
use cranelift_codegen::ir::types;
use cranelift_codegen::ir::AbiParam;
use cranelift_codegen::ir::Function;
use cranelift_codegen::ir::InstBuilder;
use cranelift_codegen::ir::MemFlagsData;
use cranelift_frontend::FunctionBuilder;
use cranelift_frontend::FunctionBuilderContext;
use cranelift_module::Linkage;
use cranelift_module::Module;

use crate::ops::{targets_in_range, Op};

verus! {

/// Largest program this backend lowers: keeps the block count within the
/// framework's 32-bit block indices.
pub const MAX_JIT_OPS: usize = 100000000;

/// Why the backend produced no entry point.
#[derive(Clone, Copy, Debug, PartialEq, Eq, Structural)]
pub enum JitError {
    /// The code-generation framework reported a failure.
    Backend,
}

/// A function under construction inside the framework: the module, the
/// in-progress function builder, its blocks, the current-cell variable and
/// the imported trampoline signatures.
#[verifier::external_body]
pub struct IrFn {
    module: cranelift_jit::JITModule,
    fb: Option<FunctionBuilder<'static>>,
    blocks: Vec<cranelift_codegen::ir::Block>,
    cell_var: Option<cranelift_frontend::Variable>,
    params: Vec<cranelift_codegen::ir::Value>,
    write_sig: Option<cranelift_codegen::ir::SigRef>,
    read_sig: Option<cranelift_codegen::ir::SigRef>,
    ptr_ty: cranelift_codegen::ir::Type,
}

/// How many blocks the function under construction has (one per program
/// instruction, plus the exit block).
pub uninterp spec fn ir_blocks(f: IrFn) -> int;

/// The lowerings written so far, one per filled block, in block order, each
/// as [`lower_op`] renders it.
pub uninterp spec fn ir_filled(f: IrFn) -> Seq<(int, int)>;

/// Whether the exit block is written and all blocks are sealed.
pub uninterp spec fn ir_done(f: IrFn) -> bool;

/// Whether the two indirect-call signatures have been imported, so that
/// the I/O lowerings may refer to them.
pub uninterp spec fn ir_sigs(f: IrFn) -> bool;

/// Whether the one activation hand-over has been made: the builder is
/// consumed and the finished function given to the framework.
pub uninterp spec fn ir_installed(f: IrFn) -> bool;

/// The abstract rendering of one instruction's lowering: a kind tag and its
/// operand (a run length, a resolved branch target, or nothing).
pub open spec fn lower_op(o: Op) -> (int, int) {
    match o {
        Op::Nop => (0, 0),
        Op::Inc(n) => (1, n as int),
        Op::Dec(n) => (2, n as int),
        Op::MovR(n) => (3, n as int),
        Op::MovL(n) => (4, n as int),
        Op::JmpIfZ(t) => (5, t as int),
        Op::JmpIfNZ(t) => (6, t as int),
        Op::Print => (7, 0),
        Op::Read => (8, 0),
    }
}

/// The whole program's lowering, in program order.
pub open spec fn lowered(prog: Seq<Op>) -> Seq<(int, int)> {
    Seq::new(prog.len(), |i: int| lower_op(prog[i]))
}

/// The instruction a lowering renders.
pub open spec fn delower(l: (int, int)) -> Op {
    if l.0 == 1 {
        Op::Inc(l.1 as u8)
    } else if l.0 == 2 {
        Op::Dec(l.1 as u8)
    } else if l.0 == 3 {
        Op::MovR(l.1 as u8)
    } else if l.0 == 4 {
        Op::MovL(l.1 as u8)
    } else if l.0 == 5 {
        Op::JmpIfZ(l.1 as usize)
    } else if l.0 == 6 {
        Op::JmpIfNZ(l.1 as usize)
    } else if l.0 == 7 {
        Op::Print
    } else if l.0 == 8 {
        Op::Read
    } else {
        Op::Nop
    }
}

/// The lowering loses nothing: the whole program is recoverable from what
/// was handed to the framework, block by block.
pub proof fn lemma_lowering_faithful(prog: Seq<Op>)
    ensures
        lowered(prog).map_values(|l: (int, int)| delower(l)) == prog,
{
    assert(lowered(prog).map_values(|l: (int, int)| delower(l)) =~= prog);
}

impl IrFn {
    /// Relies on `cranelift_jit::JITBuilder::new`, `JITModule::new`,
    /// `cranelift_codegen::ir::Function::new` and
    /// `cranelift_frontend::FunctionBuilder::new`: a fresh module and an
    /// empty function under construction. The function and its builder
    /// context are leaked (a few KB per compilation): the builder must
    /// outlive every filling call below, safe reclamation of a leaked
    /// reference would take raw-pointer code, and one compilation per
    /// process is the intended shape.
    #[verifier::external_body]
    fn begin() -> (r: Result<IrFn, JitError>)
        ensures
            r matches Ok(f) ==> ir_blocks(f) == 0 && ir_filled(f) == Seq::<(int, int)>::empty()
                && !ir_done(f) && !ir_sigs(f) && !ir_installed(f),
    {
        let names = cranelift_module::default_libcall_names();
        let builder = cranelift_jit::JITBuilder::new(names).map_err(|_| JitError::Backend)?;
        let module = cranelift_jit::JITModule::new(builder);
        let ptr_ty = module.target_config().pointer_type();
        let func: &'static mut Function = Box::leak(Box::new(Function::new()));
        let fbctx: &'static mut FunctionBuilderContext = Box::leak(Box::new(FunctionBuilderContext::new()));
        let fb = FunctionBuilder::new(func, fbctx);
        Ok(IrFn { module, fb: Some(fb), blocks: Vec::new(), cell_var: None, params: Vec::new(), write_sig: None, read_sig: None, ptr_ty })
    }

    /// Relies on pushing `cranelift_codegen::ir::AbiParam` onto the
    /// function's signature: the native entry signature
    /// `(ptr, ptr, ptr, ptr) -> i8`.
    #[verifier::external_body]
    fn declare_entry_sig(&mut self)
        requires
            ir_blocks(*old(self)) == 0,
            ir_filled(*old(self)) == Seq::<(int, int)>::empty(),
            !ir_done(*old(self)),
        ensures
            ir_blocks(*final(self)) == 0,
            ir_filled(*final(self)) == Seq::<(int, int)>::empty(),
            !ir_done(*final(self)),
            ir_sigs(*final(self)) == ir_sigs(*old(self)),
            ir_installed(*final(self)) == ir_installed(*old(self)),
    {
        let fb = self.fb.as_mut().unwrap();
        for _ in 0..4 {
            fb.func.signature.params.push(AbiParam::new(self.ptr_ty));
        }
        fb.func.signature.returns.push(AbiParam::new(types::I8));
    }

    /// Relies on `FunctionBuilder::create_block`,
    /// `append_block_params_for_function_params`, `switch_to_block`,
    /// `block_params`, `declare_var` and `def_var`: one block per
    /// instruction plus the exit block, with the entry block receiving the
    /// native arguments and seeding the current-cell variable from the tape
    /// argument.
    #[verifier::external_body]
    fn make_blocks(&mut self, nops: usize)
        requires
            ir_blocks(*old(self)) == 0,
            ir_filled(*old(self)) == Seq::<(int, int)>::empty(),
            !ir_done(*old(self)),
            nops < MAX_JIT_OPS,
        ensures
            ir_blocks(*final(self)) == nops + 1,
            ir_filled(*final(self)) == Seq::<(int, int)>::empty(),
            !ir_done(*final(self)),
            ir_sigs(*final(self)) == ir_sigs(*old(self)),
            ir_installed(*final(self)) == ir_installed(*old(self)),
    {
        let fb = self.fb.as_mut().unwrap();
        for _ in 0..(nops + 1) {
            self.blocks.push(fb.create_block());
        }
        fb.append_block_params_for_function_params(self.blocks[0]);
        fb.switch_to_block(self.blocks[0]);
        self.params = fb.block_params(self.blocks[0]).to_vec();
        let var = fb.declare_var(self.ptr_ty);
        fb.def_var(var, self.params[0]);
        self.cell_var = Some(var);
    }

    /// Relies on `Module::make_signature` and
    /// `FunctionBuilder::import_signature`: the two indirect-call
    /// signatures, write `(context, byte) -> ()` and read
    /// `(context) -> byte`.
    #[verifier::external_body]
    fn declare_call_sigs(&mut self)
        requires
            !ir_done(*old(self)),
        ensures
            ir_blocks(*final(self)) == ir_blocks(*old(self)),
            ir_filled(*final(self)) == ir_filled(*old(self)),
            !ir_done(*final(self)),
            ir_sigs(*final(self)),
            ir_installed(*final(self)) == ir_installed(*old(self)),
    {
        let fb = self.fb.as_mut().unwrap();
        let mut wsig = self.module.make_signature();
        wsig.params.push(AbiParam::new(self.ptr_ty));
        wsig.params.push(AbiParam::new(types::I8));
        self.write_sig = Some(fb.import_signature(wsig));
        let mut rsig = self.module.make_signature();
        rsig.params.push(AbiParam::new(self.ptr_ty));
        rsig.returns.push(AbiParam::new(types::I8));
        self.read_sig = Some(fb.import_signature(rsig));
    }

    /// Relies on `FunctionBuilder::switch_to_block`, `use_var` and
    /// `InstBuilder::jump`: block `i` only jumps on to block `i + 1`.
    #[verifier::external_body]
    fn emit_nop(&mut self, i: usize)
        requires
            ir_filled(*old(self)).len() == i as int,
            i + 1 < ir_blocks(*old(self)),
            !ir_done(*old(self)),
        ensures
            ir_blocks(*final(self)) == ir_blocks(*old(self)),
            ir_filled(*final(self)) == ir_filled(*old(self)).push((0int, 0int)),
            !ir_done(*final(self)),
            ir_sigs(*final(self)) == ir_sigs(*old(self)),
            ir_installed(*final(self)) == ir_installed(*old(self)),
    {
        let fb = self.fb.as_mut().unwrap();
        fb.switch_to_block(self.blocks[i]);
        fb.ins().jump(self.blocks[i + 1], &[]);
    }

    /// Relies on `InstBuilder::load`, `iconst`, `iadd`, `store` and `jump`:
    /// block `i` loads the cell, adds `n`, stores it back and jumps on.
    #[verifier::external_body]
    fn emit_inc(&mut self, i: usize, n: u8)
        requires
            ir_filled(*old(self)).len() == i as int,
            i + 1 < ir_blocks(*old(self)),
            !ir_done(*old(self)),
        ensures
            ir_blocks(*final(self)) == ir_blocks(*old(self)),
            ir_filled(*final(self)) == ir_filled(*old(self)).push((1int, n as int)),
            !ir_done(*final(self)),
            ir_sigs(*final(self)) == ir_sigs(*old(self)),
            ir_installed(*final(self)) == ir_installed(*old(self)),
    {
        let fb = self.fb.as_mut().unwrap();
        fb.switch_to_block(self.blocks[i]);
        let addr = fb.use_var(self.cell_var.unwrap());
        let v = fb.ins().load(types::I8, MemFlagsData::new(), addr, 0);
        let c = fb.ins().iconst(types::I8, n as i64);
        let r = fb.ins().iadd(v, c);
        fb.ins().store(MemFlagsData::new(), r, addr, 0);
        fb.ins().jump(self.blocks[i + 1], &[]);
    }

    /// Relies on `InstBuilder::load`, `iconst`, `isub`, `store` and `jump`:
    /// block `i` loads the cell, subtracts `n`, stores it back and jumps on.
    #[verifier::external_body]
    fn emit_dec(&mut self, i: usize, n: u8)
        requires
            ir_filled(*old(self)).len() == i as int,
            i + 1 < ir_blocks(*old(self)),
            !ir_done(*old(self)),
        ensures
            ir_blocks(*final(self)) == ir_blocks(*old(self)),
            ir_filled(*final(self)) == ir_filled(*old(self)).push((2int, n as int)),
            !ir_done(*final(self)),
            ir_sigs(*final(self)) == ir_sigs(*old(self)),
            ir_installed(*final(self)) == ir_installed(*old(self)),
    {
        let fb = self.fb.as_mut().unwrap();
        fb.switch_to_block(self.blocks[i]);
        let addr = fb.use_var(self.cell_var.unwrap());
        let v = fb.ins().load(types::I8, MemFlagsData::new(), addr, 0);
        let c = fb.ins().iconst(types::I8, n as i64);
        let r = fb.ins().isub(v, c);
        fb.ins().store(MemFlagsData::new(), r, addr, 0);
        fb.ins().jump(self.blocks[i + 1], &[]);
    }

    /// Relies on `InstBuilder::iconst`, `iadd` and `jump` with
    /// `FunctionBuilder::use_var`/`def_var`: block `i` advances the
    /// current-cell pointer by `n`, unchecked, and jumps on.
    #[verifier::external_body]
    fn emit_movr(&mut self, i: usize, n: u8)
        requires
            ir_filled(*old(self)).len() == i as int,
            i + 1 < ir_blocks(*old(self)),
            !ir_done(*old(self)),
        ensures
            ir_blocks(*final(self)) == ir_blocks(*old(self)),
            ir_filled(*final(self)) == ir_filled(*old(self)).push((3int, n as int)),
            !ir_done(*final(self)),
            ir_sigs(*final(self)) == ir_sigs(*old(self)),
            ir_installed(*final(self)) == ir_installed(*old(self)),
    {
        let fb = self.fb.as_mut().unwrap();
        fb.switch_to_block(self.blocks[i]);
        let p = fb.use_var(self.cell_var.unwrap());
        let c = fb.ins().iconst(self.ptr_ty, n as i64);
        let np = fb.ins().iadd(p, c);
        fb.def_var(self.cell_var.unwrap(), np);
        fb.ins().jump(self.blocks[i + 1], &[]);
    }

    /// Relies on `InstBuilder::iconst`, `isub` and `jump` with
    /// `FunctionBuilder::use_var`/`def_var`: block `i` retreats the
    /// current-cell pointer by `n`, unchecked, and jumps on.
    #[verifier::external_body]
    fn emit_movl(&mut self, i: usize, n: u8)
        requires
            ir_filled(*old(self)).len() == i as int,
            i + 1 < ir_blocks(*old(self)),
            !ir_done(*old(self)),
        ensures
            ir_blocks(*final(self)) == ir_blocks(*old(self)),
            ir_filled(*final(self)) == ir_filled(*old(self)).push((4int, n as int)),
            !ir_done(*final(self)),
            ir_sigs(*final(self)) == ir_sigs(*old(self)),
            ir_installed(*final(self)) == ir_installed(*old(self)),
    {
        let fb = self.fb.as_mut().unwrap();
        fb.switch_to_block(self.blocks[i]);
        let p = fb.use_var(self.cell_var.unwrap());
        let c = fb.ins().iconst(self.ptr_ty, n as i64);
        let np = fb.ins().isub(p, c);
        fb.def_var(self.cell_var.unwrap(), np);
        fb.ins().jump(self.blocks[i + 1], &[]);
    }

    /// Relies on `InstBuilder::load`, `icmp_imm` and `brif`: block `i`
    /// compares the cell to zero and branches to the block after the
    /// resolved target when it is zero, else falls through to `i + 1`.
    #[verifier::external_body]
    fn emit_jmp_z(&mut self, i: usize, t: usize)
        requires
            ir_filled(*old(self)).len() == i as int,
            i + 1 < ir_blocks(*old(self)),
            t + 1 < ir_blocks(*old(self)),
            !ir_done(*old(self)),
        ensures
            ir_blocks(*final(self)) == ir_blocks(*old(self)),
            ir_filled(*final(self)) == ir_filled(*old(self)).push((5int, t as int)),
            !ir_done(*final(self)),
            ir_sigs(*final(self)) == ir_sigs(*old(self)),
            ir_installed(*final(self)) == ir_installed(*old(self)),
    {
        let fb = self.fb.as_mut().unwrap();
        fb.switch_to_block(self.blocks[i]);
        let addr = fb.use_var(self.cell_var.unwrap());
        let v = fb.ins().load(types::I8, MemFlagsData::new(), addr, 0);
        let cmp = fb.ins().icmp_imm(IntCC::Equal, v, 0);
        fb.ins().brif(cmp, self.blocks[t + 1], &[], self.blocks[i + 1], &[]);
    }

    /// Relies on `InstBuilder::load`, `icmp_imm` and `brif`: block `i`
    /// compares the cell to zero and branches to the block after the
    /// resolved target when it is not zero, else falls through to `i + 1`.
    #[verifier::external_body]
    fn emit_jmp_nz(&mut self, i: usize, t: usize)
        requires
            ir_filled(*old(self)).len() == i as int,
            i + 1 < ir_blocks(*old(self)),
            t + 1 < ir_blocks(*old(self)),
            !ir_done(*old(self)),
        ensures
            ir_blocks(*final(self)) == ir_blocks(*old(self)),
            ir_filled(*final(self)) == ir_filled(*old(self)).push((6int, t as int)),
            !ir_done(*final(self)),
            ir_sigs(*final(self)) == ir_sigs(*old(self)),
            ir_installed(*final(self)) == ir_installed(*old(self)),
    {
        let fb = self.fb.as_mut().unwrap();
        fb.switch_to_block(self.blocks[i]);
        let addr = fb.use_var(self.cell_var.unwrap());
        let v = fb.ins().load(types::I8, MemFlagsData::new(), addr, 0);
        let cmp = fb.ins().icmp_imm(IntCC::NotEqual, v, 0);
        fb.ins().brif(cmp, self.blocks[t + 1], &[], self.blocks[i + 1], &[]);
    }

    /// Relies on `InstBuilder::load`, `call_indirect` and `jump`: block `i`
    /// calls the write trampoline indirectly with (context, cell) and jumps
    /// on.
    #[verifier::external_body]
    fn emit_print(&mut self, i: usize)
        requires
            ir_filled(*old(self)).len() == i as int,
            i + 1 < ir_blocks(*old(self)),
            !ir_done(*old(self)),
            ir_sigs(*old(self)),
        ensures
            ir_blocks(*final(self)) == ir_blocks(*old(self)),
            ir_filled(*final(self)) == ir_filled(*old(self)).push((7int, 0int)),
            !ir_done(*final(self)),
            ir_sigs(*final(self)) == ir_sigs(*old(self)),
            ir_installed(*final(self)) == ir_installed(*old(self)),
    {
        let fb = self.fb.as_mut().unwrap();
        fb.switch_to_block(self.blocks[i]);
        let addr = fb.use_var(self.cell_var.unwrap());
        let v = fb.ins().load(types::I8, MemFlagsData::new(), addr, 0);
        let args = [self.params[1], v];
        fb.ins().call_indirect(self.write_sig.unwrap(), self.params[2], &args);
        fb.ins().jump(self.blocks[i + 1], &[]);
    }

    /// Relies on `InstBuilder::call_indirect`, `store` and `jump` with
    /// `FunctionBuilder::inst_results`: block `i` calls the read trampoline
    /// indirectly with (context), stores the returned byte into the cell
    /// and jumps on.
    #[verifier::external_body]
    fn emit_read(&mut self, i: usize)
        requires
            ir_filled(*old(self)).len() == i as int,
            i + 1 < ir_blocks(*old(self)),
            !ir_done(*old(self)),
            ir_sigs(*old(self)),
        ensures
            ir_blocks(*final(self)) == ir_blocks(*old(self)),
            ir_filled(*final(self)) == ir_filled(*old(self)).push((8int, 0int)),
            !ir_done(*final(self)),
            ir_sigs(*final(self)) == ir_sigs(*old(self)),
            ir_installed(*final(self)) == ir_installed(*old(self)),
    {
        let fb = self.fb.as_mut().unwrap();
        fb.switch_to_block(self.blocks[i]);
        let addr = fb.use_var(self.cell_var.unwrap());
        let args = [self.params[1]];
        let call = fb.ins().call_indirect(self.read_sig.unwrap(), self.params[3], &args);
        let rv = fb.inst_results(call)[0];
        fb.ins().store(MemFlagsData::new(), rv, addr, 0);
        fb.ins().jump(self.blocks[i + 1], &[]);
    }

    /// Relies on `FunctionBuilder::switch_to_block`, `use_var`,
    /// `InstBuilder::load`, `return_` and `seal_all_blocks`: the exit block
    /// loads the final cell and returns it, and every block is sealed only
    /// after all edges exist.
    #[verifier::external_body]
    fn write_exit(&mut self)
        requires
            ir_blocks(*old(self)) >= 1,
            ir_filled(*old(self)).len() == ir_blocks(*old(self)) - 1,
            !ir_done(*old(self)),
        ensures
            ir_blocks(*final(self)) == ir_blocks(*old(self)),
            ir_filled(*final(self)) == ir_filled(*old(self)),
            ir_done(*final(self)),
            ir_sigs(*final(self)) == ir_sigs(*old(self)),
            ir_installed(*final(self)) == ir_installed(*old(self)),
    {
        let fb = self.fb.as_mut().unwrap();
        fb.switch_to_block(self.blocks[self.blocks.len() - 1]);
        let addr = fb.use_var(self.cell_var.unwrap());
        let v = fb.ins().load(types::I8, MemFlagsData::new(), addr, 0);
        fb.ins().return_(&[v]);
        fb.seal_all_blocks();
    }

    /// Relies on `FunctionBuilder::finalize`, `Module::declare_function`,
    /// `JITModule::define_function`, `finalize_definitions` and
    /// `get_finalized_function`: hands the finished function to the
    /// framework and yields the activated entry point as an opaque address.
    #[verifier::external_body]
    fn install(&mut self) -> (r: Result<usize, JitError>)
        requires
            ir_done(*old(self)),
            !ir_installed(*old(self)),
        ensures
            ir_blocks(*final(self)) == ir_blocks(*old(self)),
            ir_filled(*final(self)) == ir_filled(*old(self)),
            ir_done(*final(self)),
            ir_installed(*final(self)),
    {
        let mut fb = self.fb.take().unwrap();
        let func = fb.func.clone();
        fb.finalize(self.module.isa().frontend_config());
        let mut ctx = self.module.make_context();
        ctx.func = func;
        let sig = ctx.func.signature.clone();
        let id = self.module.declare_function("bf_jit", Linkage::Export, &sig).map_err(|_| JitError::Backend)?;
        self.module.define_function(id, &mut ctx).map_err(|_| JitError::Backend)?;
        self.module.finalize_definitions().map_err(|_| JitError::Backend)?;
        Ok(self.module.get_finalized_function(id) as usize)
    }
}

/// The IR-based backend: lowers a program and activates it through the
/// external framework.
pub struct JIT {
    code: Vec<Op>,
    ir: Option<IrFn>,
}

impl JIT {
    pub closed spec fn prog(&self) -> Seq<Op> {
        self.code@
    }

    /// The function under construction, once `compile` has built one.
    pub closed spec fn ir_state(&self) -> Option<IrFn> {
        self.ir
    }

    pub fn new(code: Vec<Op>) -> (j: Self)
        ensures
            j.prog() == code@,
            j.ir_state() is None,
    {
        Self { code, ir: None }
    }

    /// Lower the whole program — block `i` holds exactly the lowering of
    /// instruction `i`, branch edges resolved through the program's
    /// targets — then activate it, keeping the framework state alive for
    /// the returned entry point. On failure, either the framework refused
    /// at creation and nothing was kept, or only installation failed after
    /// the whole program was lowered.
    pub fn compile(&mut self) -> (r: Result<usize, JitError>)
        requires
            targets_in_range(old(self).prog()),
            old(self).prog().len() < MAX_JIT_OPS,
        ensures
            final(self).prog() == old(self).prog(),
            r matches Ok(_) ==> final(self).ir_state() matches Some(f) && ir_blocks(f)
                == old(self).prog().len() + 1 && ir_filled(f) == lowered(old(self).prog())
                && ir_done(f) && ir_installed(f),
            r matches Err(_) ==> final(self).ir_state() == old(self).ir_state()
                || (final(self).ir_state() matches Some(f)
                && ir_blocks(f) == old(self).prog().len() + 1
                && ir_filled(f) == lowered(old(self).prog()) && ir_done(f) && ir_installed(f)),
    {
        let ghost prog = self.code@;
        let n: usize = self.code.len();
        let mut f = match IrFn::begin() {
            Ok(f) => f,
            Err(e) => {
                return Err(e);
            },
        };
        f.declare_entry_sig();
        f.make_blocks(n);
        f.declare_call_sigs();
        let mut i: usize = 0;
        while i < n
            invariant
                i <= n,
                n == prog.len(),
                prog == self.code@,
                targets_in_range(prog),
                ir_blocks(f) == n + 1,
                !ir_done(f),
                ir_sigs(f),
                !ir_installed(f),
                ir_filled(f) == lowered(prog).take(i as int),
            decreases n - i,
        {
            let ghost pre = ir_filled(f);
            match self.code[i] {
                Op::Nop => f.emit_nop(i),
                Op::Inc(k) => f.emit_inc(i, k),
                Op::Dec(k) => f.emit_dec(i, k),
                Op::MovR(k) => f.emit_movr(i, k),
                Op::MovL(k) => f.emit_movl(i, k),
                Op::JmpIfZ(t) => f.emit_jmp_z(i, t),
                Op::JmpIfNZ(t) => f.emit_jmp_nz(i, t),
                Op::Print => f.emit_print(i),
                Op::Read => f.emit_read(i),
            }
            proof {
                assert(ir_filled(f) =~= lowered(prog).take(i + 1));
            }
            i = i + 1;
        }
        proof {
            assert(lowered(prog).take(n as int) =~= lowered(prog));
        }
        f.write_exit();
        let entry = f.install();
        self.ir = Some(f);
        match entry {
            Ok(e) => Ok(e),
            Err(e) => Err(e),
        }
    }
}

} // verus!
