use brainv::compiler::Compiler;
use brainv::io::MemoryIO;
use brainv::vm::{bench_run, Vm, VmStatus};

#[test]
fn doubling_loop_prints_sixty_four() {
    let out = bench_run("++++++++[>++++++++<-]>.", vec![]);
    assert_eq!(out, vec![64]);
}

#[test]
fn echo_one_byte() {
    let out = bench_run(",.", vec![0x41]);
    assert_eq!(out, vec![0x41]);
}

#[test]
fn unbalanced_source_produces_no_output() {
    let out = bench_run("[.", vec![]);
    assert_eq!(out, vec![]);
}

#[test]
fn clear_loop_halts_with_cell_zero() {
    let code = Compiler::new("+[-]").compile().unwrap();
    let io = MemoryIO::new(vec![]);
    let mut vm = Vm::new(io, code);
    let status = vm.run(u64::MAX);
    assert_eq!(status, VmStatus::Halted);
    assert_eq!(vm.tape_pos(), 0);
    assert_eq!(vm.cell(0), 0);
}

#[test]
fn move_left_from_zero_underflows() {
    let code = Compiler::new("<<").compile().unwrap();
    let io = MemoryIO::new(vec![]);
    let mut vm = Vm::new(io, code);
    let status = vm.run(u64::MAX);
    assert_eq!(status, VmStatus::TapeUnderflow { shift: 2, pos: 0 });
}

#[test]
fn read_without_input_aborts_the_run() {
    let code = Compiler::new(",").compile().unwrap();
    let io = MemoryIO::new(vec![]);
    let mut vm = Vm::new(io, code);
    let status = vm.run(u64::MAX);
    assert_eq!(status, VmStatus::OutOfInput);
}

#[test]
fn infinite_loop_runs_out_of_fuel() {
    let code = Compiler::new("+[]").compile().unwrap();
    let io = MemoryIO::new(vec![]);
    let mut vm = Vm::new(io, code);
    let status = vm.run(1000);
    assert_eq!(status, VmStatus::OutOfFuel);
}

#[test]
fn memory_input_skips_line_endings() {
    let out = bench_run(",.,.", vec![b'\r', b'A', b'\n', b'B']);
    assert_eq!(out, vec![b'A', b'B']);
}

#[test]
fn cell_arithmetic_wraps() {
    // 255 increments then one more wraps the cell to zero; `-` wraps back.
    let src: String = std::iter::repeat('+').take(256).collect::<String>() + ".-.";
    let out = bench_run(&src, vec![]);
    assert_eq!(out, vec![0, 255]);
}

#[test]
fn tape_grows_rightward_on_demand() {
    // walk 2000 cells right from a 1024-cell initial tape, then print
    let src: String = std::iter::repeat('>').take(2000).collect::<String>() + "+.";
    let out = bench_run(&src, vec![]);
    assert_eq!(out, vec![1]);
}

#[test]
fn hello_world_program_runs() {
    let src = "++++++++[>++++[>++>+++>+++>+<<<<-]>+>+>->>+[<]<-]>>.>---.+++++++..+++.>>.<-.<.+++.------.--------.>>+.>++.";
    let out = bench_run(src, vec![]);
    assert_eq!(out, b"Hello World!\n".to_vec());
}
