use brainv::io::{MemoryIO, IO};

#[test]
fn memory_io_reports_pending_input() {
    let io = MemoryIO::new(vec![b'x']);
    assert!(io.has_input());
    let empty = MemoryIO::new(vec![]);
    assert!(!empty.has_input());
}

#[test]
fn line_endings_alone_count_as_no_input() {
    let io = MemoryIO::new(vec![b'\r', b'\n', b'\r']);
    assert!(!io.has_input());
}

#[test]
fn memory_io_reads_skip_line_endings() {
    let mut io = MemoryIO::new(vec![b'\r', b'a', b'\n', b'b']);
    assert_eq!(io.read_byte(), b'a');
    assert_eq!(io.read_byte(), b'b');
    assert!(!io.has_input());
}

#[test]
fn memory_io_collects_writes_in_order() {
    let mut io = MemoryIO::new(vec![]);
    io.write_byte(3);
    io.write_byte(1);
    io.flush();
    io.write_byte(2);
    let out = io.into_output();
    assert_eq!(out, vec![3, 1, 2]);
}
