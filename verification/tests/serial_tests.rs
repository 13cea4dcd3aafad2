use periph::BufferOverflowError;
use periph::framing::LineBuffer;
use periph::serial::SerialPort;

fn feed(port: &mut SerialPort, bytes: &[u8]) {
    for &b in bytes {
        port.enqueue_input(b);
    }
}

#[test]
fn read_byte_in_arrival_order() {
    let mut port = SerialPort::new();
    feed(&mut port, b"ab");
    assert_eq!(port.read_byte(), b'a');
    assert_eq!(port.read_byte(), b'b');
    assert_eq!(port.pending_len(), 0);
}

#[test]
fn send_bytes_keeps_order() {
    let mut port = SerialPort::new();
    port.send_byte(1);
    port.send_bytes(&[2, 3, 4]);
    assert_eq!(port.transcript().as_slice(), &[1, 2, 3, 4]);
}

#[test]
fn echo_reverses_line() {
    let mut port = SerialPort::new();
    let mut buf = LineBuffer::new(32);
    feed(&mut port, b"hello\n");
    let errs = port.echo_line(&mut buf);
    assert!(errs.is_empty());
    assert_eq!(port.transcript().as_slice(), b"olleh\n");
    assert_eq!(buf.contents().as_slice(), b"hello");
}

#[test]
fn overflow_reported_per_byte() {
    let mut port = SerialPort::new();
    let mut buf = LineBuffer::new(4);
    feed(&mut port, b"abcdef\n");
    let errs = port.echo_line(&mut buf);
    assert_eq!(errs.len(), 2);
    assert_eq!(errs[0], BufferOverflowError { byte: b'e' });
    assert_eq!(errs[1], BufferOverflowError { byte: b'f' });
    assert_eq!(port.transcript().as_slice(), b"dcba\n");
    assert_eq!(buf.contents().as_slice(), b"abcd");
}

#[test]
fn line_at_exact_capacity_does_not_overflow() {
    let mut port = SerialPort::new();
    let mut buf = LineBuffer::new(4);
    feed(&mut port, b"abcd\n");
    let errs = port.echo_line(&mut buf);
    assert!(errs.is_empty());
    assert_eq!(port.transcript().as_slice(), b"dcba\n");
}

#[test]
fn empty_line_echoes_terminator_only() {
    let mut port = SerialPort::new();
    let mut buf = LineBuffer::new(8);
    feed(&mut port, b"\n");
    let errs = port.echo_line(&mut buf);
    assert!(errs.is_empty());
    assert_eq!(port.transcript().as_slice(), b"\n");
    assert_eq!(buf.len(), 0);
}

#[test]
fn two_lines_in_sequence() {
    let mut port = SerialPort::new();
    let mut buf = LineBuffer::new(32);
    feed(&mut port, b"ab\ncd\n");
    port.echo_line(&mut buf);
    assert_eq!(port.transcript().as_slice(), b"ba\n");
    port.echo_line(&mut buf);
    assert_eq!(port.transcript().as_slice(), b"ba\ndc\n");
}

#[test]
fn line_buffer_push_and_overflow() {
    let mut buf = LineBuffer::new(2);
    assert!(buf.push_byte(b'a').is_ok());
    assert!(buf.push_byte(b'b').is_ok());
    assert_eq!(buf.push_byte(b'c'), Err(BufferOverflowError { byte: b'c' }));
    assert_eq!(buf.len(), 2);
    assert_eq!(buf.contents().as_slice(), b"ab");
    assert_eq!(buf.byte_at(1), b'b');
    buf.clear();
    assert_eq!(buf.len(), 0);
}
