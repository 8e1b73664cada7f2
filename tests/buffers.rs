use rusty_jello::serial::SerialBuffer;
use rusty_jello::stack::Stack;

#[test]
fn stack_keeps_latest_fifteen() {
    let mut s = Stack::new();
    for v in 1..=20u16 {
        let fit = s.push(v);
        assert_eq!(fit, v <= 15);
    }
    assert_eq!(s.len(), 15);
    for v in (6..=20u16).rev() {
        assert_eq!(s.pop(), v);
    }
    assert_eq!(s.pop(), 0);
    assert_eq!(s.len(), 0);
}

#[test]
fn stack_peek_reads_below_top() {
    let mut s = Stack::new();
    s.push(7);
    s.push(9);
    assert_eq!(s.peek(0), 9);
    assert_eq!(s.peek(1), 7);
    assert_eq!(s.peek(2), 0);
}

#[test]
fn serial_buffer_is_fifo() {
    let mut b = SerialBuffer::new();
    assert!(!b.has_bytes());
    assert!(b.put(1));
    assert!(b.put_char('A'));
    assert!(b.put_string("hé".to_string()));
    assert_eq!(b.take(), Some(1));
    assert_eq!(b.take_all(), vec![0x41, 0x68, 0xe9]);
    assert_eq!(b.take(), None);
}

#[test]
fn serial_buffer_drops_when_full() {
    let mut b = SerialBuffer::new();
    assert!(b.put_all(vec![0u8; 250]));
    assert!(!b.put_all(vec![1u8; 10]));
    let all = b.take_all();
    assert_eq!(all.len(), 256);
    assert_eq!(all[255], 1);
    let mut c = SerialBuffer::new();
    assert!(c.put_all_char(vec!['x'; 256]));
    assert!(!c.put(2));
    c.clear();
    assert!(!c.has_bytes());
}
