//! The echo protocol on one connection: bursts, immediate echoes, and the
//! pending-write queue across write-ready events.

use echo_core::burst::ReadBurst;
use echo_core::connection::Connection;
use echo_core::connection::WriteOutcome;

fn copy_in(b: &mut ReadBurst, bytes: &[u8]) -> usize {
    let start = b.filled;
    for (i, &byte) in bytes.iter().enumerate() {
        b.buf[start + i] = byte;
    }
    bytes.len()
}

#[test]
fn scenario_single_message_echo() {
    let msg: &[u8] = b"hello world!";
    assert_eq!(msg.len(), 12);

    let mut b = ReadBurst::new();
    let n = copy_in(&mut b, msg);
    b.record_read(n);
    let payload = b.into_data();
    assert_eq!(payload.len(), 12);
    assert_eq!(payload, msg.to_vec());

    let mut conn = Connection::new(7);
    conn.note_echo(&payload, WriteOutcome::Written(payload.len()));
    assert_eq!(conn.queue_len(), 0);
    assert!(!conn.is_closed());
}

#[test]
fn scenario_ten_messages_in_order() {
    let mut conn = Connection::new(0);
    for i in 0..10 {
        let m = format!("[{}] hello world!", i).into_bytes();
        conn.note_echo(&m, WriteOutcome::WouldBlock);
    }
    assert_eq!(conn.queue_len(), 10);

    let mut received: Vec<Vec<u8>> = Vec::new();
    while let Some(m) = conn.next_write() {
        conn.note_flush(&m, WriteOutcome::Written(m.len()));
        received.push(m);
    }
    assert_eq!(received.len(), 10);
    for i in 0..10 {
        assert_eq!(received[i], format!("[{}] hello world!", i).into_bytes());
    }
    assert!(!conn.is_closed());
}

#[test]
fn queue_order_survives_mixed_outcomes() {
    let m1 = b"first message".to_vec();
    let m2 = b"second".to_vec();
    let m3 = b"third one".to_vec();
    let mut conn = Connection::new(1);
    conn.note_echo(&m1, WriteOutcome::WouldBlock);
    conn.note_echo(&m2, WriteOutcome::WouldBlock);
    conn.note_echo(&m3, WriteOutcome::WouldBlock);

    let mut wire: Vec<u8> = Vec::new();

    // First write-ready event: the socket still blocks.
    let m = conn.next_write().unwrap();
    conn.note_flush(&m, WriteOutcome::WouldBlock);

    // Second event: only two bytes go out.
    let m = conn.next_write().unwrap();
    wire.extend_from_slice(&m[..2]);
    conn.note_flush(&m, WriteOutcome::Written(2));

    // Third event: interrupted before anything was sent.
    let m = conn.next_write().unwrap();
    conn.note_flush(&m, WriteOutcome::Interrupted);

    // Remaining events: full writes.
    while let Some(m) = conn.next_write() {
        wire.extend_from_slice(&m);
        conn.note_flush(&m, WriteOutcome::Written(m.len()));
    }

    assert_eq!(wire, [m1, m2, m3].concat());
}

#[test]
fn partial_echo_queues_exact_remainder() {
    let mut conn = Connection::new(2);
    let payload = b"hello world!".to_vec();
    conn.note_echo(&payload, WriteOutcome::Written(5));
    assert_eq!(conn.queue_len(), 1);
    let m = conn.next_write().unwrap();
    assert_eq!(m, b" world!".to_vec());
}

#[test]
fn would_block_keeps_message_at_front() {
    let mut conn = Connection::new(3);
    conn.note_echo(&b"first".to_vec(), WriteOutcome::WouldBlock);
    conn.note_echo(&b"second".to_vec(), WriteOutcome::Interrupted);
    assert_eq!(conn.queue_len(), 2);

    let m = conn.next_write().unwrap();
    assert_eq!(m, b"first".to_vec());
    conn.note_flush(&m, WriteOutcome::WouldBlock);

    let m2 = conn.next_write().unwrap();
    assert_eq!(m2, b"first".to_vec());
    conn.note_flush(&m2, WriteOutcome::Written(3));

    let m3 = conn.next_write().unwrap();
    assert_eq!(m3, b"st".to_vec());
    conn.note_flush(&m3, WriteOutcome::Written(2));

    let m4 = conn.next_write().unwrap();
    assert_eq!(m4, b"second".to_vec());
}

#[test]
fn fatal_echo_closes_connection() {
    let mut conn = Connection::new(4);
    conn.note_echo(&b"x".to_vec(), WriteOutcome::Fatal);
    assert!(conn.is_closed());
    assert_eq!(conn.queue_len(), 0);
}

#[test]
fn fatal_flush_closes_connection() {
    let mut conn = Connection::new(5);
    conn.note_echo(&b"yy".to_vec(), WriteOutcome::WouldBlock);
    let m = conn.next_write().unwrap();
    conn.note_flush(&m, WriteOutcome::Fatal);
    assert!(conn.is_closed());
}

#[test]
fn eof_marks_closed() {
    let mut conn = Connection::new(6);
    assert!(!conn.is_closed());
    conn.mark_closed();
    assert!(conn.is_closed());
}

#[test]
fn burst_buffer_grows_when_filled() {
    let mut b = ReadBurst::new();
    assert_eq!(b.buf.len(), 4096);

    for i in 0..4096 {
        b.buf[i] = (i % 251) as u8;
    }
    b.record_read(4096);
    assert_eq!(b.filled, 4096);
    assert!(b.buf.len() > 4096, "a full read must grow the buffer");

    b.buf[4096] = 7;
    b.record_read(1);
    let data = b.into_data();
    assert_eq!(data.len(), 4097);
    assert_eq!(data[4096], 7);
    assert_eq!(data[100], 100);
}

#[test]
fn burst_across_several_reads() {
    let mut b = ReadBurst::new();
    let n = copy_in(&mut b, b"hello ");
    b.record_read(n);
    let n = copy_in(&mut b, b"world");
    b.record_read(n);
    let n = copy_in(&mut b, b"!");
    b.record_read(n);
    assert_eq!(b.into_data(), b"hello world!".to_vec());
}
