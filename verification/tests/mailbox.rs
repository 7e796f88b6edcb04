use laplace::layout::{LINUX_INBOX_SIZE, LINUX_OUTBOX_SIZE, LINUX_SHARED_SIZE};
use laplace::mailbox::{
    awaiting_message, echo_message, is_ready, printed_outbox, read_inbox_str, read_outbox,
    write_inbox, write_outbox, write_ready, OutboxWriter, CONVEX_READY, MAX_OUTPUT,
};

#[test]
fn sentinel_text() {
    assert_eq!(&CONVEX_READY, b"CONVEX_READY");
}

#[test]
fn messages_travel_both_ways() {
    let mut shared = vec![0u8; LINUX_SHARED_SIZE];
    assert!(write_inbox(&mut shared, b"1+1"));
    assert_eq!(read_inbox_str(&shared), b"1+1");
    write_outbox(&mut shared, b"2");
    assert_eq!(read_outbox(&shared), b"2");
    assert_eq!(read_inbox_str(&shared), b"1+1");
    assert_eq!(printed_outbox(read_outbox(&shared)), b"2\n");
    assert_eq!(printed_outbox(b"2\n"), b"2\n");
    assert_eq!(printed_outbox(b""), b"");
}

#[test]
fn inbox_has_a_limit() {
    let mut shared = vec![0u8; LINUX_SHARED_SIZE];
    assert!(!write_inbox(&mut shared, &vec![b'x'; LINUX_INBOX_SIZE]));
    assert_eq!(read_inbox_str(&shared), b"");
    assert!(write_inbox(&mut shared, &vec![b'x'; LINUX_INBOX_SIZE - 1]));
    assert_eq!(read_inbox_str(&shared).len(), LINUX_INBOX_SIZE - 1);
}

#[test]
fn outbox_is_cut_to_what_fits() {
    let mut shared = vec![0u8; LINUX_SHARED_SIZE];
    write_outbox(&mut shared, &vec![b'y'; LINUX_OUTBOX_SIZE + 5]);
    assert_eq!(read_outbox(&shared).len(), LINUX_OUTBOX_SIZE - 1);
    write_outbox(&mut shared, b"");
    assert_eq!(read_outbox(&shared).len(), LINUX_OUTBOX_SIZE - 1);
}

#[test]
fn ready_handshake() {
    let mut shared = vec![0u8; LINUX_SHARED_SIZE];
    assert!(!is_ready(&shared));
    write_ready(&mut shared);
    assert!(is_ready(&shared));
    assert!(awaiting_message(&shared));
    assert!(write_inbox(&mut shared, b"C"));
    assert!(!awaiting_message(&shared));
    assert!(!is_ready(&shared));
    assert_eq!(read_inbox_str(&shared), b"C");
}

#[test]
fn echo_answers_with_the_message() {
    let mut shared = vec![0u8; LINUX_SHARED_SIZE];
    echo_message(&mut shared, b"CONVEX_READY");
    assert_eq!(read_outbox(&shared), b"");
    echo_message(&mut shared, b"");
    assert_eq!(read_outbox(&shared), b"");
    echo_message(&mut shared, b"ping");
    assert_eq!(read_outbox(&shared), b"ping");
}

#[test]
fn runner_output_is_collected() {
    let mut shared = vec![0u8; LINUX_SHARED_SIZE];
    let mut w = OutboxWriter::new();
    w.absorb(&mut shared, b"hel");
    w.absorb(&mut shared, b"lo\n");
    w.finish(&mut shared, 0);
    assert_eq!(read_outbox(&shared), b"hello\n");
}

#[test]
fn failed_runners_leave_a_notice() {
    let mut shared = vec![0u8; LINUX_SHARED_SIZE];
    let mut w = OutboxWriter::new();
    w.absorb(&mut shared, b"x");
    // exited with code 3
    w.finish(&mut shared, 3 << 8);
    assert_eq!(read_outbox(&shared), b"x\n[runner exit 3]\n");
}

#[test]
fn too_much_output_is_noted() {
    let mut shared = vec![0u8; LINUX_SHARED_SIZE];
    let mut w = OutboxWriter::new();
    w.absorb(&mut shared, &vec![b'z'; MAX_OUTPUT + 1]);
    assert!(w.truncated);
    w.finish(&mut shared, 0);
    let out = read_outbox(&shared);
    assert_eq!(out.len(), MAX_OUTPUT + 20);
    assert_eq!(&out[MAX_OUTPUT..], b"\n[output truncated]\n");
}
