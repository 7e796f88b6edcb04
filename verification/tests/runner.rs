use laplace::layout::RUNNER_MAILBOX_SIZE;
use laplace::runner::{boa_output, read_mailbox_str, v8_output, BoaEvent, V8Event};

#[test]
fn values_are_shown_unless_undefined() {
    let out = boa_output(&BoaEvent::Value(String::from("3")));
    assert_eq!((out.stdout.as_str(), out.stderr.as_str(), out.exit_code), ("3\n", "", 0));
    let out = boa_output(&BoaEvent::Value(String::from("undefined")));
    assert_eq!((out.stdout.as_str(), out.stderr.as_str(), out.exit_code), ("", "", 0));
    let out = v8_output(&V8Event::Value(String::from("3")));
    assert_eq!((out.stdout.as_str(), out.stderr.as_str(), out.exit_code), ("3\n", "", 0));
    let out = v8_output(&V8Event::Value(String::from("undefined")));
    assert_eq!((out.stdout.as_str(), out.stderr.as_str(), out.exit_code), ("", "", 0));
}

#[test]
fn errors_go_to_host_and_log() {
    let out = boa_output(&BoaEvent::Error(String::from("bad")));
    assert_eq!(out.stdout, "[runner-js] error: bad\n");
    assert_eq!(out.stderr, "[runner-js] error: bad\n");
    assert_eq!(out.exit_code, 0);
    let out = boa_output(&BoaEvent::NoInput);
    assert_eq!(out.stdout, "[runner-js] no JS received on stdin\n");
    assert_eq!(out.stderr, "[runner-js] no JS received on stdin\n");
    assert_eq!(out.exit_code, 1);
    assert_eq!(v8_output(&V8Event::CompileFailed).stderr, "[runner-v8] compile failed\n");
    assert_eq!(v8_output(&V8Event::RunFailed).stderr, "[runner-v8] eval returned None\n");
    assert_eq!(v8_output(&V8Event::RunFailed).stdout, "");
}

#[test]
fn code_is_read_up_to_the_nul() {
    let mut mailbox = vec![b'x'; RUNNER_MAILBOX_SIZE];
    assert_eq!(read_mailbox_str(&mailbox).len(), RUNNER_MAILBOX_SIZE);
    mailbox[3] = 0;
    assert_eq!(read_mailbox_str(&mailbox), b"xxx");
}
