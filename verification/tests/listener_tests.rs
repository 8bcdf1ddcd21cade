use worker_supervisor::listener::{Drained, EventListener, MAX_STDOUT_BUFFER_BYTES};

fn frame(drained: Drained) -> String {
    match drained {
        Drained::Frame(line) => line,
        other => panic!("no frame: {:?}", other),
    }
}

#[test]
fn listener_belongs_to_its_session() {
    let listener = EventListener::new(7);
    assert_eq!(listener.session_id(), 7);
    assert_eq!(listener.final_reason(), "worker stream closed");
}

#[test]
fn complete_lines_come_out_one_by_one() {
    let mut listener = EventListener::new(1);
    listener.on_stdout(b"{\"a\":1}\n  {\"b\":2}  \n{\"c\"");
    assert_eq!(frame(listener.next_frame()), "{\"a\":1}");
    assert_eq!(frame(listener.next_frame()), "{\"b\":2}");
    assert!(matches!(listener.next_frame(), Drained::Waiting));
    listener.on_stdout(b":3}\n");
    assert_eq!(frame(listener.next_frame()), "{\"c\":3}");
    assert!(matches!(listener.next_frame(), Drained::Waiting));
    assert!(listener.trailing_frames().is_empty());
}

#[test]
fn blank_lines_are_dropped() {
    let mut listener = EventListener::new(1);
    listener.on_stdout(b"\n  \n\r\nx\n\n");
    assert_eq!(frame(listener.next_frame()), "x");
    assert!(matches!(listener.next_frame(), Drained::Waiting));
    assert!(listener.trailing_frames().is_empty());
}

#[test]
fn ill_formed_bytes_become_replacement_characters() {
    let mut listener = EventListener::new(1);
    listener.on_stdout(&[b'a', 0xFF, b'b', b'\n']);
    assert_eq!(frame(listener.next_frame()), "a\u{FFFD}b");
    listener.on_stdout("héllo\n".as_bytes());
    assert_eq!(frame(listener.next_frame()), "héllo");
}

#[test]
fn text_can_be_pushed_as_it_is() {
    let mut listener = EventListener::new(1);
    listener.push_text("one\ntwo");
    assert_eq!(frame(listener.next_frame()), "one");
    assert!(matches!(listener.next_frame(), Drained::Waiting));
    assert_eq!(listener.trailing_frames(), vec!["two"]);
}

#[test]
fn trailing_text_is_framed_at_the_end() {
    let mut listener = EventListener::new(1);
    listener.on_stdout(b"a\n b \n  c  ");
    assert_eq!(frame(listener.next_frame()), "a");
    assert_eq!(listener.trailing_frames(), vec!["b", "c"]);
}

#[test]
fn buffer_overrun_without_a_line_feed() {
    let mut listener = EventListener::new(1);
    let chunk = vec![b'x'; MAX_STDOUT_BUFFER_BYTES];
    listener.on_stdout(&chunk);
    assert!(matches!(listener.next_frame(), Drained::Waiting));
    listener.on_stdout(b"y");
    assert!(matches!(listener.next_frame(), Drained::Overrun));
    let reason = listener.final_reason();
    assert_eq!(reason, "worker stdout exceeded 1 MiB without complete NDJSON frames");
    assert!(reason.contains("1 MiB"));
    assert_eq!(MAX_STDOUT_BUFFER_BYTES, 1024 * 1024);
}

#[test]
fn long_output_with_line_feeds_is_no_overrun() {
    let mut listener = EventListener::new(1);
    let mut chunk = vec![b'x'; MAX_STDOUT_BUFFER_BYTES];
    chunk.push(b'\n');
    chunk.extend_from_slice(&vec![b'y'; 10]);
    listener.on_stdout(&chunk);
    assert_eq!(frame(listener.next_frame()).len(), MAX_STDOUT_BUFFER_BYTES);
    assert!(matches!(listener.next_frame(), Drained::Waiting));
}

#[test]
fn overrun_counts_bytes_not_characters() {
    let mut listener = EventListener::new(1);
    // Each of these characters takes three bytes.
    let text: String = std::iter::repeat('中').take(MAX_STDOUT_BUFFER_BYTES / 3).collect();
    assert!(text.len() <= MAX_STDOUT_BUFFER_BYTES);
    listener.push_text(&text);
    assert!(matches!(listener.next_frame(), Drained::Waiting));
    listener.push_text("中");
    assert!(matches!(listener.next_frame(), Drained::Overrun));
}

#[test]
fn reasons_for_a_restart() {
    let mut listener = EventListener::new(1);
    listener.frame_rejected("expected value at line 1 column 1");
    assert_eq!(
        listener.final_reason(),
        "invalid NDJSON frame from worker: expected value at line 1 column 1"
    );

    let mut listener = EventListener::new(1);
    listener.on_error("broken pipe");
    assert_eq!(listener.final_reason(), "worker error: broken pipe");

    let mut listener = EventListener::new(1);
    listener.on_terminated(Some(1), None);
    assert_eq!(listener.final_reason(), "worker exited with code Some(1), signal None");

    let mut listener = EventListener::new(1);
    listener.on_terminated(None, Some(-9));
    assert_eq!(listener.final_reason(), format!("worker exited with code {:?}, signal {:?}", None::<i32>, Some(-9)));
}

#[test]
fn trailing_reason_yields_to_an_earlier_one() {
    let mut listener = EventListener::new(1);
    listener.trailing_rejected("eof");
    assert_eq!(listener.final_reason(), "invalid trailing NDJSON from worker: eof");

    let mut listener = EventListener::new(1);
    listener.on_error("gone");
    listener.trailing_rejected("eof");
    assert_eq!(listener.final_reason(), "worker error: gone");
}
