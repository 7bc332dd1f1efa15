use async_rt::epoll::{EventBatch, ReadResult, ReadStep};

#[test]
fn closed_streams_count_as_handled() {
    let mut b = EventBatch::new();
    assert_eq!(b.handled(), 0);
    match b.handle_read(ReadResult::Data(b"HTTP/1.1 200 OK".to_vec())) {
        ReadStep::Print(t) => assert_eq!(t, "HTTP/1.1 200 OK"),
        _ => panic!("expected text to print"),
    }
    assert_eq!(b.handled(), 0);
    assert!(matches!(b.handle_read(ReadResult::Data(Vec::new())), ReadStep::NextEvent));
    assert_eq!(b.handled(), 1);
    assert!(matches!(b.handle_read(ReadResult::WouldBlock), ReadStep::NextEvent));
    assert_eq!(b.handled(), 1);
    assert!(matches!(b.handle_read(ReadResult::Data(Vec::new())), ReadStep::NextEvent));
    assert_eq!(b.handled(), 2);
}

#[test]
fn read_errors_end_the_pass() {
    let mut b = EventBatch::new();
    assert!(matches!(b.handle_read(ReadResult::Interrupted), ReadStep::Fail));
    assert!(matches!(b.handle_read(ReadResult::Failed), ReadStep::Fail));
    assert_eq!(b.handled(), 0);
}

#[test]
fn printed_text_replaces_invalid_utf8() {
    let mut b = EventBatch::new();
    match b.handle_read(ReadResult::Data(vec![0xC3, 0xA9, 0xC3])) {
        ReadStep::Print(t) => assert_eq!(t, "\u{e9}\u{FFFD}"),
        _ => panic!("expected text to print"),
    }
}

#[test]
fn tally_adds_up_across_batches() {
    let mut first = EventBatch::new();
    let _ = first.handle_read(ReadResult::Data(b"a".to_vec()));
    let _ = first.handle_read(ReadResult::Data(Vec::new()));
    let mut second = EventBatch::new();
    let _ = second.handle_read(ReadResult::WouldBlock);
    let _ = second.handle_read(ReadResult::Data(Vec::new()));
    let mut whole = EventBatch::new();
    for r in [
        ReadResult::Data(b"a".to_vec()),
        ReadResult::Data(Vec::new()),
        ReadResult::WouldBlock,
        ReadResult::Data(Vec::new()),
    ] {
        let _ = whole.handle_read(r);
    }
    assert_eq!(whole.handled(), first.handled() + second.handled());
    assert_eq!(whole.handled(), 2);
}
