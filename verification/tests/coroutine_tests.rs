use async_rt::coroutine::{Coroutine, CoroutineAction};
use async_rt::http::HttpEvent;
use async_rt::request::get_req;

fn data(s: &str) -> HttpEvent {
    HttpEvent::Data(s.as_bytes().to_vec())
}

fn eof() -> HttpEvent {
    HttpEvent::Data(Vec::new())
}

#[test]
fn coroutine_fetches_both_paths_in_order() {
    let mut co = Coroutine::new();
    assert!(!co.is_resolved());

    let (lines, act) = co.poll(HttpEvent::Poll);
    assert_eq!(lines, vec!["program starting".to_string()]);
    match act {
        CoroutineAction::WriteRequest(r) => assert_eq!(r, get_req("/600/HelloWorld1")),
        _ => panic!("expected the first request"),
    }
    let (lines, act) = co.poll(HttpEvent::Sent);
    assert!(lines.is_empty());
    assert!(matches!(act, CoroutineAction::Read));
    let (_, act) = co.poll(HttpEvent::WouldBlock);
    assert!(matches!(act, CoroutineAction::Pending));
    let (_, act) = co.poll(HttpEvent::Poll);
    assert!(matches!(act, CoroutineAction::Read));
    let (_, act) = co.poll(data("HelloWorld1"));
    assert!(matches!(act, CoroutineAction::Read));
    let (lines, act) = co.poll(eof());
    assert_eq!(lines, vec!["wait 1 text: HelloWorld1".to_string()]);
    match act {
        CoroutineAction::WriteRequest(r) => assert_eq!(r, get_req("/400/HelloWorld2")),
        _ => panic!("expected the second request"),
    }
    let (_, act) = co.poll(HttpEvent::Sent);
    assert!(matches!(act, CoroutineAction::Read));
    let (_, _) = co.poll(data("Hello"));
    let (_, _) = co.poll(data("World2"));
    assert!(!co.is_resolved());
    let (lines, act) = co.poll(eof());
    assert_eq!(lines, vec!["wait 2 text: HelloWorld2".to_string()]);
    assert!(matches!(act, CoroutineAction::Ready));
    assert!(co.is_resolved());
}

#[test]
fn coroutine_waits_while_the_stream_blocks() {
    let mut co = Coroutine::new();
    let _ = co.poll(HttpEvent::Poll);
    let _ = co.poll(HttpEvent::Sent);
    let (lines, act) = co.poll(HttpEvent::WouldBlock);
    assert!(lines.is_empty());
    assert!(matches!(act, CoroutineAction::Pending));
    let (lines, act) = co.poll(HttpEvent::Interrupted);
    assert!(lines.is_empty());
    assert!(matches!(act, CoroutineAction::Read));
    assert!(!co.is_resolved());
}
