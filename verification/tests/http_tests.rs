use async_rt::http::{Http, HttpAction, HttpEvent, HttpGetFuture};
use async_rt::request::get_req;

fn expect_read(a: HttpAction) {
    assert!(matches!(a, HttpAction::Read));
}

#[test]
fn first_poll_asks_for_the_request() {
    let mut fut = Http::get("/600/HelloWorld1");
    match fut.poll(HttpEvent::Poll) {
        HttpAction::WriteRequest(req) => assert_eq!(req, get_req("/600/HelloWorld1")),
        _ => panic!("expected a request to write"),
    }
    // Not sent yet: polling again asks again.
    assert!(matches!(fut.poll(HttpEvent::Poll), HttpAction::WriteRequest(_)));
}

#[test]
fn write_request_is_the_get_request_of_the_path() {
    let fut = HttpGetFuture::new("/400/HelloWorld2");
    assert_eq!(fut.write_request(), get_req("/400/HelloWorld2"));
}

#[test]
fn once_sent_the_future_only_reads() {
    let mut fut = Http::get("/x");
    let _ = fut.poll(HttpEvent::Poll);
    expect_read(fut.poll(HttpEvent::Sent));
    expect_read(fut.poll(HttpEvent::Poll));
    expect_read(fut.poll(HttpEvent::Interrupted));
    assert!(matches!(fut.poll(HttpEvent::WouldBlock), HttpAction::Pending));
    expect_read(fut.poll(HttpEvent::Poll));
}

#[test]
fn response_is_all_chunks_in_order() {
    let mut fut = Http::get("/x");
    let _ = fut.poll(HttpEvent::Poll);
    let _ = fut.poll(HttpEvent::Sent);
    expect_read(fut.poll(HttpEvent::Data((b"HTTP/1.1 200 OK\r\n".to_vec()))));
    assert!(matches!(fut.poll(HttpEvent::WouldBlock), HttpAction::Pending));
    expect_read(fut.poll(HttpEvent::Poll));
    expect_read(fut.poll(HttpEvent::Data((b"\r\nDONE: a".to_vec()))));
    match fut.poll(HttpEvent::Data((Vec::new()))) {
        HttpAction::Ready(text) => assert_eq!(text, "HTTP/1.1 200 OK\r\n\r\nDONE: a"),
        _ => panic!("expected the response"),
    }
}

#[test]
fn invalid_utf8_is_replaced() {
    let mut fut = Http::get("/x");
    let _ = fut.poll(HttpEvent::Sent);
    expect_read(fut.poll(HttpEvent::Data((vec![b'o', b'k', 0xff]))));
    match fut.poll(HttpEvent::Data((Vec::new()))) {
        HttpAction::Ready(text) => assert_eq!(text, "ok\u{FFFD}"),
        _ => panic!("expected the response"),
    }
}

#[test]
fn empty_response_is_empty_text() {
    let mut fut = Http::get("/x");
    match fut.poll(HttpEvent::Data((Vec::new()))) {
        HttpAction::Ready(text) => assert_eq!(text, ""),
        _ => panic!("expected the response"),
    }
}
