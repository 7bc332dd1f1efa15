use async_rt::request::{decimal, delay_reply, get_req, request_path};

#[test]
fn get_req_frames_a_closing_get_request() {
    assert_eq!(
        get_req("/600/HelloWorld1"),
        "GET /600/HelloWorld1 HTTP/1.1\r\nHost: localhost\r\nConnection: close\r\n\r\n"
    );
}

#[test]
fn get_req_of_an_empty_path() {
    assert_eq!(get_req(""), "GET  HTTP/1.1\r\nHost: localhost\r\nConnection: close\r\n\r\n");
}

#[test]
fn decimal_writes_numbers_like_format() {
    for n in [0u64, 7, 10, 99, 100, 5000, 123456789, u64::MAX] {
        assert_eq!(decimal(n), format!("{n}"));
    }
}

#[test]
fn request_paths_count_down_the_delay() {
    assert_eq!(request_path(5, 0), "/5000/request-0");
    assert_eq!(request_path(5, 1), "/4000/request-1");
    assert_eq!(request_path(5, 4), "/1000/request-4");
}

#[test]
fn delay_reply_names_the_request() {
    assert_eq!(delay_reply("request-3"), "DONE: request-3");
    assert_eq!(delay_reply(""), "DONE: ");
}
