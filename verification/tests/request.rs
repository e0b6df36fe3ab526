use async_executor::epoll::InterestChange;
use async_executor::futures::Attempt;
use async_executor::request::{
    find_length_header, read_header_line, response, HeaderLine, ReadTurn, RequestContext,
    BUFFER_SIZE, HTTP_RESP,
};

fn parsed(data: &str) -> usize {
    let mut context = RequestContext::new(3);
    context.parse_and_set_content_length(data);
    assert_eq!(context.stream, 3);
    context.content_length
}

#[test]
fn a_fresh_context_is_empty() {
    let context = RequestContext::new(3);
    assert_eq!(context.stream, 3);
    assert_eq!(context.content_length, 0);
    assert_eq!(context.buf, [0u8; 1024]);
    assert_eq!(BUFFER_SIZE, 1024);
}

#[test]
fn the_length_header_is_found() {
    assert_eq!(parsed("POST / HTTP/1.1\r\nHost: a\r\nContent-Length: 42\r\n\r\nbody"), 42);
    assert_eq!(parsed("POST / HTTP/1.1\ncontent-length: 7\n\nbody"), 7);
    assert_eq!(parsed("POST / HTTP/1.1\ncontent-length: 7"), 7);
}

#[test]
fn case_does_not_matter() {
    assert_eq!(parsed("HTTP\nCONTENT-LENGTH: 12\n"), 12);
    assert_eq!(parsed("HTTP\ncOnTeNt-LeNgTh: 12\n"), 12);
}

#[test]
fn only_http_counts() {
    assert_eq!(parsed("POST / http/1.1\ncontent-length: 7\n"), 0);
    assert_eq!(parsed(""), 0);
}

#[test]
fn other_lines_do_not_count() {
    assert_eq!(parsed("HTTP\nx-content-length: 7\n"), 0);
    assert_eq!(parsed("HTTP\n content-length: 7\n"), 0);
    assert_eq!(parsed("HTTP\ncontent-length:7\n"), 0);
    assert_eq!(parsed("HTTP\ncontent-length : 7\n"), 0);
}

#[test]
fn the_first_header_counts() {
    assert_eq!(parsed("HTTP\ncontent-length: 7\ncontent-length: 8\n"), 7);
    assert_eq!(parsed("HTTP\ncontent-length: 7\ncontent-length: x\n"), 7);
}

#[test]
fn a_text_without_header_keeps_the_length() {
    let mut context = RequestContext::new(3);
    context.parse_and_set_content_length("HTTP\ncontent-length: 7\n");
    context.parse_and_set_content_length("HTTP\n");
    assert_eq!(context.content_length, 7);
}

#[test]
fn malformed_lengths_are_refused() {
    let mut context = RequestContext::new(3);
    assert!(context.try_parse_and_set_content_length("HTTP\ncontent-length: 7\n"));
    assert_eq!(context.content_length, 7);
    assert!(!context.try_parse_and_set_content_length("HTTP\ncontent-length: seven\n"));
    assert!(!context.try_parse_and_set_content_length("HTTP\ncontent-length: \n"));
    assert!(!context.try_parse_and_set_content_length("HTTP\ncontent-length: 8 \n"));
    assert!(!context.try_parse_and_set_content_length("HTTP\ncontent-length: -8\n"));
    assert!(!context.try_parse_and_set_content_length("HTTP\ncontent-length: 8\r"));
    assert!(!context
        .try_parse_and_set_content_length("HTTP\ncontent-length: 99999999999999999999999\n"));
    assert_eq!(context.content_length, 7);
    assert!(context.try_parse_and_set_content_length("no header"));
    assert_eq!(context.content_length, 7);
}

#[test]
fn header_lines_are_told_apart() {
    assert_eq!(read_header_line("content-length: 5"), HeaderLine::Length(5));
    assert_eq!(read_header_line("content-length: +5"), HeaderLine::Length(5));
    assert_eq!(read_header_line("content-length: 005"), HeaderLine::Length(5));
    assert_eq!(read_header_line("content-length: +"), HeaderLine::Malformed);
    assert_eq!(read_header_line("content-length: 5x"), HeaderLine::Malformed);
    assert_eq!(read_header_line("content-length:"), HeaderLine::Other);
    assert_eq!(read_header_line("Content-Length: 5"), HeaderLine::Other);
    let largest = format!("content-length: {}", usize::MAX);
    assert_eq!(read_header_line(&largest), HeaderLine::Length(usize::MAX));
    let too_large = format!("content-length: {}0", usize::MAX);
    assert_eq!(read_header_line(&too_large), HeaderLine::Malformed);
    let just_too_large = format!("content-length: {}", usize::MAX as u128 + 1);
    assert_eq!(read_header_line(&just_too_large), HeaderLine::Malformed);
}

#[test]
fn lowercase_reaches_beyond_ascii() {
    // The Kelvin sign is a k in lower case; the line is no length header all the same.
    assert_eq!(find_length_header("HTTP\n\u{212a}: 1\ncontent-length: 3\n"), HeaderLine::Length(3));
    assert_eq!(find_length_header("HTTP \u{e9}\u{1f600}\nCONTENT-LENGTH: 3"), HeaderLine::Length(3));
}

#[test]
fn the_response_announces_its_length() {
    let bytes = response();
    assert_eq!(
        bytes,
        b"HTTP/1.1 200 OK\ncontent-type: text/html\ncontent-length: 5\n\nHello"
    );
    let body = HTTP_RESP.split("\n\n").nth(1).unwrap();
    assert_eq!(find_length_header(HTTP_RESP), HeaderLine::Length(body.len()));
}

#[test]
fn reads_are_collected_until_there_is_nothing_more() {
    let mut context = RequestContext::new(3);
    let mut collected = vec![9];
    context.buf[0] = 1;
    context.buf[1] = 2;
    let again = context.read_cb(Attempt::<usize, i32>::Done(2), &mut collected);
    assert_eq!(again, ReadTurn::Again);
    context.buf[0] = 3;
    let again = context.read_cb(Attempt::<usize, i32>::Done(1), &mut collected);
    assert_eq!(again, ReadTurn::Again);
    assert_eq!(collected, vec![9, 1, 2, 3]);
    let done = context.read_cb(Attempt::<usize, i32>::Done(0), &mut collected);
    assert_eq!(done, ReadTurn::Done);
    let done = context.read_cb(Attempt::<usize, i32>::WouldBlock, &mut collected);
    assert_eq!(done, ReadTurn::Done);
    let failed = context.read_cb(Attempt::<usize, i32>::Failed(104), &mut collected);
    assert_eq!(failed, ReadTurn::Failed(104));
    assert_eq!(collected, vec![9, 1, 2, 3]);
    let whole = context.read_cb(Attempt::<usize, i32>::Done(1024), &mut collected);
    assert_eq!(whole, ReadTurn::Again);
    assert_eq!(collected.len(), 4 + 1024);
}

#[test]
fn closing_takes_the_connection_off_the_list() {
    let request = RequestContext::new(3).close(7);
    assert_eq!(request.fd, 3);
    assert_eq!((request.removal.epoll_fd, request.removal.fd), (7, 3));
    assert_eq!(request.removal.change, InterestChange::Remove);
}

/// Reads as long as the reader is to, from reads that are there for it.
fn read_through(reads: Vec<Attempt<usize, i32>>) -> (Option<Result<(), i32>>, Vec<u8>) {
    let mut context = RequestContext::new(3);
    let mut collected = Vec::new();
    let mut number = 0;
    for read in reads {
        number += 1;
        context.buf = [number; 1024];
        let result = context.read_cb(read, &mut collected).result();
        if result.is_some() {
            return (result, collected);
        }
    }
    (None, collected)
}

#[test]
fn reading_stops_at_the_first_read_that_brings_nothing() {
    let ended = vec![Attempt::Done(2), Attempt::Done(1), Attempt::Done(0), Attempt::Done(5)];
    assert_eq!(read_through(ended), (Some(Ok(())), vec![1, 1, 2]));
    let waits = vec![Attempt::Done(1), Attempt::WouldBlock, Attempt::Failed(104)];
    assert_eq!(read_through(waits), (Some(Ok(())), vec![1]));
    let failed = vec![Attempt::Done(1), Attempt::Failed(104), Attempt::Done(1)];
    assert_eq!(read_through(failed), (Some(Err(104)), vec![1]));
    let on = vec![Attempt::Done(1), Attempt::Done(1)];
    assert_eq!(read_through(on), (None, vec![1, 2]));
}
