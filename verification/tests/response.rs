use rusty::response::{render, ResponseProducer};

fn producer() -> ResponseProducer {
    ResponseProducer::new(b"<h1>Hello!</h1>".to_vec(), b"<h1>Oops!</h1>".to_vec())
}

/// The response with a body of `n` bytes that is expected to announce `length`.
fn announces(n: usize, length: &[u8]) {
    let body = vec![b'.'; n];
    let mut expected = b"HTTP/1.1 200 OK\r\nContent-Length: ".to_vec();
    expected.extend_from_slice(length);
    expected.extend_from_slice(b"\r\n\r\n");
    expected.extend_from_slice(&body);
    assert_eq!(render(b"HTTP/1.1 200 OK", &body), expected);
}

#[test]
fn root_request_gets_the_document() {
    let reply = producer().produce(b"GET / HTTP/1.1\r\n");
    assert_eq!(reply, b"HTTP/1.1 200 OK\r\nContent-Length: 15\r\n\r\n<h1>Hello!</h1>".to_vec());
}

#[test]
fn root_request_with_headers_gets_the_document() {
    let reply =
        producer().produce(b"GET / HTTP/1.1\r\nHost: 127.0.0.1:8090\r\nAccept: */*\r\n\r\n");
    assert!(reply.starts_with(b"HTTP/1.1 200 OK\r\n"));
    assert_eq!(reply, b"HTTP/1.1 200 OK\r\nContent-Length: 15\r\n\r\n<h1>Hello!</h1>".to_vec());
}

#[test]
fn content_length_is_the_documents_byte_length() {
    let document = vec![b'x'; 1234];
    let producer = ResponseProducer::new(document.clone(), Vec::new());
    let reply = producer.produce(b"GET / HTTP/1.1\r\n");
    let mut expected = b"HTTP/1.1 200 OK\r\nContent-Length: 1234\r\n\r\n".to_vec();
    expected.extend_from_slice(&document);
    assert_eq!(reply, expected);
}

#[test]
fn other_method_is_not_found() {
    let reply = producer().produce(b"POST /x HTTP/1.1\r\n");
    assert_eq!(
        reply,
        b"HTTP/1.1 404 NOT FOUND\r\nContent-Length: 14\r\n\r\n<h1>Oops!</h1>".to_vec()
    );
}

#[test]
fn other_path_is_not_found() {
    let reply = producer().produce(b"GET /index.html HTTP/1.1\r\n");
    assert!(reply.starts_with(b"HTTP/1.1 404 NOT FOUND\r\n"));
}

#[test]
fn other_version_is_not_found() {
    let reply = producer().produce(b"GET / HTTP/1.0\r\n");
    assert!(reply.starts_with(b"HTTP/1.1 404 NOT FOUND\r\n"));
}

#[test]
fn lower_case_request_line_is_not_found() {
    let reply = producer().produce(b"get / http/1.1\r\n");
    assert!(reply.starts_with(b"HTTP/1.1 404 NOT FOUND\r\n"));
}

#[test]
fn request_line_without_line_end_is_not_found() {
    let reply = producer().produce(b"GET / HTTP/1.1");
    assert!(reply.starts_with(b"HTTP/1.1 404 NOT FOUND\r\n"));
}

#[test]
fn request_line_after_other_bytes_is_not_found() {
    let reply = producer().produce(b" GET / HTTP/1.1\r\n");
    assert!(reply.starts_with(b"HTTP/1.1 404 NOT FOUND\r\n"));
}

#[test]
fn empty_request_is_not_found() {
    let reply = producer().produce(b"");
    assert_eq!(
        reply,
        b"HTTP/1.1 404 NOT FOUND\r\nContent-Length: 14\r\n\r\n<h1>Oops!</h1>".to_vec()
    );
}

#[test]
fn empty_documents_have_length_zero() {
    let producer = ResponseProducer::new(Vec::new(), Vec::new());
    assert_eq!(
        producer.produce(b"GET / HTTP/1.1\r\n"),
        b"HTTP/1.1 200 OK\r\nContent-Length: 0\r\n\r\n".to_vec()
    );
    assert_eq!(
        producer.produce(b"DELETE / HTTP/1.1\r\n"),
        b"HTTP/1.1 404 NOT FOUND\r\nContent-Length: 0\r\n\r\n".to_vec()
    );
}

#[test]
fn document_bytes_are_sent_as_they_are() {
    let document = vec![0u8, 255, 13, 10, 13, 10, 128];
    let producer = ResponseProducer::new(document.clone(), Vec::new());
    let reply = producer.produce(b"GET / HTTP/1.1\r\n");
    let mut expected = b"HTTP/1.1 200 OK\r\nContent-Length: 7\r\n\r\n".to_vec();
    expected.extend_from_slice(&document);
    assert_eq!(reply, expected);
}

#[test]
fn render_puts_status_length_and_body_together() {
    assert_eq!(
        render(b"HTTP/1.1 200 OK", b"hello world"),
        b"HTTP/1.1 200 OK\r\nContent-Length: 11\r\n\r\nhello world".to_vec()
    );
}

#[test]
fn length_of_one_digit() {
    announces(0, b"0");
    announces(1, b"1");
    announces(7, b"7");
    announces(9, b"9");
}

#[test]
fn length_of_several_digits() {
    announces(10, b"10");
    announces(11, b"11");
    announces(99, b"99");
    announces(100, b"100");
    announces(101, b"101");
    announces(2048, b"2048");
    announces(9090, b"9090");
    announces(65536, b"65536");
    announces(1_000_000, b"1000000");
}

#[test]
fn render_takes_any_status_line() {
    assert_eq!(render(b"", b""), b"\r\nContent-Length: 0\r\n\r\n".to_vec());
    assert_eq!(render(b"X", b"abc"), b"X\r\nContent-Length: 3\r\n\r\nabc".to_vec());
}

#[test]
fn only_the_first_bytes_of_the_request_count() {
    let producer = producer();
    let found: &[u8] = b"HTTP/1.1 200 OK\r\n";
    let missing: &[u8] = b"HTTP/1.1 404 NOT FOUND\r\n";
    assert!(producer.produce(b"GET / HTTP/1.1\r\n\0\0\0\0").starts_with(found));
    assert!(producer.produce(b"GET / HTTP/1.1\r\nGET /x HTTP/1.1\r\n").starts_with(found));
    assert!(producer.produce(b"GET / HTTP/1.1\n").starts_with(missing));
    assert!(producer.produce(b"GET / HTTP/1.1\r").starts_with(missing));
    assert!(producer.produce(b"GET  / HTTP/1.1\r\n").starts_with(missing));
}
