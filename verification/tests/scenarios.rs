use rusty::encoder::Operation;
use rusty::response::ResponseProducer;
use rusty::model::{CloseReason, Completion};
use rusty::server::{ConnectionState, Server, Step};

const LISTENER: i32 = 3;

const DOCUMENT: &[u8] =
    b"<!DOCTYPE html>\n<html lang=\"en\">\n  <body>\n    <h1>Hello!</h1>\n  </body>\n</html>\n";

const NOT_FOUND: &[u8] =
    b"<!DOCTYPE html>\n<html lang=\"en\">\n  <body>\n    <h1>Oops!</h1>\n  </body>\n</html>\n";

/// A server on which the first connection has been accepted as descriptor 5 and has
/// become readable, so that its receive is in flight.
fn server_with_a_readable_client() -> Server {
    let mut server =
        Server::new(LISTENER, ResponseProducer::new(DOCUMENT.to_vec(), NOT_FOUND.to_vec()));
    let accept = server.rearm_accept().expect("the first accept is due");
    assert_eq!(accept.operation, Operation::Accept { fd: LISTENER });
    match server.on_completion(Completion { user_data: LISTENER as u64, result: 5 }) {
        Ok(Step::Submit(poll)) => assert_eq!(poll.operation, Operation::PollReadable { fd: 5 }),
        other => panic!("the connection was not accepted: {:?}", other),
    }
    assert!(server.rearm_accept().is_some());
    match server.on_completion(Completion { user_data: 5, result: 1 }) {
        Ok(Step::Submit(receive)) => {
            assert_eq!(receive.operation, Operation::Receive { fd: 5, len: 2048 })
        }
        other => panic!("no receive was submitted: {:?}", other),
    }
    server
}

/// A client library asks for the root document, with its own headers, and gets it.
#[test]
fn client_library_gets_the_document() {
    let mut server = server_with_a_readable_client();
    let request = b"GET / HTTP/1.1\r\naccept: */*\r\nhost: 127.0.0.1:8090\r\n\r\n";
    assert_eq!(server.fill_receive_buffer(5, request), Some(request.len()));
    let sent = match server.on_completion(Completion { user_data: 5, result: request.len() as i32 })
    {
        Ok(Step::Submit(send)) => match send.operation {
            Operation::Send { fd: 5, len } => len,
            other => panic!("no send was submitted: {:?}", other),
        },
        other => panic!("no send was submitted: {:?}", other),
    };
    let response = server.pending_response(5).expect("a response is pending").clone();
    assert_eq!(sent as usize, response.len());
    let text = String::from_utf8(response).expect("the response is text");
    let (head, body) = text.split_once("\r\n\r\n").expect("the response has a head");
    let mut lines = head.split("\r\n");
    assert_eq!(lines.next(), Some("HTTP/1.1 200 OK"));
    assert_eq!(lines.next(), Some(format!("Content-Length: {}", DOCUMENT.len()).as_str()));
    assert_eq!(lines.next(), None);
    assert_eq!(body.as_bytes(), DOCUMENT);

    match server.on_completion(Completion { user_data: 5, result: sent as i32 }) {
        Ok(Step::Submit(poll)) => assert_eq!(poll.operation, Operation::PollReadable { fd: 5 }),
        other => panic!("the connection was not rearmed: {:?}", other),
    }
    assert!(matches!(server.state_of(5), Some(ConnectionState::AwaitingReadability)));
    assert!(server.pending_response(5).is_none());
}

/// A client connects and hangs up without a request: the connection is removed.
#[test]
fn client_that_hangs_up_is_removed() {
    let mut server = server_with_a_readable_client();
    match server.on_completion(Completion { user_data: 5, result: 0 }) {
        Ok(Step::Close { fd, reason }) => {
            assert_eq!(fd, 5);
            assert_eq!(reason, CloseReason::PeerClosed);
        }
        other => panic!("the connection was not closed: {:?}", other),
    }
    assert!(server.state_of(5).is_none());
    assert!(server.pending_response(5).is_none());
    assert_eq!(server.connection_count(), 1);
    assert!(matches!(server.state_of(LISTENER), Some(ConnectionState::Listening)));
    assert!(!server.accept_due());
}
