//! The response producer: from the bytes of one request to the bytes of its response.
//!
//! A request whose first bytes are exactly the line `GET / HTTP/1.1\r\n` is answered
//! with status 200 and the configured document; every other request is answered with
//! status 404 and the configured not-found document. A response is the status line, a
//! `Content-Length` header with the body's length in decimal, an empty line, the body.

use vstd::prelude::*;
use vstd::string::StringSliceAdditionalSpecFns;

verus! {

/// The request line that selects the document.
pub open spec fn root_request_line() -> Seq<u8> {
    "GET / HTTP/1.1\r\n".spec_bytes()
}

/// Status line of a response that carries the document.
pub open spec fn ok_status_line() -> Seq<u8> {
    "HTTP/1.1 200 OK".spec_bytes()
}

/// Status line of a response to anything but the root request.
pub open spec fn not_found_status_line() -> Seq<u8> {
    "HTTP/1.1 404 NOT FOUND".spec_bytes()
}

/// What stands between the status line and the length.
pub open spec fn length_header() -> Seq<u8> {
    "\r\nContent-Length: ".spec_bytes()
}

/// What stands between the length and the body.
pub open spec fn header_end() -> Seq<u8> {
    "\r\n\r\n".spec_bytes()
}

/// The ASCII digit for `d`, which is below ten.
pub open spec fn digit(d: nat) -> u8
    recommends
        d < 10,
{
    (48 + d) as u8
}

/// `n` in decimal ASCII digits, most significant first, without leading zeros.
pub open spec fn decimal(n: nat) -> Seq<u8>
    decreases n,
{
    if n < 10 {
        seq![digit(n)]
    } else {
        decimal(n / 10).push(digit(n % 10))
    }
}

/// The bytes of a response with the given status line and body.
pub open spec fn response(status_line: Seq<u8>, body: Seq<u8>) -> Seq<u8> {
    status_line + length_header() + decimal(body.len()) + header_end() + body
}

/// Whether `request` begins with the root request line.
pub open spec fn requests_root(request: Seq<u8>) -> bool {
    root_request_line().is_prefix_of(request)
}

/// The response to `request` when `document` and `not_found` are the configured bodies.
pub open spec fn reply_to(document: Seq<u8>, not_found: Seq<u8>, request: Seq<u8>) -> Seq<u8> {
    if requests_root(request) {
        response(ok_status_line(), document)
    } else {
        response(not_found_status_line(), not_found)
    }
}

/// The fixed texts of the protocol, byte by byte: each is the ASCII text that defines
/// it.
pub proof fn lemma_wire_bytes()
    ensures
        root_request_line() == seq![
            71u8, 69, 84, 32, 47, 32, 72, 84, 84, 80, 47, 49, 46, 49, 13, 10,
        ],
        ok_status_line() == seq![72u8, 84, 84, 80, 47, 49, 46, 49, 32, 50, 48, 48, 32, 79, 75],
        not_found_status_line() == seq![
            72u8, 84, 84, 80, 47, 49, 46, 49, 32, 52, 48, 52, 32, 78, 79, 84, 32, 70, 79, 85, 78,
            68,
        ],
        length_header() == seq![
            13u8, 10, 67, 111, 110, 116, 101, 110, 116, 45, 76, 101, 110, 103, 116, 104, 58, 32,
        ],
        header_end() == seq![13u8, 10, 13, 10],
{
    reveal_strlit("GET / HTTP/1.1\r\n");
    reveal_strlit("HTTP/1.1 200 OK");
    reveal_strlit("HTTP/1.1 404 NOT FOUND");
    reveal_strlit("\r\nContent-Length: ");
    reveal_strlit("\r\n\r\n");
    assert(vstd::string::is_ascii("GET / HTTP/1.1\r\n"));
    assert(vstd::string::is_ascii("HTTP/1.1 200 OK"));
    assert(vstd::string::is_ascii("HTTP/1.1 404 NOT FOUND"));
    assert(vstd::string::is_ascii("\r\nContent-Length: "));
    assert(vstd::string::is_ascii("\r\n\r\n"));
}

/// A root request is answered with status 200 and the document, whose length in
/// bytes the `Content-Length` header gives.
pub proof fn law_root_request_gets_the_document(
    document: Seq<u8>,
    not_found: Seq<u8>,
    request: Seq<u8>,
)
    requires
        requests_root(request),
    ensures
        ok_status_line().is_prefix_of(reply_to(document, not_found, request)),
        reply_to(document, not_found, request) == ok_status_line() + length_header() + decimal(
            document.len(),
        ) + header_end() + document,
{
}

/// Every request but a root request is answered with status 404 and the not-found
/// document.
pub proof fn law_other_request_is_not_found(
    document: Seq<u8>,
    not_found: Seq<u8>,
    request: Seq<u8>,
)
    requires
        !requests_root(request),
    ensures
        not_found_status_line().is_prefix_of(reply_to(document, not_found, request)),
        reply_to(document, not_found, request) == not_found_status_line() + length_header()
            + decimal(not_found.len()) + header_end() + not_found,
{
}

/// Whether `bytes` begins with `prefix`.
fn starts_with(bytes: &[u8], prefix: &[u8]) -> (yes: bool)
    ensures
        yes == prefix@.is_prefix_of(bytes@),
{
    if prefix.len() > bytes.len() {
        return false;
    }
    let mut i: usize = 0;
    while i < prefix.len()
        invariant
            i <= prefix.len() <= bytes.len(),
            forall|j: int| 0 <= j < i ==> prefix@[j] == bytes@[j],
        decreases prefix.len() - i,
    {
        if prefix[i] != bytes[i] {
            assert(bytes@.subrange(0, prefix@.len() as int)[i as int] != prefix@[i as int]);
            return false;
        }
        i += 1;
    }
    assert(prefix@ =~= bytes@.subrange(0, prefix@.len() as int));
    true
}

/// Appends `bytes` to `out`.
fn append(out: &mut Vec<u8>, bytes: &[u8])
    ensures
        final(out)@ == old(out)@ + bytes@,
{
    let mut i: usize = 0;
    while i < bytes.len()
        invariant
            i <= bytes.len(),
            out@ == old(out)@ + bytes@.subrange(0, i as int),
        decreases bytes.len() - i,
    {
        out.push(bytes[i]);
        i += 1;
        assert(out@ =~= old(out)@ + bytes@.subrange(0, i as int));
    }
    assert(bytes@.subrange(0, bytes@.len() as int) =~= bytes@);
}

/// Appends `n` in decimal to `out`.
fn append_decimal(out: &mut Vec<u8>, n: usize)
    ensures
        final(out)@ == old(out)@ + decimal(n as nat),
    decreases n,
{
    if n < 10 {
        out.push(48u8 + n as u8);
        assert(out@ =~= old(out)@ + decimal(n as nat));
    } else {
        append_decimal(out, n / 10);
        out.push(48u8 + (n % 10) as u8);
        assert(out@ =~= old(out)@ + decimal(n as nat));
    }
}

/// Builds the response with the given status line and body.
pub fn render(status_line: &[u8], body: &[u8]) -> (bytes: Vec<u8>)
    ensures
        bytes@ == response(status_line@, body@),
{
    let mut bytes: Vec<u8> = Vec::new();
    append(&mut bytes, status_line);
    append(&mut bytes, "\r\nContent-Length: ".as_bytes());
    append_decimal(&mut bytes, body.len());
    append(&mut bytes, "\r\n\r\n".as_bytes());
    append(&mut bytes, body);
    assert(bytes@ =~= response(status_line@, body@));
    bytes
}

/// The two documents that the server answers with.
pub struct ResponseProducer {
    document: Vec<u8>,
    not_found: Vec<u8>,
}

impl ResponseProducer {
    /// Body of a response to the root request.
    pub closed spec fn document(&self) -> Seq<u8> {
        self.document@
    }

    /// Body of a response to any other request.
    pub closed spec fn not_found(&self) -> Seq<u8> {
        self.not_found@
    }

    /// A producer that answers the root request with `document` and every other one
    /// with `not_found`.
    pub fn new(document: Vec<u8>, not_found: Vec<u8>) -> (producer: ResponseProducer)
        ensures
            producer.document() == document@,
            producer.not_found() == not_found@,
    {
        ResponseProducer { document, not_found }
    }

    /// The response to `request`.
    pub fn produce(&self, request: &[u8]) -> (reply: Vec<u8>)
        ensures
            reply@ == reply_to(self.document(), self.not_found(), request@),
    {
        if starts_with(request, "GET / HTTP/1.1\r\n".as_bytes()) {
            render("HTTP/1.1 200 OK".as_bytes(), self.document.as_slice())
        } else {
            render("HTTP/1.1 404 NOT FOUND".as_bytes(), self.not_found.as_slice())
        }
    }
}

} // verus!
