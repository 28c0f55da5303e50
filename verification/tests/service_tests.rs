use imap_server::request;
use imap_server::response::{encode, Response};
use imap_server::service::{Echo, Request, Response as ServiceResponse};

#[test]
fn response_body_replaces_text() {
    let mut r = Response::new();
    r.body("* OK ready");
    let mut buf: Vec<u8> = Vec::new();
    encode(r, &mut buf);
    assert_eq!(buf, b"* OK ready\r\n".to_vec());
}

#[test]
fn empty_response_encodes_bare_terminator() {
    let r = Response::new();
    let mut buf: Vec<u8> = Vec::new();
    encode(r, &mut buf);
    assert_eq!(buf, b"\r\n".to_vec());
}

#[test]
fn request_decode_drains_the_buffer() {
    let mut buf: Vec<u8> = b"a1 NOOP\r\n".to_vec();
    let req = request::decode(&mut buf);
    assert!(buf.is_empty());
    assert_eq!(req.data(), &b"a1 NOOP\r\n".to_vec());
}

#[test]
fn echo_service_returns_tag_and_value() {
    let mut req = Request::new(99);
    req.set_tag(5);
    let echo = Echo;
    let resp: ServiceResponse = echo.call(req);
    assert_eq!(resp.get_tag(), 5);
    resp.check(99);
}
