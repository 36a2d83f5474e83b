use devserver::handshake::{
    accept_token_for, handle_websocket_handshake, parse_websocket_handshake,
    upgrade_response_with, websocket_key, HandshakeError,
};

fn chars(s: &str) -> Vec<char> {
    s.chars().collect()
}

const SAMPLE_REQUEST: &str = "GET /chat HTTP/1.1\r\nHost: server.example.com\r\nUpgrade: websocket\r\nConnection: Upgrade\r\nSec-WebSocket-Key: dGhlIHNhbXBsZSBub25jZQ==\r\nSec-WebSocket-Version: 13\r\n\r\n";

const SAMPLE_RESPONSE: &str = "HTTP/1.1 101 Switching Protocols\r\nUpgrade: websocket\r\nConnection: Upgrade\r\nSec-WebSocket-Accept: s3pPLMBiTxaQ9kYGzzhZRbK+xOo=\r\n\r\n";

#[test]
fn sample_key_gives_sample_token() {
    let token = accept_token_for(&chars("dGhlIHNhbXBsZSBub25jZQ=="));
    assert_eq!(token, "s3pPLMBiTxaQ9kYGzzhZRbK+xOo=");
}

#[test]
fn token_of_empty_key_is_digest_of_magic_alone() {
    let token = accept_token_for(&[]);
    assert_eq!(token, "Kfh9QIsMVZcl6xEPYxPHzW8SZ8w=");
}

#[test]
fn same_key_same_token() {
    let a = accept_token_for(&chars("x3JJHMbDL1EzLkh9GBhXDw=="));
    let b = accept_token_for(&chars("x3JJHMbDL1EzLkh9GBhXDw=="));
    assert_eq!(a, b);
    assert_eq!(a, "HSmrc0sMlYUkAGmm5OPpG2HaGWk=");
}

#[test]
fn different_keys_give_different_tokens() {
    let a = accept_token_for(&chars("a"));
    let b = accept_token_for(&chars("b"));
    assert_ne!(a, b);
}

#[test]
fn response_wraps_the_token() {
    assert_eq!(
        upgrade_response_with("TOKEN"),
        "HTTP/1.1 101 Switching Protocols\r\nUpgrade: websocket\r\nConnection: Upgrade\r\nSec-WebSocket-Accept: TOKEN\r\n\r\n"
    );
}

#[test]
fn sample_request_gets_sample_response() {
    assert_eq!(
        parse_websocket_handshake(SAMPLE_REQUEST.as_bytes()),
        Ok(String::from(SAMPLE_RESPONSE))
    );
}

#[test]
fn key_is_found_and_trimmed() {
    let text = chars("GET / HTTP/1.1\r\nSec-WebSocket-Key: \t abc \r\n\r\n");
    assert_eq!(websocket_key(&text), Ok(chars("abc")));
}

#[test]
fn key_ends_at_second_colon() {
    let text = chars("Sec-WebSocket-Key: abc:def\r\n\r\n");
    assert_eq!(websocket_key(&text), Ok(chars("abc")));
}

#[test]
fn first_key_wins() {
    let text = chars("Sec-WebSocket-Key: one\r\nSec-WebSocket-Key: two\r\n\r\n");
    assert_eq!(websocket_key(&text), Ok(chars("one")));
}

#[test]
fn field_name_is_matched_as_written() {
    let text = chars("sec-websocket-key: abc\r\n\r\n");
    assert_eq!(websocket_key(&text), Err(HandshakeError::MissingKey));
    let text = chars(" Sec-WebSocket-Key: abc\r\n\r\n");
    assert_eq!(websocket_key(&text), Err(HandshakeError::MissingKey));
}

#[test]
fn absent_key_is_an_error() {
    let text = chars("GET / HTTP/1.1\r\nHost: x\r\n\r\n");
    assert_eq!(websocket_key(&text), Err(HandshakeError::MissingKey));
    assert_eq!(websocket_key(&[]), Err(HandshakeError::MissingKey));
    assert_eq!(
        parse_websocket_handshake(b"GET / HTTP/1.1\r\nHost: x\r\n\r\n"),
        Err(HandshakeError::MissingKey)
    );
}

#[test]
fn key_line_without_colon_is_an_error() {
    let text = chars("GET / HTTP/1.1\r\nSec-WebSocket-Key\r\n\r\n");
    assert_eq!(websocket_key(&text), Err(HandshakeError::MalformedKey));
}

#[test]
fn key_with_empty_value_is_the_empty_key() {
    let text = chars("Sec-WebSocket-Key:\r\n\r\n");
    assert_eq!(websocket_key(&text), Ok(Vec::new()));
}

#[test]
fn request_that_is_not_text_is_an_error() {
    let mut stream = Vec::new();
    assert_eq!(
        handle_websocket_handshake(&[0xFF, 0xFE, b'\r', b'\n', b'\r', b'\n'], &mut stream),
        Err(HandshakeError::NotText)
    );
    assert!(stream.is_empty());
}

#[test]
fn answer_is_129_bytes_long() {
    let response = parse_websocket_handshake(SAMPLE_REQUEST.as_bytes()).unwrap();
    assert_eq!(response.len(), 129);
    assert_eq!(accept_token_for(&chars("any key at all")).len(), 28);
    let mut stream = Vec::new();
    handle_websocket_handshake(b"Sec-WebSocket-Key: k\r\n\r\n", &mut stream).unwrap();
    assert_eq!(stream.len(), 129);
}

#[test]
fn handshake_writes_the_response() {
    let mut stream = Vec::new();
    let done = handle_websocket_handshake(SAMPLE_REQUEST.as_bytes(), &mut stream);
    assert_eq!(done, Ok(()));
    assert_eq!(stream, SAMPLE_RESPONSE.as_bytes());
}

#[test]
fn handshake_reads_no_further_than_the_header() {
    let mut incoming = SAMPLE_REQUEST.as_bytes().to_vec();
    incoming.extend_from_slice(b"Sec-WebSocket-Key: later\r\n\r\n");
    let mut stream = Vec::new();
    assert_eq!(handle_websocket_handshake(&incoming, &mut stream), Ok(()));
    assert_eq!(stream, SAMPLE_RESPONSE.as_bytes());
}

#[test]
fn handshake_without_header_writes_nothing() {
    let mut stream = vec![1u8];
    let done = handle_websocket_handshake(b"Sec-WebSocket-Key: abc\r\n", &mut stream);
    assert_eq!(done, Err(HandshakeError::IncompleteHeader));
    assert_eq!(stream, vec![1u8]);
}

#[test]
fn handshake_without_key_writes_nothing() {
    let mut stream = Vec::new();
    let done = handle_websocket_handshake(b"GET / HTTP/1.1\r\n\r\n", &mut stream);
    assert_eq!(done, Err(HandshakeError::MissingKey));
    assert!(stream.is_empty());
}
