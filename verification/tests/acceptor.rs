use devserver::acceptor::{
    after_handshake, after_peek, ascii_letter, classify, AcceptStep, Transport,
};

#[test]
fn request_verbs_are_plain() {
    assert_eq!(classify(b'G', b'E'), Transport::Plain);
    assert_eq!(classify(b'P', b'O'), Transport::Plain);
    assert_eq!(classify(b'g', b'e'), Transport::Plain);
    assert_eq!(classify(b'A', b'z'), Transport::Plain);
    assert_eq!(classify(b'Z', b'a'), Transport::Plain);
}

#[test]
fn tls_record_is_encrypted() {
    assert_eq!(classify(0x16, 0x03), Transport::Encrypted);
}

#[test]
fn one_letter_is_not_enough() {
    assert_eq!(classify(b'G', 0x03), Transport::Encrypted);
    assert_eq!(classify(0x16, b'E'), Transport::Encrypted);
    assert_eq!(classify(b'G', b' '), Transport::Encrypted);
    assert_eq!(classify(b'1', b'2'), Transport::Encrypted);
}

#[test]
fn bytes_next_to_the_letters_are_not_letters() {
    assert!(!ascii_letter(b'@'));
    assert!(ascii_letter(b'A'));
    assert!(ascii_letter(b'Z'));
    assert!(!ascii_letter(b'['));
    assert!(!ascii_letter(b'`'));
    assert!(ascii_letter(b'a'));
    assert!(ascii_letter(b'z'));
    assert!(!ascii_letter(b'{'));
}

#[test]
fn letters_outside_ascii_are_encrypted() {
    assert_eq!(classify(0xC0, 0xE9), Transport::Encrypted);
    assert_eq!(classify(b'G', 0xE9), Transport::Encrypted);
}

#[test]
fn every_pair_is_classified_by_its_letters() {
    for first in 0..=255u8 {
        for second in 0..=255u8 {
            let plain = first.is_ascii_alphabetic() && second.is_ascii_alphabetic();
            let expected = if plain { Transport::Plain } else { Transport::Encrypted };
            assert_eq!(classify(first, second), expected);
        }
    }
}

#[test]
fn failed_peek_drops_the_connection() {
    assert_eq!(after_peek(&[]), AcceptStep::Drop);
}

#[test]
fn connection_closed_before_two_bytes_is_dropped() {
    assert_eq!(after_peek(&[b'G']), AcceptStep::Drop);
    assert_eq!(after_peek(&[0x16]), AcceptStep::Drop);
}

#[test]
fn plain_stream_is_served_at_once() {
    assert_eq!(after_peek(&[b'G', b'E']), AcceptStep::Serve(Transport::Plain));
    assert_eq!(after_peek(b"GET / HTTP/1.1"), AcceptStep::Serve(Transport::Plain));
}

#[test]
fn other_stream_goes_through_the_handshake() {
    assert_eq!(after_peek(&[0x16, 0x03]), AcceptStep::Handshake);
    assert_eq!(after_peek(&[0, 0]), AcceptStep::Handshake);
    assert_eq!(after_peek(&[b'G', b' ', b'E']), AcceptStep::Handshake);
}

#[test]
fn handshake_decides_between_serving_and_dropping() {
    assert_eq!(after_handshake(true), AcceptStep::Serve(Transport::Encrypted));
    assert_eq!(after_handshake(false), AcceptStep::Drop);
}
