//! The wire codec on its own: framing, decoding, the round trip.

use pkm::lsp::codec::{decode_frame, encode_request, Decoded};
use pkm::lsp::Error;

#[test]
fn encode_builds_the_exact_frame() {
    let frame = encode_request(7, "m/x", b"{\"a\":1}");
    let expected = "Content-Length: 56\r\n\r\n{\"jsonrpc\":\"2.0\",\"id\":7,\"method\":\"m/x\",\"params\":{\"a\":1}}";
    assert_eq!(String::from_utf8(frame).unwrap(), expected);
}

#[test]
fn encode_escapes_the_method() {
    let frame = encode_request(0, "a\"b\\c\nd", b"null");
    let text = String::from_utf8(frame).unwrap();
    assert!(text.contains("\"method\":\"a\\\"b\\\\c\\nd\""));
}

#[test]
fn encode_escapes_control_characters() {
    let frame = encode_request(0, "a\u{1}b", b"null");
    let text = String::from_utf8(frame).unwrap();
    assert!(text.contains("\"method\":\"a\\u0001b\""));
}

#[test]
fn encode_counts_bytes_not_characters() {
    // a two-byte UTF-8 character in the params
    let params = "{\"t\":\"\u{e9}\"}".as_bytes().to_vec();
    let frame = encode_request(1, "m", &params);
    match decode_frame(&frame).unwrap() {
        Decoded::Frame { body, used, .. } => {
            assert_eq!(used, frame.len());
            let text = String::from_utf8(body).unwrap();
            assert!(text.ends_with("\"params\":{\"t\":\"\u{e9}\"}}"));
        }
        Decoded::Incomplete => panic!("expected a whole frame"),
    }
}

#[test]
fn frame_round_trip_recovers_the_request() {
    let frame = encode_request(42, "textDocument/definition", b"{\"p\":[1,2]}");
    match decode_frame(&frame).unwrap() {
        Decoded::Frame { headers, body, used } => {
            assert_eq!(used, frame.len());
            let text = String::from_utf8(body).unwrap();
            assert_eq!(
                text,
                "{\"jsonrpc\":\"2.0\",\"id\":42,\"method\":\"textDocument/definition\",\"params\":{\"p\":[1,2]}}"
            );
            assert_eq!(headers.len(), 1);
            assert_eq!(headers[0].0, b"content-length".to_vec());
            assert_eq!(headers[0].1, text.len().to_string().into_bytes());
        }
        Decoded::Incomplete => panic!("expected a whole frame"),
    }
}

#[test]
fn decode_waits_for_missing_bytes() {
    let buf = b"Content-Length: 10\r\n\r\n12345".to_vec();
    assert!(matches!(decode_frame(&buf).unwrap(), Decoded::Incomplete));
    let buf = b"Content-Length: 10\r\n".to_vec();
    assert!(matches!(decode_frame(&buf).unwrap(), Decoded::Incomplete));
}

#[test]
fn decode_lowercases_and_trims_headers() {
    let buf = b"CONTENT-LENGTH:   2  \r\nX-Extra: hi\r\n\r\nok!".to_vec();
    match decode_frame(&buf).unwrap() {
        Decoded::Frame { headers, body, used } => {
            assert_eq!(body, b"ok".to_vec());
            assert_eq!(used, buf.len() - 1);
            assert_eq!(headers[0].0, b"content-length".to_vec());
            assert_eq!(headers[0].1, b"2".to_vec());
            assert_eq!(headers[1].0, b"x-extra".to_vec());
            assert_eq!(headers[1].1, b"hi".to_vec());
        }
        Decoded::Incomplete => panic!("expected a whole frame"),
    }
}

#[test]
fn decode_takes_the_last_repeated_length() {
    let buf = b"Content-Length: 9\r\nContent-Length: 2\r\n\r\nabcdef".to_vec();
    match decode_frame(&buf).unwrap() {
        Decoded::Frame { body, .. } => assert_eq!(body, b"ab".to_vec()),
        Decoded::Incomplete => panic!("expected a whole frame"),
    }
}

#[test]
fn decode_refuses_a_header_without_a_colon() {
    let buf = b"Oops\r\n\r\n".to_vec();
    assert!(matches!(decode_frame(&buf), Err(Error::MalformedHeader)));
}

#[test]
fn decode_refuses_a_missing_length() {
    let buf = b"X: 1\r\n\r\nbody".to_vec();
    assert!(matches!(decode_frame(&buf), Err(Error::MissingContentLength)));
}

#[test]
fn decode_refuses_an_unreadable_length() {
    let buf = b"Content-Length: -4\r\n\r\n".to_vec();
    assert!(matches!(decode_frame(&buf), Err(Error::DecodeError)));
    let buf = b"Content-Length:\r\n\r\n".to_vec();
    assert!(matches!(decode_frame(&buf), Err(Error::DecodeError)));
}
