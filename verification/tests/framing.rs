use sipcore::framing::{
    find_blank_line, find_byte, find_crlf, is_length_name, next_frame, read_head_length,
    read_length, read_length_line, Frame, LengthField, ReadAction, StreamReader,
    KEEPALIVE_REQUEST, KEEPALIVE_RESPONSE, MAX_BODY_LENGTH,
};
use sipcore::message::SipMessage;

const BYE: &str = "BYE sip:bob@example.com SIP/2.0\r\nCall-ID: x\r\nCSeq: 2 BYE\r\nContent-Length: 0\r\n\r\n";
const INFO: &str = "INFO sip:bob@example.com SIP/2.0\r\nCall-ID: x\r\nCSeq: 3 INFO\r\nContent-Length: 5\r\n\r\nhello";

fn delivered(actions: &[ReadAction]) -> Vec<SipMessage> {
    let mut out = Vec::new();
    for a in actions {
        if let ReadAction::Deliver(m) = a {
            out.push(m.clone());
        }
    }
    out
}

#[test]
fn keepalive_constants_are_line_ends() {
    assert_eq!(&KEEPALIVE_REQUEST[..], b"\r\n\r\n");
    assert_eq!(&KEEPALIVE_RESPONSE[..], b"\r\n");
    assert_eq!(MAX_BODY_LENGTH, u32::MAX as u64);
}

#[test]
fn keepalive_request_is_answered_and_nothing_is_delivered() {
    let mut reader = StreamReader::new();
    let actions = reader.feed(b"\r\n\r\n");
    assert_eq!(actions, vec![ReadAction::Pong]);
    assert!(reader.buffer.is_empty());
}

#[test]
fn keepalive_response_and_white_space_bring_nothing() {
    let mut reader = StreamReader::new();
    assert_eq!(reader.feed(b"\r\n"), vec![]);
    assert_eq!(reader.buffer, b"\r\n".to_vec());
    assert_eq!(reader.feed(b"  \t "), vec![]);
    assert!(reader.buffer.is_empty());
    assert_eq!(reader.feed(b" \n \n"), vec![]);
    assert!(reader.buffer.is_empty());
}

#[test]
fn keepalive_request_split_over_two_reads_is_answered_once() {
    let mut reader = StreamReader::new();
    assert_eq!(reader.feed(b"\r\n\r"), vec![]);
    assert_eq!(reader.feed(b"\n"), vec![ReadAction::Pong]);
    assert!(reader.buffer.is_empty());
}

#[test]
fn frames_at_the_front_of_a_stream() {
    assert_eq!(next_frame(b""), Frame::Incomplete);
    assert_eq!(next_frame(b"\r"), Frame::Incomplete);
    assert_eq!(next_frame(b"\r\n"), Frame::Incomplete);
    assert_eq!(next_frame(b"\r\n\r"), Frame::Incomplete);
    assert_eq!(next_frame(b"\r\n\r\n"), Frame::KeepaliveRequest);
    assert_eq!(next_frame(b"\r\n\r\nBYE"), Frame::KeepaliveRequest);
    assert_eq!(next_frame(b"\r\nBYE"), Frame::KeepaliveResponse);
    assert_eq!(next_frame(b"\r\n\rX"), Frame::KeepaliveResponse);
    assert_eq!(next_frame(b"\rX"), Frame::Blank);
    assert_eq!(next_frame(b" BYE"), Frame::Blank);
    assert_eq!(next_frame(b"\n"), Frame::Blank);
    assert_eq!(next_frame(b"BYE sip:b SIP/2.0\r\nCall-ID: x\r\n"), Frame::Incomplete);
    assert_eq!(next_frame(BYE.as_bytes()), Frame::Message(BYE.len()));
    assert_eq!(next_frame(INFO.as_bytes()), Frame::Message(INFO.len()));
    assert_eq!(next_frame(&INFO.as_bytes()[..INFO.len() - 1]), Frame::Incomplete);
    let no_length = b"BYE sip:b SIP/2.0\r\nCall-ID: x\r\n\r\nrest";
    assert_eq!(next_frame(no_length), Frame::Message(no_length.len() - 4));
    let bad_length = b"BYE sip:b SIP/2.0\r\nContent-Length: many\r\n\r\nrest";
    assert_eq!(next_frame(bad_length), Frame::Malformed(bad_length.len() - 4));
}

#[test]
fn one_read_with_two_messages_delivers_both() {
    let mut reader = StreamReader::new();
    let mut data = BYE.as_bytes().to_vec();
    data.extend_from_slice(INFO.as_bytes());
    let actions = reader.feed(&data);
    let msgs = delivered(&actions);
    assert_eq!(actions.len(), 2);
    assert_eq!(msgs.len(), 2);
    match (&msgs[0], &msgs[1]) {
        (SipMessage::Request(a), SipMessage::Request(b)) => {
            assert_eq!(a.cseq().ok(), Some(2));
            assert_eq!(a.body, Vec::<u8>::new());
            assert_eq!(b.cseq().ok(), Some(3));
            assert_eq!(b.body, b"hello".to_vec());
        }
        other => panic!("not two requests: {:?}", other),
    }
    assert!(reader.buffer.is_empty());
}

#[test]
fn a_message_split_over_many_reads_is_delivered_once_it_is_whole() {
    let mut reader = StreamReader::new();
    let bytes = INFO.as_bytes();
    for i in 0..bytes.len() - 1 {
        assert_eq!(reader.feed(&bytes[i..i + 1]), vec![], "after byte {}", i);
    }
    let actions = reader.feed(&bytes[bytes.len() - 1..]);
    assert_eq!(delivered(&actions).len(), 1);
    assert!(reader.buffer.is_empty());
}

#[test]
fn a_body_longer_than_one_read_is_framed_by_its_length() {
    let body: Vec<u8> = (0..5000).map(|i| b'a' + (i % 26) as u8).collect();
    let mut data = format!(
        "INFO sip:bob@example.com SIP/2.0\r\nCall-ID: x\r\nCSeq: 3 INFO\r\nContent-Length: {}\r\n\r\n",
        body.len()
    )
    .into_bytes();
    data.extend_from_slice(&body);
    data.extend_from_slice(b"\r\n\r\n");
    let mut reader = StreamReader::new();
    let mut actions = Vec::new();
    for chunk in data.chunks(2048) {
        actions.extend(reader.feed(chunk));
    }
    assert_eq!(actions.len(), 2);
    match &actions[0] {
        ReadAction::Deliver(SipMessage::Request(r)) => assert_eq!(r.body, body),
        other => panic!("not a request: {:?}", other),
    }
    assert_eq!(actions[1], ReadAction::Pong);
}

#[test]
fn a_frame_that_is_no_message_is_dropped_and_the_stream_goes_on() {
    let mut reader = StreamReader::new();
    let mut data = b"this is not sip\r\n\r\n".to_vec();
    data.extend_from_slice(&[0xff, 0xfe, b'\r', b'\n', b'\r', b'\n']);
    data.extend_from_slice(b"BYE sip:b SIP/2.0\r\nContent-Length: x\r\n\r\n");
    data.extend_from_slice(BYE.as_bytes());
    let actions = reader.feed(&data);
    assert_eq!(actions.len(), 1);
    assert_eq!(delivered(&actions).len(), 1);
    assert!(reader.buffer.is_empty());
}

#[test]
fn what_is_left_of_the_stream_waits_for_the_next_read() {
    let mut reader = StreamReader::new();
    let mut data = BYE.as_bytes().to_vec();
    data.extend_from_slice(b"INFO sip:bob");
    assert_eq!(reader.feed(&data).len(), 1);
    assert_eq!(reader.buffer, b"INFO sip:bob".to_vec());
    assert_eq!(reader.feed(b""), vec![]);
    assert_eq!(reader.buffer, b"INFO sip:bob".to_vec());
}

#[test]
fn scanners_find_the_first_occurrence() {
    assert_eq!(find_crlf(b"ab\r\ncd\r\n", 0), 2);
    assert_eq!(find_crlf(b"ab\r\ncd\r\n", 3), 6);
    assert_eq!(find_crlf(b"ab\rcd\n", 0), 6);
    assert_eq!(find_crlf(b"ab\r", 0), 3);
    assert_eq!(find_blank_line(b"a\r\nb\r\n\r\nc", 0), 4);
    assert_eq!(find_blank_line(b"a\r\nb\r\n\r", 0), 7);
    assert_eq!(find_blank_line(b"\r\n\r\n\r\n", 1), 2);
    assert_eq!(find_byte(b"a:b:c", b':', 0), 1);
    assert_eq!(find_byte(b"a:b:c", b':', 2), 3);
    assert_eq!(find_byte(b"abc", b':', 0), 3);
}

#[test]
fn the_length_header_is_known_by_its_long_and_short_name() {
    assert!(is_length_name(b"Content-Length"));
    assert!(is_length_name(b"content-length"));
    assert!(is_length_name(b"CONTENT-LENGTH"));
    assert!(is_length_name(b"l"));
    assert!(is_length_name(b"L"));
    assert!(!is_length_name(b"Content-Lengt"));
    assert!(!is_length_name(b"Content_Length"));
    assert!(!is_length_name(b"Content-Lengths"));
    assert!(!is_length_name(b"m"));
    assert!(!is_length_name(b""));
}

#[test]
fn the_length_is_a_decimal_number_within_the_limit() {
    assert_eq!(read_length(b"0"), LengthField::Value(0));
    assert_eq!(read_length(b" 42 "), LengthField::Value(42));
    assert_eq!(read_length(b"\t007"), LengthField::Value(7));
    assert_eq!(read_length(b"4294967295"), LengthField::Value(4294967295));
    assert_eq!(read_length(b"4294967296"), LengthField::Invalid);
    assert_eq!(read_length(b"99999999999999999999999999"), LengthField::Invalid);
    assert_eq!(read_length(b""), LengthField::Invalid);
    assert_eq!(read_length(b"   "), LengthField::Invalid);
    assert_eq!(read_length(b"12a"), LengthField::Invalid);
    assert_eq!(read_length(b"1 2"), LengthField::Invalid);
    assert_eq!(read_length(b"-1"), LengthField::Invalid);
}

#[test]
fn the_length_is_read_from_the_first_header_that_gives_it() {
    assert_eq!(read_length_line(b"Content-Length: 12"), Some(LengthField::Value(12)));
    assert_eq!(read_length_line(b"content-length \t:12"), Some(LengthField::Value(12)));
    assert_eq!(read_length_line(b"l: 3"), Some(LengthField::Value(3)));
    assert_eq!(read_length_line(b"Content-Length: x"), Some(LengthField::Invalid));
    assert_eq!(read_length_line(b"Content-Type: 12"), None);
    assert_eq!(read_length_line(b"Content-Length 12"), None);
    assert_eq!(
        read_head_length(b"INVITE sip:l SIP/2.0\r\nVia: x\r\nContent-Length: 5\r\nl: 9"),
        LengthField::Value(5)
    );
    assert_eq!(read_head_length(b"l: 4\r\nVia: x"), LengthField::Absent);
    assert_eq!(read_head_length(b"INVITE sip:l SIP/2.0"), LengthField::Absent);
    assert_eq!(read_head_length(b"INVITE sip:l SIP/2.0\r\nl: 1x\r\nl: 2"), LengthField::Invalid);
    assert_eq!(read_head_length(b""), LengthField::Absent);
}
