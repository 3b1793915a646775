use sipcore::dialog::{DialogInner, Role};
use sipcore::dialog_id::DialogId;
use sipcore::framing::{next_frame, Frame, ReadAction, StreamReader};
use sipcore::message::{Header, Method, Request, SipMessage};
use sipcore::wire::{encode_message, parse_message};

const INVITE: &str = "INVITE sip:bob@example.com SIP/2.0\r\n\
Via: SIP/2.0/TCP 10.0.0.1:5060;branch=z9hG4bK776asdhds\r\n\
Record-Route: <sip:proxy-a.example.com;lr>\r\n\
To: Bob <sip:bob@example.com>\r\n\
From: Alice <sip:alice@example.com>;tag=1928301774\r\n\
Call-ID: a84b4c76e66710@pc33.example.com\r\n\
CSeq: 10 INVITE\r\n\
Contact: <sip:alice@10.0.0.1:5060>\r\n\
Content-Length: 0\r\n\
\r\n";

fn invite() -> Request {
    match parse_message(INVITE) {
        Some(SipMessage::Request(r)) => r,
        other => panic!("not a request: {:?}", other),
    }
}

fn dialog(role: Role) -> DialogInner {
    let req = invite();
    let mut id = DialogId::from_request(&req).expect("an identifier");
    id.to_tag = "srv".to_string();
    DialogInner::new(role, id, req, None, "SIP/2.0/TCP 10.0.0.1:5060", None).expect("a dialog")
}

fn built() -> Vec<SipMessage> {
    let mut caller = dialog(Role::Client);
    caller.route_set = vec!["<sip:proxy-a.example.com;lr>".to_string()];
    let callee = dialog(Role::Server);
    let body: Vec<u8> = (0..3000u32).map(|i| b' ' + (i % 95) as u8).collect();
    vec![
        SipMessage::Request(caller.make_request(Method::Info, None, None, Some("z9hG4bKa"), None, None)),
        SipMessage::Request(caller.make_request(
            Method::Options,
            None,
            Some("<sip:alice@10.0.0.1>"),
            None,
            Some(vec![Header::new("Content-Type", "text/plain")]),
            Some(b"one\r\n\r\ntwo".to_vec()),
        )),
        SipMessage::Response(callee.make_response(&invite(), 180, None, None)),
        SipMessage::Response(callee.make_response(
            &invite(),
            200,
            Some(vec![Header::new("Content-Type", "application/sdp")]),
            Some(body),
        )),
        SipMessage::Request(caller.make_request(Method::Bye, None, None, Some("z9hG4bKb"), None, None)),
    ]
}

#[test]
fn a_built_message_is_one_frame_whatever_follows() {
    for msg in built() {
        let bytes = encode_message(&msg);
        assert_eq!(next_frame(&bytes), Frame::Message(bytes.len()));
        for rest in [&b"\r\n\r\n"[..], b"INVITE", b"x", b"\r\n"] {
            let mut stream = bytes.clone();
            stream.extend_from_slice(rest);
            assert_eq!(next_frame(&stream), Frame::Message(bytes.len()));
        }
        assert_eq!(next_frame(&bytes[..bytes.len() - 1]), Frame::Incomplete);
    }
}

#[test]
fn built_messages_come_out_of_the_stream_as_they_went_in() {
    let msgs = built();
    let mut stream = Vec::new();
    for msg in &msgs {
        stream.extend_from_slice(&encode_message(msg));
    }
    let mut reader = StreamReader::new();
    let mut delivered = Vec::new();
    for chunk in stream.chunks(2048) {
        for action in reader.feed(chunk) {
            match action {
                ReadAction::Deliver(m) => delivered.push(m),
                ReadAction::Pong => panic!("no keepalive was sent"),
            }
        }
    }
    assert_eq!(delivered, msgs);
    assert!(reader.buffer.is_empty());
}

#[test]
fn a_length_header_among_the_extra_headers_misleads_the_framer() {
    let mut caller = dialog(Role::Client);
    let req = caller.make_request(
        Method::Info,
        None,
        None,
        None,
        Some(vec![Header::new("l", "1")]),
        Some(b"hello".to_vec()),
    );
    let bytes = encode_message(&SipMessage::Request(req));
    assert_eq!(next_frame(&bytes), Frame::Message(bytes.len() - 4));
}

#[test]
fn a_body_that_is_no_text_is_framed_and_dropped() {
    let callee = dialog(Role::Server);
    let resp = callee.make_response(&invite(), 200, None, Some(vec![0xff, 0xfe, 0x00]));
    let mut stream = encode_message(&SipMessage::Response(resp));
    let len = stream.len();
    assert_eq!(next_frame(&stream), Frame::Message(len));
    stream.extend_from_slice(b"\r\n\r\n");
    let mut reader = StreamReader::new();
    assert_eq!(reader.feed(&stream), vec![ReadAction::Pong]);
    assert!(reader.buffer.is_empty());
}
