use sipcore::dialog::{DialogInner, Role};
use sipcore::dialog_id::DialogId;
use sipcore::error::Error;
use sipcore::message::{find_header, set_first, Header, Method, Request, SipMessage};
use sipcore::state::DialogState;
use sipcore::text::decimal;
use sipcore::wire::parse_message;

const INVITE: &str = "INVITE sip:bob@example.com SIP/2.0\r\n\
Via: SIP/2.0/TCP 10.0.0.1:5060;branch=z9hG4bK776asdhds\r\n\
To: Bob <sip:bob@example.com>\r\n\
From: Alice <sip:alice@example.com>;tag=1928301774\r\n\
Call-ID: a84b4c76e66710@pc33.example.com\r\n\
CSeq: 10 INVITE\r\n\
Content-Length: 0\r\n\
\r\n";

fn invite() -> Request {
    match parse_message(INVITE) {
        Some(SipMessage::Request(r)) => r,
        other => panic!("not a request: {:?}", other),
    }
}

fn dialog() -> DialogInner {
    let req = invite();
    let id = DialogId::from_request(&req).expect("an identifier");
    DialogInner::new(Role::Client, id, req, None, "SIP/2.0/TCP 10.0.0.1:5060", None)
        .expect("a dialog")
}

fn pairs(req: &Request) -> Vec<(&str, &str)> {
    req.headers.iter().map(|h| (h.name.as_str(), h.value.as_str())).collect()
}

#[test]
fn decimal_numerals() {
    assert_eq!(decimal(0), "0");
    assert_eq!(decimal(7), "7");
    assert_eq!(decimal(10), "10");
    assert_eq!(decimal(4294967295), "4294967295");
    assert_eq!(decimal(u64::MAX), "18446744073709551615");
    assert_eq!(decimal(1002003), "1002003");
}

#[test]
fn the_caller_dialog_is_made_from_the_invite() {
    let d = dialog();
    assert_eq!(d.role, Role::Client);
    assert_eq!(d.id(), DialogId::new("a84b4c76e66710@pc33.example.com", "1928301774", ""));
    assert_eq!(d.get_local_seq(), 10);
    assert_eq!(d.remote_seq, 0);
    assert_eq!(d.from, "Alice <sip:alice@example.com>;tag=1928301774");
    assert_eq!(d.to, "Bob <sip:bob@example.com>");
    assert_eq!(d.remote_uri, "sip:bob@example.com");
    assert_eq!(d.state, DialogState::Calling(d.id()));
    assert!(!d.is_confirmed());
}

#[test]
fn a_request_is_built_from_the_dialog() {
    let mut d = dialog();
    d.local_contact = Some("<sip:alice@10.0.0.1:5060>".to_string());
    d.route_set = vec!["<sip:proxy-a.example.com;lr>".to_string(), "<sip:proxy-b.example.com;lr>".to_string()];
    let extra = vec![Header::new("Subject", "lunch"), Header::new("X-A", "1")];
    let req = d.make_request(
        Method::Options,
        None,
        None,
        Some("z9hG4bKnew"),
        Some(extra),
        Some(b"hello".to_vec()),
    );
    assert_eq!(req.method, Method::Options);
    assert_eq!(req.uri, "sip:bob@example.com");
    assert_eq!(req.body, b"hello".to_vec());
    assert_eq!(
        pairs(&req),
        vec![
            ("Via", "SIP/2.0/TCP 10.0.0.1:5060;branch=z9hG4bKnew"),
            ("Call-ID", "a84b4c76e66710@pc33.example.com"),
            ("From", "Alice <sip:alice@example.com>;tag=1928301774"),
            ("To", "Bob <sip:bob@example.com>"),
            ("CSeq", "11 OPTIONS"),
            ("Contact", "<sip:alice@10.0.0.1:5060>"),
            ("Route", "<sip:proxy-a.example.com;lr>"),
            ("Route", "<sip:proxy-b.example.com;lr>"),
            ("Max-Forwards", "70"),
            ("Subject", "lunch"),
            ("X-A", "1"),
            ("Content-Length", "5"),
        ]
    );
    assert_eq!(d.local_seq, 11);
    assert_eq!(req.cseq(), Ok(11));
    assert_eq!(DialogId::from_request(&req), Ok(d.id()));
}

#[test]
fn a_request_takes_the_given_contact_and_no_branch_when_none_is_given() {
    let mut d = dialog();
    d.local_contact = Some("<sip:own@h>".to_string());
    let req = d.make_request(Method::Info, Some(99), Some("<sip:given@h>"), None, None, None);
    assert_eq!(
        pairs(&req),
        vec![
            ("Via", "SIP/2.0/TCP 10.0.0.1:5060"),
            ("Call-ID", "a84b4c76e66710@pc33.example.com"),
            ("From", "Alice <sip:alice@example.com>;tag=1928301774"),
            ("To", "Bob <sip:bob@example.com>"),
            ("CSeq", "99 INFO"),
            ("Contact", "<sip:given@h>"),
            ("Max-Forwards", "70"),
            ("Content-Length", "0"),
        ]
    );
    assert_eq!(d.local_seq, 10);
}

#[test]
fn the_sequence_numbers_of_new_requests_increase() {
    let mut d = dialog();
    let mut last = d.get_local_seq();
    for method in [Method::Info, Method::Options, Method::Bye, Method::Invite, Method::Update] {
        let req = d.make_request(method, None, None, None, None, None);
        let seq = req.cseq().expect("a number");
        assert!(seq > last);
        assert_eq!(seq, last + 1);
        assert_eq!(d.get_local_seq(), seq);
        last = seq;
    }
    assert_eq!(last, 15);
}

#[test]
fn ack_and_cancel_take_the_count_as_it_stands() {
    let mut d = dialog();
    let ack = d.make_request(Method::Ack, None, None, None, None, None);
    assert_eq!(ack.cseq(), Ok(10));
    let cancel = d.make_request(Method::Cancel, None, None, None, None, None);
    assert_eq!(cancel.cseq(), Ok(10));
    assert_eq!(d.local_seq, 10);
    let given = d.make_request(Method::Ack, Some(3), None, None, None, None);
    assert_eq!(given.cseq(), Ok(3));
    assert_eq!(d.local_seq, 10);
}

#[test]
fn the_count_starts_again_after_its_last_number() {
    let mut d = dialog();
    d.local_seq = u32::MAX - 1;
    assert_eq!(d.increment_local_seq(), u32::MAX);
    assert_eq!(d.increment_local_seq(), 0);
    assert_eq!(d.increment_local_seq(), 1);
    assert_eq!(d.local_seq, 1);
}

#[test]
fn observing_a_sequence_number_keeps_the_maximum() {
    let mut d = dialog();
    assert!(d.observe_remote_seq(0));
    assert!(d.observe_remote_seq(5));
    assert!(!d.observe_remote_seq(4));
    assert_eq!(d.remote_seq, 5);
    assert!(d.observe_remote_seq(5));
    assert!(d.observe_remote_seq(u32::MAX));
    assert!(!d.observe_remote_seq(0));
    assert_eq!(d.remote_seq, u32::MAX);
}

#[test]
fn confirmed_is_entered_only_from_an_unfinished_invite() {
    let id = DialogId::new("c", "f", "t");
    let resp = dialog().make_response(&invite(), 180, None, None);
    let all = vec![
        DialogState::Calling(id.clone()),
        DialogState::Trying(id.clone()),
        DialogState::Early(id.clone(), resp.clone()),
        DialogState::WaitAck(id.clone(), resp),
        DialogState::Confirmed(id.clone()),
        DialogState::Info(id.clone(), invite()),
        DialogState::Options(id.clone(), invite()),
        DialogState::Terminated(id.clone(), Some(200)),
    ];
    for (i, from) in all.iter().enumerate() {
        assert_eq!(from.id(), &id);
        assert_eq!(from.duplicate(), *from);
        assert_eq!(from.is_confirmed(), (4..=6).contains(&i));
        assert_eq!(from.is_terminated(), i == 7);
        assert_eq!(from.may_confirm(), i < 4);
        for (j, to) in all.iter().enumerate() {
            let allowed = i != 7 && (j != 4 || i < 4);
            assert_eq!(from.allows(to), allowed, "{} -> {}", i, j);
            let mut d = dialog();
            d.state = from.clone();
            let result = d.transition(to.clone());
            if allowed {
                assert_eq!(result, Ok(()));
                assert_eq!(d.state, *to);
                assert_eq!(d.emitted, vec![to.clone()]);
            } else {
                assert_eq!(
                    result,
                    Err(Error::DialogError("illegal state transition".to_string(), d.id()))
                );
                assert_eq!(d.state, *from);
                assert!(d.emitted.is_empty());
            }
        }
    }
}

#[test]
fn emitted_states_are_taken_in_the_order_they_were_entered() {
    let mut d = dialog();
    let id = d.id();
    assert_eq!(d.transition(DialogState::Trying(id.clone())), Ok(()));
    assert_eq!(d.transition(DialogState::Confirmed(id.clone())), Ok(()));
    assert!(d.transition(DialogState::Confirmed(id.clone())).is_err());
    assert_eq!(d.transition(DialogState::Terminated(id.clone(), None)), Ok(()));
    assert_eq!(
        d.take_emitted(),
        vec![
            DialogState::Trying(id.clone()),
            DialogState::Confirmed(id.clone()),
            DialogState::Terminated(id, None),
        ]
    );
    assert!(d.take_emitted().is_empty());
}

#[test]
fn a_response_carries_the_tag_of_this_side() {
    let d = dialog();
    let mut req = invite();
    req.headers.retain(|h| h.name != "To");
    req.headers.push(Header::new("To", "Alice <sip:alice@example.com>"));
    let resp = d.make_response(&req, 200, None, None);
    assert_eq!(resp.header("To"), Some("Alice <sip:alice@example.com>;tag=1928301774"));
    req.headers.pop();
    req.headers.push(Header::new("To", "<<<"));
    assert_eq!(d.make_response(&req, 200, None, None).header("To"), Some("<<<"));
    req.headers.pop();
    let resp = d.make_response(&req, 404, None, Some(vec![1, 2, 3]));
    assert_eq!(resp.header("To"), None);
    assert_eq!(resp.status_text, "404 NotFound");
    assert_eq!(resp.header("Content-Length"), Some("3"));
    assert_eq!(resp.cseq(), Ok(10));
    let mut untagged = dialog();
    untagged.id.from_tag = String::new();
    assert_eq!(
        untagged.make_response(&invite(), 200, None, None).header("To"),
        Some("Bob <sip:bob@example.com>")
    );
    assert_eq!(d.make_response(&invite(), 299, None, None).status_text, "299 Other");
}

#[test]
fn headers_are_found_and_replaced_by_their_first_occurrence() {
    let mut hs = vec![Header::new("A", "1"), Header::new("B", "2"), Header::new("A", "3")];
    assert_eq!(find_header(&hs, "A"), Some(&Header::new("A", "1")));
    assert_eq!(find_header(&hs, "B"), Some(&Header::new("B", "2")));
    assert_eq!(find_header(&hs, "a"), None);
    assert_eq!(find_header(&hs, ""), None);
    set_first(&mut hs, "A", "9".to_string());
    assert_eq!(hs, vec![Header::new("A", "9"), Header::new("B", "2"), Header::new("A", "3")]);
    set_first(&mut hs, "C", "9".to_string());
    assert_eq!(hs, vec![Header::new("A", "9"), Header::new("B", "2"), Header::new("A", "3")]);
    assert!(hs[0].is_named("A"));
    assert!(!hs[0].is_named("B"));
    assert_eq!(hs[0].duplicate(), hs[0]);
}

#[test]
fn errors_have_a_text() {
    let id = DialogId::new("c", "f", "t");
    assert_eq!(Error::dialog("boom", id).message(), "dialog error: boom");
    assert_eq!(Error::parse("bad").message(), "parse error: bad");
    assert_eq!(Error::TransactionTerminated.message(), "transaction terminated");
    assert_eq!(Error::TransportError("reset".to_string()).message(), "transport error: reset");
    assert_eq!(Error::AuthError("no nonce".to_string()).message(), "auth error: no nonce");
}
