use sipcore::client::{ClientInviteDialog, InviteProgress, InviteStep};
use sipcore::dialog::{Action, Credential, DialogInner, Handled, Role};
use sipcore::dialog_id::DialogId;
use sipcore::error::Error;
use sipcore::message::{Header, Method, Request, Response, SipMessage};
use sipcore::state::DialogState;
use sipcore::wire::parse_message;

const INVITE: &str = "INVITE sip:bob@example.com SIP/2.0\r\n\
Via: SIP/2.0/TCP 10.0.0.1:5060;branch=z9hG4bK776asdhds\r\n\
Max-Forwards: 70\r\n\
To: Bob <sip:bob@example.com>\r\n\
From: Alice <sip:alice@example.com>;tag=1928301774\r\n\
Call-ID: a84b4c76e66710@pc33.example.com\r\n\
CSeq: 1 INVITE\r\n\
Contact: <sip:alice@10.0.0.1:5060>\r\n\
Content-Length: 0\r\n\
\r\n";

fn request_of(text: &str) -> Request {
    match parse_message(text) {
        Some(SipMessage::Request(r)) => r,
        other => panic!("not a request: {:?}", other),
    }
}

fn response_of(text: &str) -> Response {
    match parse_message(text) {
        Some(SipMessage::Response(r)) => r,
        other => panic!("not a response: {:?}", other),
    }
}

fn answer(status_line: &str, to: &str, extra: &str) -> Response {
    response_of(&format!(
        "SIP/2.0 {}\r\n\
Via: SIP/2.0/TCP 10.0.0.1:5060;branch=z9hG4bK776asdhds\r\n\
To: {}\r\n\
From: Alice <sip:alice@example.com>;tag=1928301774\r\n\
Call-ID: a84b4c76e66710@pc33.example.com\r\n\
CSeq: 1 INVITE\r\n\
{}Content-Length: 0\r\n\
\r\n",
        status_line, to, extra
    ))
}

fn mid_dialog(method: &str, cseq: u32) -> Request {
    request_of(&format!(
        "{} sip:alice@10.0.0.1:5060 SIP/2.0\r\n\
Via: SIP/2.0/TCP 10.0.0.9:5060;branch=z9hG4bKpeer{}\r\n\
To: Alice <sip:alice@example.com>;tag=1928301774\r\n\
From: Bob <sip:bob@example.com>;tag=abc\r\n\
Call-ID: a84b4c76e66710@pc33.example.com\r\n\
CSeq: {} {}\r\n\
Content-Length: 0\r\n\
\r\n",
        method, cseq, cseq, method
    ))
}

fn caller(credential: Option<Credential>) -> ClientInviteDialog {
    let invite = request_of(INVITE);
    let id = DialogId::from_request(&invite).expect("an identifier");
    let inner = DialogInner::new(
        Role::Client,
        id,
        invite,
        credential,
        "SIP/2.0/TCP 10.0.0.1:5060",
        Some("<sip:alice@10.0.0.1:5060>".to_string()),
    )
    .expect("a dialog");
    ClientInviteDialog { inner }
}

fn established() -> ClientInviteDialog {
    let mut dlg = caller(None);
    let original = request_of(INVITE);
    let mut progress = dlg.begin_invite().expect("calling");
    let ok = answer("200 OK", "Bob <sip:bob@example.com>;tag=abc", "");
    match dlg.on_invite_message(&mut progress, &original, SipMessage::Response(ok)) {
        InviteStep::Acknowledge { next, .. } => assert_eq!(dlg.ack_sent(next), Ok(())),
        other => panic!("not confirmed: {:?}", other),
    }
    dlg.inner.take_emitted();
    dlg
}

fn named<'a>(req: &'a Request, name: &str) -> Vec<&'a str> {
    req.headers.iter().filter(|h| h.name == name).map(|h| h.value.as_str()).collect()
}

#[test]
fn the_identifier_of_a_request_is_call_id_and_both_tags() {
    let invite = request_of(INVITE);
    assert_eq!(
        DialogId::from_request(&invite),
        Ok(DialogId::new("a84b4c76e66710@pc33.example.com", "1928301774", ""))
    );
    let bye = mid_dialog("BYE", 2);
    assert_eq!(
        DialogId::from_request(&bye),
        Ok(DialogId::new("a84b4c76e66710@pc33.example.com", "abc", "1928301774"))
    );
}

#[test]
fn the_identifier_needs_call_id_from_tag_and_to() {
    let mut req = request_of(INVITE);
    req.headers.retain(|h| h.name != "Call-ID");
    assert_eq!(
        DialogId::from_request(&req),
        Err(Error::ParseError("missing header: Call-ID".to_string()))
    );
    let mut req = request_of(INVITE);
    req.headers.retain(|h| h.name != "From");
    assert_eq!(
        DialogId::from_request(&req),
        Err(Error::ParseError("missing header: From".to_string()))
    );
    let mut req = request_of(INVITE);
    req.headers.retain(|h| h.name != "To");
    assert_eq!(
        DialogId::from_request(&req),
        Err(Error::ParseError("missing header: To".to_string()))
    );
    let mut req = request_of(INVITE);
    for h in req.headers.iter_mut() {
        if h.name == "From" {
            h.value = "Alice <sip:alice@example.com>".to_string();
        }
    }
    assert_eq!(
        DialogId::from_request(&req),
        Err(Error::ParseError("from tag not found".to_string()))
    );
    let mut req = request_of(INVITE);
    for h in req.headers.iter_mut() {
        if h.name == "From" {
            h.value = "<<<".to_string();
        }
    }
    assert_eq!(
        DialogId::from_request(&req),
        Err(Error::ParseError("invalid header: From".to_string()))
    );
    let mut req = request_of(INVITE);
    for h in req.headers.iter_mut() {
        if h.name == "To" {
            h.value = "<<<".to_string();
        }
    }
    assert_eq!(
        DialogId::from_request(&req),
        Err(Error::ParseError("invalid header: To".to_string()))
    );
}

#[test]
fn identifiers_are_equal_when_all_three_parts_are() {
    let a = DialogId::new("c", "f", "t");
    assert!(a.same(&a.duplicate()));
    assert_eq!(a, DialogId::new("c", "f", "t"));
    assert_ne!(a, DialogId::new("x", "f", "t"));
    assert_ne!(a, DialogId::new("c", "x", "t"));
    assert_ne!(a, DialogId::new("c", "f", "x"));
    assert!(!a.same(&DialogId::new("c", "f", "")));
}

#[test]
fn happy_path_call() {
    let mut dlg = caller(None);
    let original = request_of(INVITE);
    let id0 = dlg.id();
    let mut progress = dlg.begin_invite().expect("calling");
    assert_eq!(
        progress,
        InviteProgress { auth_sent: false, dialog_id: id0.clone(), final_response: None }
    );
    let trying = answer("100 Trying", "Bob <sip:bob@example.com>", "");
    assert_eq!(
        dlg.on_invite_message(&mut progress, &original, SipMessage::Response(trying)),
        InviteStep::Continue
    );
    let ringing = answer("180 Ringing", "Bob <sip:bob@example.com>;tag=abc", "");
    assert_eq!(
        dlg.on_invite_message(&mut progress, &original, SipMessage::Response(ringing.clone())),
        InviteStep::Continue
    );
    let ok = answer("200 OK", "Bob <sip:bob@example.com>;tag=abc", "");
    let step = dlg.on_invite_message(&mut progress, &original, SipMessage::Response(ok.clone()));
    let confirmed = DialogId::new("a84b4c76e66710@pc33.example.com", "1928301774", "abc");
    let (ack, next) = match step {
        InviteStep::Acknowledge { ack, next } => (ack, next),
        other => panic!("no ACK: {:?}", other),
    };
    assert_eq!(next, DialogState::Confirmed(confirmed.clone()));
    assert!(!dlg.inner.is_confirmed());
    assert_eq!(dlg.ack_sent(next), Ok(()));
    assert_eq!(ack.method, Method::Ack);
    assert_eq!(ack.uri, "sip:bob@example.com");
    assert_eq!(named(&ack, "Via"), vec!["SIP/2.0/TCP 10.0.0.1:5060;branch=z9hG4bK776asdhds"]);
    assert_eq!(named(&ack, "CSeq"), vec!["1 ACK"]);
    assert_eq!(named(&ack, "To"), vec!["Bob <sip:bob@example.com>;tag=abc"]);
    assert_eq!(dlg.id(), confirmed);
    assert_eq!(dlg.id().to_tag, "abc");
    assert_eq!(progress.dialog_id, confirmed);
    assert_eq!(progress.final_response, Some(ok));
    assert_eq!(
        dlg.inner.take_emitted(),
        vec![
            DialogState::Calling(id0.clone()),
            DialogState::Trying(id0.clone()),
            DialogState::Early(id0, ringing),
            DialogState::Confirmed(confirmed.clone()),
        ]
    );
    assert_eq!(dlg.inner.state, DialogState::Confirmed(confirmed));
    assert!(dlg.inner.is_confirmed());
    assert_eq!(dlg.inner.local_seq, 1);
}

#[test]
fn the_identifier_read_from_the_ack_is_that_of_the_dialog() {
    let mut dlg = caller(None);
    let original = request_of(INVITE);
    let mut progress = dlg.begin_invite().expect("calling");
    let ok = answer("200 OK", "Bob <sip:bob@example.com>;tag=xyz", "");
    match dlg.on_invite_message(&mut progress, &original, SipMessage::Response(ok)) {
        InviteStep::Acknowledge { ack, next } => {
            assert_eq!(DialogId::from_request(&ack), Ok(dlg.id()));
            assert_eq!(DialogId::from_request(&ack), Ok(progress.dialog_id.clone()));
            assert_eq!(next, DialogState::Confirmed(dlg.id()));
        }
        other => panic!("no ACK: {:?}", other),
    }
}

#[test]
fn any_2xx_confirms_the_dialog() {
    let mut dlg = caller(None);
    let original = request_of(INVITE);
    let mut progress = dlg.begin_invite().expect("calling");
    let accepted = answer("202 Accepted", "Bob <sip:bob@example.com>;tag=abc", "");
    match dlg.on_invite_message(&mut progress, &original, SipMessage::Response(accepted)) {
        InviteStep::Acknowledge { next, .. } => assert_eq!(dlg.ack_sent(next), Ok(())),
        other => panic!("no ACK: {:?}", other),
    }
    assert!(dlg.inner.is_confirmed());
}

#[test]
fn proxy_auth_retry() {
    let credential = Credential {
        username: "alice".to_string(),
        password: "secret".to_string(),
        realm: None,
    };
    let mut dlg = caller(Some(credential));
    let original = request_of(INVITE);
    let mut progress = dlg.begin_invite().expect("calling");
    let challenge = answer(
        "407 Proxy Authentication Required",
        "Bob <sip:bob@example.com>",
        "Proxy-Authenticate: Digest realm=\"r\", nonce=\"n1\", qop=\"auth\"\r\n",
    );
    let step =
        dlg.on_invite_message(&mut progress, &original, SipMessage::Response(challenge.clone()));
    assert_eq!(step, InviteStep::Authenticate { seq: 2, challenge: challenge.clone() });
    assert!(progress.auth_sent);
    assert_eq!(progress.final_response, None);
    assert_eq!(dlg.inner.local_seq, 2);
    assert_eq!(dlg.inner.state, DialogState::Calling(dlg.id()));

    let ok = answer("200 OK", "Bob <sip:bob@example.com>;tag=abc", "");
    match dlg.on_invite_message(&mut progress, &original, SipMessage::Response(ok)) {
        InviteStep::Acknowledge { next, .. } => assert_eq!(dlg.ack_sent(next), Ok(())),
        other => panic!("no ACK: {:?}", other),
    }
    assert_eq!(dlg.inner.state, DialogState::Confirmed(dlg.id()));
}

#[test]
fn a_second_challenge_ends_the_invite() {
    let credential = Credential {
        username: "alice".to_string(),
        password: "secret".to_string(),
        realm: Some("r".to_string()),
    };
    let mut dlg = caller(Some(credential));
    let original = request_of(INVITE);
    let mut progress = dlg.begin_invite().expect("calling");
    let challenge = answer("407 Proxy Authentication Required", "Bob <sip:bob@example.com>", "");
    dlg.on_invite_message(&mut progress, &original, SipMessage::Response(challenge.clone()));
    let step =
        dlg.on_invite_message(&mut progress, &original, SipMessage::Response(challenge.clone()));
    assert_eq!(step, InviteStep::Finish);
    assert_eq!(dlg.inner.state, DialogState::Terminated(dlg.id(), Some(407)));
    assert_eq!(progress.final_response, Some(challenge));
    assert_eq!(dlg.inner.local_seq, 2);
}

#[test]
fn a_challenge_without_a_credential_ends_the_invite() {
    let mut dlg = caller(None);
    let original = request_of(INVITE);
    let mut progress = dlg.begin_invite().expect("calling");
    let challenge = answer("401 Unauthorized", "Bob <sip:bob@example.com>", "");
    let step =
        dlg.on_invite_message(&mut progress, &original, SipMessage::Response(challenge.clone()));
    assert_eq!(step, InviteStep::Finish);
    assert_eq!(dlg.inner.state, DialogState::Terminated(dlg.id(), Some(401)));
    assert_eq!(progress.final_response, Some(challenge));
    assert!(progress.auth_sent);
    assert_eq!(dlg.inner.local_seq, 1);
}

#[test]
fn a_refusal_is_acknowledged_and_ends_the_dialog() {
    let mut dlg = caller(None);
    let original = request_of(INVITE);
    let mut progress = dlg.begin_invite().expect("calling");
    let busy = answer("486 Busy Here", "Bob <sip:bob@example.com>;tag=abc", "");
    let step = dlg.on_invite_message(&mut progress, &original, SipMessage::Response(busy));
    match step {
        InviteStep::Reject { ack, next, error } => {
            assert_eq!(ack.method, Method::Ack);
            assert_eq!(
                named(&ack, "Via"),
                vec!["SIP/2.0/TCP 10.0.0.1:5060;branch=z9hG4bK776asdhds"]
            );
            assert_eq!(error, Error::DialogError("486 BusyHere".to_string(), dlg.id()));
            assert_eq!(next, DialogState::Terminated(dlg.id(), Some(486)));
            assert!(!dlg.inner.state.is_terminated());
            assert_eq!(dlg.ack_sent(next), Ok(()));
        }
        other => panic!("not refused: {:?}", other),
    }
    assert_eq!(dlg.inner.state, DialogState::Terminated(dlg.id(), Some(486)));
}

#[test]
fn the_reason_header_follows_the_status_in_the_error() {
    let mut dlg = caller(None);
    let original = request_of(INVITE);
    let mut progress = dlg.begin_invite().expect("calling");
    let gone = answer(
        "480 Temporarily Unavailable",
        "Bob <sip:bob@example.com>;tag=abc",
        "Reason: Q.850;cause=18\r\n",
    );
    match dlg.on_invite_message(&mut progress, &original, SipMessage::Response(gone)) {
        InviteStep::Reject { error, .. } => assert_eq!(
            error,
            Error::DialogError("480 TemporarilyUnavailable;Q.850;cause=18".to_string(), dlg.id())
        ),
        other => panic!("not refused: {:?}", other),
    }
}

#[test]
fn a_final_response_needs_the_branch_of_the_invite() {
    let mut dlg = caller(None);
    let mut original = request_of(INVITE);
    for h in original.headers.iter_mut() {
        if h.name == "Via" {
            h.value = "SIP/2.0/TCP 10.0.0.1:5060".to_string();
        }
    }
    let mut progress = dlg.begin_invite().expect("calling");
    let ok = answer("200 OK", "Bob <sip:bob@example.com>;tag=abc", "");
    let step = dlg.on_invite_message(&mut progress, &original, SipMessage::Response(ok.clone()));
    assert_eq!(
        step,
        InviteStep::Fail(Error::DialogError(
            "no branch found in via header".to_string(),
            dlg.id()
        ))
    );
    assert_eq!(dlg.inner.state, DialogState::Calling(DialogId::new(
        "a84b4c76e66710@pc33.example.com",
        "1928301774",
        ""
    )));
    assert_eq!(dlg.id().to_tag, "abc");

    let mut dlg = caller(None);
    original.headers.retain(|h| h.name != "Via");
    let mut progress = dlg.begin_invite().expect("calling");
    assert_eq!(
        dlg.on_invite_message(&mut progress, &original, SipMessage::Response(ok)),
        InviteStep::Fail(Error::ParseError("missing header: Via".to_string()))
    );
}

#[test]
fn a_final_response_needs_a_readable_to() {
    let mut dlg = caller(None);
    let original = request_of(INVITE);
    let mut progress = dlg.begin_invite().expect("calling");
    let mut ok = answer("200 OK", "Bob <sip:bob@example.com>;tag=abc", "");
    ok.headers.retain(|h| h.name != "To");
    assert_eq!(
        dlg.on_invite_message(&mut progress, &original, SipMessage::Response(ok.clone())),
        InviteStep::Fail(Error::ParseError("missing header: To".to_string()))
    );
    assert_eq!(progress.final_response, Some(ok.clone()));
    ok.headers.push(Header::new("To", "<<<"));
    assert_eq!(
        dlg.on_invite_message(&mut progress, &original, SipMessage::Response(ok)),
        InviteStep::Fail(Error::ParseError("invalid header: To".to_string()))
    );
}

#[test]
fn a_request_on_the_invite_transaction_is_ignored() {
    let mut dlg = caller(None);
    let original = request_of(INVITE);
    let mut progress = dlg.begin_invite().expect("calling");
    let before = dlg.clone();
    let step =
        dlg.on_invite_message(&mut progress, &original, SipMessage::Request(mid_dialog("BYE", 2)));
    assert_eq!(step, InviteStep::Continue);
    assert_eq!(dlg, before);
}

#[test]
fn the_remote_tag_is_set_once() {
    let mut dlg = caller(None);
    assert_eq!(dlg.inner.update_remote_tag("abc"), Ok(()));
    assert_eq!(dlg.id().to_tag, "abc");
    assert_eq!(dlg.inner.to, "Bob <sip:bob@example.com>;tag=abc");
    assert_eq!(dlg.inner.update_remote_tag("abc"), Ok(()));
    let before = dlg.clone();
    assert_eq!(
        dlg.inner.update_remote_tag("other"),
        Err(Error::DialogError("remote tag mismatch".to_string(), dlg.id()))
    );
    assert_eq!(dlg, before);

    let mut dlg = caller(None);
    dlg.inner.to = "<<<".to_string();
    let before = dlg.clone();
    assert_eq!(
        dlg.inner.update_remote_tag("abc"),
        Err(Error::ParseError("invalid header: To".to_string()))
    );
    assert_eq!(dlg, before);
}

#[test]
fn a_stale_request_is_answered_with_500_by_the_caller() {
    let mut dlg = established();
    dlg.inner.remote_seq = 5;
    let before = dlg.clone();
    assert_eq!(
        dlg.handle(&mid_dialog("BYE", 3)),
        Handled { action: Action::Reply(500), error: None }
    );
    assert_eq!(dlg, before);
}

#[test]
fn the_highest_sequence_number_seen_is_the_maximum() {
    let mut dlg = established();
    let seen = [4u32, 2, 9, 9, 7, 12, 1];
    let mut max = 0;
    for s in seen {
        let stale = s < max;
        let handled = dlg.handle(&mid_dialog("INFO", s));
        if stale {
            assert_eq!(handled, Handled { action: Action::Reply(500), error: None });
        } else {
            assert_eq!(handled, Handled { action: Action::Reply(200), error: None });
            max = s;
        }
        assert_eq!(dlg.inner.remote_seq, max);
    }
    assert_eq!(dlg.inner.remote_seq, 12);
}

#[test]
fn the_caller_handles_bye_info_and_options() {
    let mut dlg = established();
    let info = mid_dialog("INFO", 2);
    assert_eq!(dlg.handle(&info), Handled { action: Action::Reply(200), error: None });
    assert_eq!(dlg.inner.state, DialogState::Info(dlg.id(), info.clone()));
    let options = mid_dialog("OPTIONS", 3);
    assert_eq!(dlg.handle(&options), Handled { action: Action::Reply(200), error: None });
    assert_eq!(dlg.inner.state, DialogState::Options(dlg.id(), options.clone()));
    assert!(dlg.inner.is_confirmed());
    assert_eq!(
        dlg.handle(&mid_dialog("INVITE", 4)),
        Handled { action: Action::Nothing, error: None }
    );
    assert_eq!(dlg.inner.remote_seq, 4);
    assert_eq!(dlg.handle(&mid_dialog("BYE", 5)), Handled { action: Action::Reply(200), error: None });
    assert_eq!(dlg.inner.state, DialogState::Terminated(dlg.id(), None));
    assert_eq!(
        dlg.inner.take_emitted(),
        vec![
            DialogState::Info(dlg.id(), info),
            DialogState::Options(dlg.id(), options),
            DialogState::Terminated(dlg.id(), None),
        ]
    );
}

#[test]
fn the_caller_answers_other_methods_with_405() {
    let mut dlg = established();
    for (i, method) in ["REGISTER", "MESSAGE", "ACK", "CANCEL", "UPDATE"].iter().enumerate() {
        assert_eq!(
            dlg.handle(&mid_dialog(method, 2 + i as u32)),
            Handled {
                action: Action::Reply(405),
                error: Some(Error::DialogError("invalid request".to_string(), dlg.id())),
            }
        );
    }
    assert_eq!(dlg.inner.state, DialogState::Confirmed(dlg.id()));
    assert_eq!(dlg.inner.remote_seq, 6);
}

#[test]
fn the_caller_passes_over_a_request_before_the_dialog_is_established() {
    let mut dlg = caller(None);
    assert_eq!(dlg.handle(&mid_dialog("BYE", 2)), Handled { action: Action::Nothing, error: None });
    assert_eq!(dlg.inner.remote_seq, 2);
    assert_eq!(dlg.inner.state, DialogState::Calling(dlg.id()));
}

#[test]
fn a_request_without_a_sequence_number_is_an_error() {
    let mut dlg = established();
    let before = dlg.clone();
    let mut req = mid_dialog("BYE", 2);
    req.headers.retain(|h| h.name != "CSeq");
    assert_eq!(
        dlg.handle(&req),
        Handled {
            action: Action::Nothing,
            error: Some(Error::ParseError("missing header: CSeq".to_string())),
        }
    );
    req.headers.push(Header::new("CSeq", "two BYE"));
    assert_eq!(
        dlg.handle(&req),
        Handled {
            action: Action::Nothing,
            error: Some(Error::ParseError("invalid header: CSeq".to_string())),
        }
    );
    assert_eq!(dlg, before);
    assert_eq!(req.cseq(), Err(Error::ParseError("invalid header: CSeq".to_string())));
}

#[test]
fn bye_is_built_only_on_an_established_dialog() {
    let mut dlg = caller(None);
    assert_eq!(dlg.bye(), None);
    assert_eq!(dlg.inner.local_seq, 1);
    let mut dlg = established();
    let bye = dlg.bye().expect("a BYE");
    assert_eq!(bye.method, Method::Bye);
    assert_eq!(named(&bye, "CSeq"), vec!["2 BYE"]);
    assert_eq!(dlg.inner.local_seq, 2);
    assert_eq!(dlg.bye_done(Some(200)), Ok(()));
    assert_eq!(dlg.inner.state, DialogState::Terminated(dlg.id(), Some(200)));
    assert_eq!(
        dlg.bye_done(None),
        Err(Error::DialogError("illegal state transition".to_string(), dlg.id()))
    );
    assert_eq!(dlg.inner.state, DialogState::Terminated(dlg.id(), Some(200)));
}

#[test]
fn info_is_built_only_on_an_established_dialog() {
    let mut dlg = caller(None);
    assert_eq!(dlg.info(), None);
    assert_eq!(dlg.reinvite(), Ok(()));
    let mut dlg = established();
    let info = dlg.info().expect("an INFO");
    assert_eq!(info.method, Method::Info);
    assert_eq!(named(&info, "CSeq"), vec!["2 INFO"]);
    assert_eq!(dlg.info_done(info.clone()), Ok(()));
    assert_eq!(dlg.inner.state, DialogState::Info(dlg.id(), info));
}

#[test]
fn cancel_is_the_invite_with_the_count_as_it_stands_and_no_body() {
    let mut dlg = caller(None);
    dlg.inner.initial_request.body = b"v=0".to_vec();
    for h in dlg.inner.initial_request.headers.iter_mut() {
        if h.name == "Content-Length" {
            h.value = "3".to_string();
        }
    }
    dlg.inner.local_seq = 7;
    let cancel = dlg.cancel().expect("a CANCEL");
    assert_eq!(cancel.method, Method::Cancel);
    assert_eq!(cancel.uri, "sip:bob@example.com");
    assert_eq!(cancel.body, Vec::<u8>::new());
    assert_eq!(named(&cancel, "CSeq"), vec!["7 INVITE"]);
    assert_eq!(named(&cancel, "Content-Length"), vec!["0"]);
    assert_eq!(named(&cancel, "Via"), named(&dlg.inner.initial_request, "Via"));
    assert_eq!(cancel.headers.len(), dlg.inner.initial_request.headers.len());

    dlg.inner.initial_request.headers.retain(|h| h.name != "CSeq");
    assert_eq!(dlg.cancel(), Err(Error::ParseError("missing header: CSeq".to_string())));
    dlg.inner.initial_request.headers.push(Header::new("CSeq", "x"));
    assert_eq!(dlg.cancel(), Err(Error::ParseError("invalid header: CSeq".to_string())));
}

#[test]
fn nothing_leaves_terminated_on_the_caller_side() {
    let mut dlg = established();
    assert_eq!(dlg.bye_done(None), Ok(()));
    let ended = dlg.inner.state.clone();
    let original = request_of(INVITE);
    assert!(dlg.begin_invite().is_err());
    let mut progress =
        InviteProgress { auth_sent: false, dialog_id: dlg.id(), final_response: None };
    for status in ["100 Trying", "180 Ringing", "200 OK", "486 Busy Here", "407 Proxy Authentication Required"] {
        let resp = answer(status, "Bob <sip:bob@example.com>;tag=abc", "");
        match dlg.on_invite_message(&mut progress, &original, SipMessage::Response(resp)) {
            InviteStep::Acknowledge { next, .. } | InviteStep::Reject { next, .. } => {
                assert_eq!(
                    dlg.ack_sent(next),
                    Err(Error::DialogError("illegal state transition".to_string(), dlg.id()))
                );
            }
            _ => {}
        }
        assert_eq!(dlg.inner.state, ended);
    }
    dlg.handle(&mid_dialog("BYE", 50));
    dlg.handle(&mid_dialog("INFO", 51));
    assert_eq!(dlg.bye(), None);
    assert_eq!(dlg.info(), None);
    assert!(dlg.info_done(mid_dialog("INFO", 52)).is_err());
    assert!(dlg.inner.transition(DialogState::Confirmed(dlg.id())).is_err());
    assert!(dlg.inner.transition(DialogState::Calling(dlg.id())).is_err());
    assert_eq!(dlg.inner.state, ended);
    assert_eq!(dlg.inner.take_emitted(), vec![ended]);
}

#[test]
fn the_dialog_answers_a_challenge_with_its_credential() {
    let original = request_of(INVITE);
    let challenge = answer(
        "401 Unauthorized",
        "Bob <sip:bob@example.com>",
        "WWW-Authenticate: Digest realm=\"r\", nonce=\"n1\"\r\n",
    );
    let dlg = caller(None);
    assert_eq!(
        dlg.authorize(&original, &challenge, 2, "c"),
        Err(Error::AuthError("no credential".to_string()))
    );
    let credential = Credential {
        username: "alice".to_string(),
        password: "secret".to_string(),
        realm: None,
    };
    let dlg = caller(Some(credential.clone()));
    let signed = dlg.authorize(&original, &challenge, 2, "c").expect("a request");
    assert_eq!(signed.cseq(), Ok(2));
    assert_eq!(
        Ok(signed),
        sipcore::auth::authorize(&original, &challenge, &credential, 2, "c")
    );
}
