use sipcore::auth::authorize;
use sipcore::dialog::Credential;
use sipcore::error::Error;
use sipcore::message::{Header, Request, Response, SipMessage};
use sipcore::wire::parse_message;

const INVITE: &str = "INVITE sip:bob@example.com SIP/2.0\r\n\
Via: SIP/2.0/TCP 10.0.0.1:5060;branch=z9hG4bK776asdhds\r\n\
To: Bob <sip:bob@example.com>\r\n\
From: Alice <sip:alice@example.com>;tag=1928301774\r\n\
Call-ID: a84b4c76e66710@pc33.example.com\r\n\
CSeq: 1 INVITE\r\n\
Proxy-Authorization: Digest stale\r\n\
Content-Length: 3\r\n\
\r\n\
v=0";

fn invite() -> Request {
    match parse_message(INVITE) {
        Some(SipMessage::Request(r)) => r,
        other => panic!("not a request: {:?}", other),
    }
}

fn challenge(status_line: &str, header: &str) -> Response {
    let text = format!(
        "SIP/2.0 {}\r\n\
To: Bob <sip:bob@example.com>\r\n\
From: Alice <sip:alice@example.com>;tag=1928301774\r\n\
Call-ID: a84b4c76e66710@pc33.example.com\r\n\
CSeq: 1 INVITE\r\n\
{}Content-Length: 0\r\n\
\r\n",
        status_line, header
    );
    match parse_message(&text) {
        Some(SipMessage::Response(r)) => r,
        other => panic!("not a response: {:?}", other),
    }
}

fn alice(realm: Option<&str>) -> Credential {
    Credential {
        username: "alice".to_string(),
        password: "secret".to_string(),
        realm: realm.map(|r| r.to_string()),
    }
}

fn pairs(req: &Request) -> Vec<(&str, &str)> {
    req.headers.iter().map(|h| (h.name.as_str(), h.value.as_str())).collect()
}

#[test]
fn a_proxy_challenge_with_qop_is_answered() {
    let resp = challenge(
        "407 Proxy Authentication Required",
        "Proxy-Authenticate: Digest realm=\"r\", nonce=\"n1\", qop=\"auth\"\r\n",
    );
    let req = authorize(&invite(), &resp, &alice(None), 2, "c0ffee").expect("a request");
    assert_eq!(req.method, invite().method);
    assert_eq!(req.uri, "sip:bob@example.com");
    assert_eq!(req.body, b"v=0".to_vec());
    assert_eq!(
        pairs(&req),
        vec![
            ("Via", "SIP/2.0/TCP 10.0.0.1:5060;branch=z9hG4bK776asdhds"),
            ("To", "Bob <sip:bob@example.com>"),
            ("From", "Alice <sip:alice@example.com>;tag=1928301774"),
            ("Call-ID", "a84b4c76e66710@pc33.example.com"),
            ("CSeq", "2 INVITE"),
            ("Content-Length", "3"),
            (
                "Proxy-Authorization",
                "Digest username=\"alice\", realm=\"r\", nonce=\"n1\", uri=\"sip:bob@example.com\", \
response=\"65221502eb012a28e3efb29ff460ebd9\", algorithm=MD5, \
qop=\"auth\", nc=00000001, cnonce=\"c0ffee\""
            ),
        ]
    );
    assert_eq!(req.cseq(), Ok(2));
}

#[test]
fn the_answer_is_what_rsip_computes_and_reads() {
    let resp = challenge(
        "407 Proxy Authentication Required",
        "Proxy-Authenticate: Digest realm=\"r\", nonce=\"n1\", qop=\"auth\"\r\n",
    );
    let req = authorize(&invite(), &resp, &alice(None), 2, "c0ffee").expect("a request");
    let value = req.header("Proxy-Authorization").expect("an answer");
    let typed = rsip::typed::Authorization::try_from(rsip::headers::Authorization::from(value))
        .expect("a readable answer");
    let method = rsip::Method::Invite;
    let generator = rsip::services::DigestGenerator::from(&typed, "secret", &method);
    assert!(generator.verify(&typed.response));
    assert_eq!(typed.username, "alice");
}

#[test]
fn a_www_challenge_without_qop_is_answered_with_authorization() {
    let resp = challenge(
        "401 Unauthorized",
        "WWW-Authenticate: Digest realm=\"r\", nonce=\"n1\", opaque=\"op\", algorithm=MD5-sess\r\n",
    );
    let req = authorize(&invite(), &resp, &alice(Some("r")), 7, "unused").expect("a request");
    assert_eq!(
        req.headers.last(),
        Some(&Header::new(
            "Authorization",
            "Digest username=\"alice\", realm=\"r\", nonce=\"n1\", uri=\"sip:bob@example.com\", \
response=\"3f312a00a3e1b5c6405001be65072fae\", algorithm=MD5-sess, opaque=\"op\""
        ))
    );
    assert_eq!(req.header("CSeq"), Some("7 INVITE"));
    assert_eq!(req.header("Proxy-Authorization"), None);
}

#[test]
fn a_challenge_for_integrity_is_answered() {
    let resp = challenge(
        "401 Unauthorized",
        "WWW-Authenticate: Digest realm=\"r\", nonce=\"n1\", qop=\"auth-int\"\r\n",
    );
    let req = authorize(&invite(), &resp, &alice(None), 2, "c0ffee").expect("a request");
    assert_eq!(
        req.header("Authorization"),
        Some(
            "Digest username=\"alice\", realm=\"r\", nonce=\"n1\", uri=\"sip:bob@example.com\", \
response=\"6898b53ddfa78c8e686b70385d0388ef\", algorithm=MD5, \
qop=\"auth-int\", nc=00000001, cnonce=\"c0ffee\""
        )
    );
}

#[test]
fn the_www_challenge_comes_before_the_proxy_challenge() {
    let resp = challenge(
        "401 Unauthorized",
        "Proxy-Authenticate: Digest realm=\"p\", nonce=\"n2\"\r\n\
WWW-Authenticate: Digest realm=\"r\", nonce=\"n1\"\r\n",
    );
    let req = authorize(&invite(), &resp, &alice(None), 2, "c").expect("a request");
    assert!(req.header("Authorization").expect("an answer").contains("realm=\"r\""));
    assert_eq!(req.header("Proxy-Authorization"), None);
}

#[test]
fn a_challenge_that_cannot_be_answered_is_an_auth_error() {
    let auth_error = |m: &str| Err(Error::AuthError(m.to_string()));
    let none = challenge("407 Proxy Authentication Required", "");
    assert_eq!(
        authorize(&invite(), &none, &alice(None), 2, "c"),
        auth_error("missing proxy/www authenticate")
    );
    let no_nonce = challenge("401 Unauthorized", "WWW-Authenticate: Digest realm=\"r\"\r\n");
    assert_eq!(authorize(&invite(), &no_nonce, &alice(None), 2, "c"), auth_error("invalid challenge"));
    let bad_qop = challenge(
        "401 Unauthorized",
        "WWW-Authenticate: Digest realm=\"r\", nonce=\"n\", qop=\"other\"\r\n",
    );
    assert_eq!(authorize(&invite(), &bad_qop, &alice(None), 2, "c"), auth_error("invalid challenge"));
    let sha = challenge(
        "401 Unauthorized",
        "WWW-Authenticate: Digest realm=\"r\", nonce=\"n\", algorithm=SHA256\r\n",
    );
    assert_eq!(authorize(&invite(), &sha, &alice(None), 2, "c"), auth_error("unsupported algorithm"));
    let good = challenge("401 Unauthorized", "WWW-Authenticate: Digest realm=\"r\", nonce=\"n\"\r\n");
    assert_eq!(
        authorize(&invite(), &good, &alice(Some("elsewhere")), 2, "c"),
        auth_error("no credential for the realm")
    );
    let mut odd = invite();
    odd.uri = "sip:bob@example.com:notaport".to_string();
    assert_eq!(
        authorize(&odd, &good, &alice(None), 2, "c"),
        auth_error("cannot compute the digest")
    );
    let mut bare = invite();
    bare.headers.retain(|h| h.name != "CSeq");
    assert_eq!(
        authorize(&bare, &good, &alice(None), 2, "c"),
        Err(Error::ParseError("missing header: CSeq".to_string()))
    );
    bare.headers.push(Header::new("CSeq", "x"));
    assert_eq!(
        authorize(&bare, &good, &alice(None), 2, "c"),
        Err(Error::ParseError("invalid header: CSeq".to_string()))
    );
}
