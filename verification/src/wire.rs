//! Messages on the wire: reading a message from its text and writing one
//! as bytes.
//!
//! The text of a message is read by the `rsip` crate, which hands back the
//! start line and the header lines; the library takes the lines apart.
//! Writing is the library's own: the start line, one line for each header,
//! an empty line and the body.

use crate::message::{
    Header, HeaderView, Method, Request, RequestView, Response, ResponseView, SipMessage,
    SipMessageView,
};
use vstd::prelude::*;
use vstd::string::StringSliceAdditionalSpecFns;
use vstd::utf8::{decode_utf8, encode_utf8, valid_utf8};

verus! {

/// A message as `rsip` has read it: the parts of the start line as text,
/// each header as the line that `rsip` prints for it, and the body.
#[derive(Clone, Debug, PartialEq, Eq)]
pub enum RawMessage {
    Request { method: String, uri: String, headers: Vec<String>, body: Vec<u8> },
    Response { status: u16, status_text: String, headers: Vec<String>, body: Vec<u8> },
}

/// What a [`RawMessage`] is in contracts.
pub enum RawMessageView {
    Request { method: Seq<char>, uri: Seq<char>, headers: Seq<Seq<char>>, body: Seq<u8> },
    Response { status: u16, status_text: Seq<char>, headers: Seq<Seq<char>>, body: Seq<u8> },
}

/// The views of a run of lines, in order.
pub open spec fn lines_view(lines: Seq<String>) -> Seq<Seq<char>> {
    lines.map_values(|l: String| l@)
}

impl View for RawMessage {
    type V = RawMessageView;

    open spec fn view(&self) -> RawMessageView {
        match self {
            RawMessage::Request { method, uri, headers, body } => RawMessageView::Request {
                method: method@,
                uri: uri@,
                headers: lines_view(headers@),
                body: body@,
            },
            RawMessage::Response { status, status_text, headers, body } => RawMessageView::Response {
                status: *status,
                status_text: status_text@,
                headers: lines_view(headers@),
                body: body@,
            },
        }
    }
}

/// What `rsip` reads from the text of a message, or `None` where the text
/// is no SIP message to it.
pub uninterp spec fn sip_tokens(text: Seq<char>) -> Option<RawMessageView>;

/// Calls `rsip::SipMessage::try_from` on the text and copies out of the
/// result the method and the URI, or the status code, each as `rsip`
/// prints it, the headers as the lines that `rsip` prints for them, and
/// the body. `None` stands for the error that `rsip` returned.
#[verifier::external_body]
pub(crate) fn tokenize(text: &str) -> (r: Option<RawMessage>)
    ensures
        match r {
            Some(raw) => sip_tokens(text@) == Some(raw@),
            None => sip_tokens(text@).is_none(),
        },
{
    match rsip::SipMessage::try_from(text) {
        Ok(rsip::SipMessage::Request(m)) => Some(RawMessage::Request {
            method: m.method.to_string(),
            uri: m.uri.to_string(),
            headers: m.headers.iter().map(|h| h.to_string()).collect(),
            body: m.body,
        }),
        Ok(rsip::SipMessage::Response(m)) => Some(RawMessage::Response {
            status: m.status_code.code(),
            status_text: m.status_code.to_string(),
            headers: m.headers.iter().map(|h| h.to_string()).collect(),
            body: m.body,
        }),
        Err(_) => None,
    }
}

/// Calls `std::str::from_utf8`: the text whose bytes are the given ones,
/// `None` where they are not valid UTF-8.
#[verifier::external_body]
pub(crate) fn text_of_bytes(bytes: &[u8]) -> (r: Option<&str>)
    ensures
        match r {
            Some(s) => valid_utf8(bytes@) && s.spec_bytes() == bytes@,
            None => !valid_utf8(bytes@),
        },
{
    std::str::from_utf8(bytes).ok()
}

/// The method with the given name, in upper case as the request line
/// writes it.
pub open spec fn method_named(name: Seq<char>) -> Option<Method> {
    if name == "ACK"@ {
        Some(Method::Ack)
    } else if name == "BYE"@ {
        Some(Method::Bye)
    } else if name == "CANCEL"@ {
        Some(Method::Cancel)
    } else if name == "INFO"@ {
        Some(Method::Info)
    } else if name == "INVITE"@ {
        Some(Method::Invite)
    } else if name == "MESSAGE"@ {
        Some(Method::Message)
    } else if name == "NOTIFY"@ {
        Some(Method::Notify)
    } else if name == "OPTIONS"@ {
        Some(Method::Options)
    } else if name == "PRACK"@ {
        Some(Method::PRack)
    } else if name == "PUBLISH"@ {
        Some(Method::Publish)
    } else if name == "REFER"@ {
        Some(Method::Refer)
    } else if name == "REGISTER"@ {
        Some(Method::Register)
    } else if name == "SUBSCRIBE"@ {
        Some(Method::Subscribe)
    } else if name == "UPDATE"@ {
        Some(Method::Update)
    } else {
        None
    }
}

fn text_is(a: &str, b: &str) -> (r: bool)
    ensures
        r == (a@ == b@),
{
    a.to_owned() == b.to_owned()
}

/// The method with the given name.
pub fn method_from_name(name: &str) -> (r: Option<Method>)
    ensures
        r == method_named(name@),
{
    if text_is(name, "ACK") {
        Some(Method::Ack)
    } else if text_is(name, "BYE") {
        Some(Method::Bye)
    } else if text_is(name, "CANCEL") {
        Some(Method::Cancel)
    } else if text_is(name, "INFO") {
        Some(Method::Info)
    } else if text_is(name, "INVITE") {
        Some(Method::Invite)
    } else if text_is(name, "MESSAGE") {
        Some(Method::Message)
    } else if text_is(name, "NOTIFY") {
        Some(Method::Notify)
    } else if text_is(name, "OPTIONS") {
        Some(Method::Options)
    } else if text_is(name, "PRACK") {
        Some(Method::PRack)
    } else if text_is(name, "PUBLISH") {
        Some(Method::Publish)
    } else if text_is(name, "REFER") {
        Some(Method::Refer)
    } else if text_is(name, "REGISTER") {
        Some(Method::Register)
    } else if text_is(name, "SUBSCRIBE") {
        Some(Method::Subscribe)
    } else if text_is(name, "UPDATE") {
        Some(Method::Update)
    } else {
        None
    }
}

/// The position of the first colon of `line` at or after `from`; the
/// length of `line` where there is none.
pub open spec fn colon_from(line: Seq<char>, from: int) -> int
    decreases line.len() - from,
{
    if from < 0 || from >= line.len() {
        line.len() as int
    } else if line[from] == ':' {
        from
    } else {
        colon_from(line, from + 1)
    }
}

/// The header that a header line stands for: the name is what precedes
/// the first colon, the value what follows it, less one leading space.
/// A line without a colon is a name without a value.
pub open spec fn header_of_line(line: Seq<char>) -> HeaderView {
    let colon = colon_from(line, 0);
    let start = if colon + 1 < line.len() && line[colon + 1] == ' ' {
        colon + 2
    } else if colon < line.len() {
        colon + 1
    } else {
        colon
    };
    HeaderView { name: line.subrange(0, colon), value: line.subrange(start, line.len() as int) }
}

/// Takes a header line apart.
pub fn split_header_line(line: &str) -> (h: Header)
    ensures
        h@ == header_of_line(line@),
{
    let n = line.unicode_len();
    let mut i: usize = 0;
    let mut found = false;
    while i < n && !found
        invariant
            i <= n,
            n == line@.len(),
            colon_from(line@, 0) == colon_from(line@, i as int),
            found ==> i < n && line@[i as int] == ':',
        decreases n - i + (if found { 0int } else { 1int }),
    {
        if line.get_char(i) == ':' {
            found = true;
        } else {
            i += 1;
        }
    }
    let start = if i < n && i + 1 < n && line.get_char(i + 1) == ' ' {
        i + 2
    } else if i < n {
        i + 1
    } else {
        i
    };
    Header {
        name: line.substring_char(0, i).to_owned(),
        value: line.substring_char(start, n).to_owned(),
    }
}

/// The headers that a run of header lines stands for.
pub open spec fn headers_of_lines(lines: Seq<Seq<char>>) -> Seq<HeaderView> {
    lines.map_values(|l: Seq<char>| header_of_line(l))
}

/// Takes a run of header lines apart.
pub fn split_header_lines(lines: &Vec<String>) -> (hs: Vec<Header>)
    ensures
        crate::message::headers_view(hs@) == headers_of_lines(lines_view(lines@)),
{
    let mut hs: Vec<Header> = Vec::new();
    let mut i: usize = 0;
    while i < lines.len()
        invariant
            i <= lines.len(),
            hs.len() == i,
            forall|j: int| 0 <= j < i ==> hs[j]@ == header_of_line(#[trigger] lines[j]@),
        decreases lines.len() - i,
    {
        hs.push(split_header_line(lines[i].as_str()));
        i += 1;
    }
    assert(crate::message::headers_view(hs@) =~= headers_of_lines(lines_view(lines@)));
    hs
}

/// The message that the parts read from its text stand for; `None` where
/// the method is none that the library knows.
pub open spec fn interpreted(raw: RawMessageView) -> Option<SipMessageView> {
    match raw {
        RawMessageView::Request { method, uri, headers, body } => match method_named(method) {
            Some(m) => Some(
                SipMessageView::Request(
                    RequestView { method: m, uri, headers: headers_of_lines(headers), body },
                ),
            ),
            None => None,
        },
        RawMessageView::Response { status, status_text, headers, body } => Some(
            SipMessageView::Response(
                ResponseView { status, status_text, headers: headers_of_lines(headers), body },
            ),
        ),
    }
}

/// Makes a message of the parts read from its text.
pub fn interpret(raw: RawMessage) -> (r: Option<SipMessage>)
    ensures
        match r {
            Some(m) => interpreted(raw@) == Some(m@),
            None => interpreted(raw@).is_none(),
        },
{
    match raw {
        RawMessage::Request { method, uri, headers, body } => match method_from_name(
            method.as_str(),
        ) {
            Some(m) => Some(
                SipMessage::Request(
                    Request { method: m, uri, headers: split_header_lines(&headers), body },
                ),
            ),
            None => None,
        },
        RawMessage::Response { status, status_text, headers, body } => Some(
            SipMessage::Response(
                Response { status, status_text, headers: split_header_lines(&headers), body },
            ),
        ),
    }
}

/// The message that a text is, or `None` where it is none.
pub open spec fn message_of_text(text: Seq<char>) -> Option<SipMessageView> {
    match sip_tokens(text) {
        Some(raw) => interpreted(raw),
        None => None,
    }
}

/// The message that a run of bytes is: they must be UTF-8, and the text
/// must be a message.
pub open spec fn message_of_bytes(bytes: Seq<u8>) -> Option<SipMessageView> {
    if valid_utf8(bytes) {
        message_of_text(decode_utf8(bytes))
    } else {
        None
    }
}

/// Reads a message from its text.
pub fn parse_message(text: &str) -> (r: Option<SipMessage>)
    ensures
        match r {
            Some(m) => message_of_text(text@) == Some(m@),
            None => message_of_text(text@).is_none(),
        },
{
    match tokenize(text) {
        Some(raw) => interpret(raw),
        None => None,
    }
}

/// Reads a message from its bytes.
pub fn decode_message(bytes: &[u8]) -> (r: Option<SipMessage>)
    ensures
        match r {
            Some(m) => message_of_bytes(bytes@) == Some(m@),
            None => message_of_bytes(bytes@).is_none(),
        },
{
    match text_of_bytes(bytes) {
        Some(text) => {
            proof {
                vstd::utf8::encode_utf8_decode_utf8(text@);
            }
            parse_message(text)
        },
        None => None,
    }
}

/// The bytes of a text.
pub open spec fn bytes_of(text: Seq<char>) -> Seq<u8> {
    encode_utf8(text)
}

/// The bytes of one header line, with the line's end.
pub open spec fn header_line(h: HeaderView) -> Seq<u8> {
    bytes_of(h.name) + bytes_of(": "@) + bytes_of(h.value) + bytes_of("\r\n"@)
}

/// The bytes of the lines of the first `n` headers.
pub open spec fn header_block(hs: Seq<HeaderView>, n: int) -> Seq<u8>
    decreases n,
{
    if n <= 0 || n > hs.len() {
        Seq::empty()
    } else {
        header_block(hs, n - 1) + header_line(hs[n - 1])
    }
}

/// The bytes of a request on the wire.
pub open spec fn request_bytes(r: RequestView) -> Seq<u8> {
    bytes_of(crate::message::method_name(r.method)) + bytes_of(" "@) + bytes_of(r.uri) + bytes_of(
        " SIP/2.0\r\n"@,
    ) + header_block(r.headers, r.headers.len() as int) + bytes_of("\r\n"@) + r.body
}

/// The bytes of a response on the wire.
pub open spec fn response_bytes(r: ResponseView) -> Seq<u8> {
    bytes_of("SIP/2.0 "@) + bytes_of(r.status_text) + bytes_of("\r\n"@) + header_block(
        r.headers,
        r.headers.len() as int,
    ) + bytes_of("\r\n"@) + r.body
}

/// The bytes of a message on the wire.
pub open spec fn message_bytes(m: SipMessageView) -> Seq<u8> {
    match m {
        SipMessageView::Request(r) => request_bytes(r),
        SipMessageView::Response(r) => response_bytes(r),
    }
}

fn put(out: &mut Vec<u8>, text: &str)
    ensures
        final(out)@ == old(out)@ + bytes_of(text@),
{
    out.extend_from_slice(text.as_bytes());
}

fn put_headers(out: &mut Vec<u8>, hs: &Vec<Header>)
    ensures
        final(out)@ == old(out)@ + header_block(
            crate::message::headers_view(hs@),
            hs.len() as int,
        ),
{
    let ghost all = crate::message::headers_view(hs@);
    let mut i: usize = 0;
    assert(out@ =~= old(out)@ + header_block(all, 0));
    while i < hs.len()
        invariant
            i <= hs.len(),
            all == crate::message::headers_view(hs@),
            out@ == old(out)@ + header_block(all, i as int),
        decreases hs.len() - i,
    {
        let ghost before = out@;
        assert(all[i as int] == hs[i as int]@);
        put(out, hs[i].name.as_str());
        put(out, ": ");
        put(out, hs[i].value.as_str());
        put(out, "\r\n");
        assert(out@ =~= before + header_line(all[i as int]));
        i += 1;
        assert(out@ =~= old(out)@ + header_block(all, i as int));
    }
}

/// Writes a message as the bytes that go on the wire.
pub fn encode_message(msg: &SipMessage) -> (out: Vec<u8>)
    ensures
        out@ == message_bytes(msg@),
{
    let mut out: Vec<u8> = Vec::new();
    match msg {
        SipMessage::Request(r) => {
            put(&mut out, r.method.name());
            put(&mut out, " ");
            put(&mut out, r.uri.as_str());
            put(&mut out, " SIP/2.0\r\n");
            put_headers(&mut out, &r.headers);
            put(&mut out, "\r\n");
            out.extend_from_slice(r.body.as_slice());
            assert(out@ =~= request_bytes(r@));
        },
        SipMessage::Response(r) => {
            put(&mut out, "SIP/2.0 ");
            put(&mut out, r.status_text.as_str());
            put(&mut out, "\r\n");
            put_headers(&mut out, &r.headers);
            put(&mut out, "\r\n");
            out.extend_from_slice(r.body.as_slice());
            assert(out@ =~= response_bytes(r@));
        },
    }
    out
}

} // verus!
