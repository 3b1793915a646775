//! SIP messages as plain values: a start line, the headers in their order
//! as name and value, and the body.

use crate::error::{Error, ErrorView};
use crate::typed::{cseq_number_of, read_cseq_number};
use vstd::prelude::*;

verus! {

/// The method of a SIP request.
#[derive(Clone, Copy, Debug, PartialEq, Eq, Structural, Hash)]
pub enum Method {
    Ack,
    Bye,
    Cancel,
    Info,
    Invite,
    Message,
    Notify,
    Options,
    PRack,
    Publish,
    Refer,
    Register,
    Subscribe,
    Update,
}

/// The name of a method as the request line writes it.
pub open spec fn method_name(m: Method) -> Seq<char> {
    match m {
        Method::Ack => "ACK"@,
        Method::Bye => "BYE"@,
        Method::Cancel => "CANCEL"@,
        Method::Info => "INFO"@,
        Method::Invite => "INVITE"@,
        Method::Message => "MESSAGE"@,
        Method::Notify => "NOTIFY"@,
        Method::Options => "OPTIONS"@,
        Method::PRack => "PRACK"@,
        Method::Publish => "PUBLISH"@,
        Method::Refer => "REFER"@,
        Method::Register => "REGISTER"@,
        Method::Subscribe => "SUBSCRIBE"@,
        Method::Update => "UPDATE"@,
    }
}

impl Method {
    /// The name of the method as the request line writes it.
    pub fn name(self) -> (s: &'static str)
        ensures
            s@ == method_name(self),
    {
        match self {
            Method::Ack => "ACK",
            Method::Bye => "BYE",
            Method::Cancel => "CANCEL",
            Method::Info => "INFO",
            Method::Invite => "INVITE",
            Method::Message => "MESSAGE",
            Method::Notify => "NOTIFY",
            Method::Options => "OPTIONS",
            Method::PRack => "PRACK",
            Method::Publish => "PUBLISH",
            Method::Refer => "REFER",
            Method::Register => "REGISTER",
            Method::Subscribe => "SUBSCRIBE",
            Method::Update => "UPDATE",
        }
    }
}

/// One header line: its name as written on the wire and its value.
#[derive(Clone, Debug, PartialEq, Eq)]
pub struct Header {
    pub name: String,
    pub value: String,
}

/// What a [`Header`] is in contracts.
pub struct HeaderView {
    pub name: Seq<char>,
    pub value: Seq<char>,
}

impl View for Header {
    type V = HeaderView;

    open spec fn view(&self) -> HeaderView {
        HeaderView { name: self.name@, value: self.value@ }
    }
}

/// The views of a run of headers, in order.
pub open spec fn headers_view(hs: Seq<Header>) -> Seq<HeaderView> {
    hs.map_values(|h: Header| h@)
}

impl Header {
    pub fn new(name: &str, value: &str) -> (h: Header)
        ensures
            h@ == (HeaderView { name: name@, value: value@ }),
    {
        Header { name: name.to_owned(), value: value.to_owned() }
    }

    /// A copy with the same name and value.
    pub fn duplicate(&self) -> (h: Header)
        ensures
            h@ == self@,
    {
        Header { name: self.name.clone(), value: self.value.clone() }
    }

    /// Whether the header's name is exactly `name`.
    pub fn is_named(&self, name: &str) -> (b: bool)
        ensures
            b == (self.name@ == name@),
    {
        let wanted = name.to_owned();
        self.name == wanted
    }
}

/// A copy of a run of headers.
pub fn duplicate_headers(hs: &Vec<Header>) -> (out: Vec<Header>)
    ensures
        headers_view(out@) == headers_view(hs@),
{
    let mut out: Vec<Header> = Vec::new();
    let mut i: usize = 0;
    while i < hs.len()
        invariant
            i <= hs.len(),
            out.len() == i,
            forall|j: int| 0 <= j < i ==> out[j]@ == hs[j]@,
        decreases hs.len() - i,
    {
        out.push(hs[i].duplicate());
        i += 1;
    }
    assert(headers_view(out@) =~= headers_view(hs@));
    out
}


/// The value of the first header of `hs` at or after position `from`
/// whose name is `name`.
pub open spec fn header_value_from(hs: Seq<HeaderView>, name: Seq<char>, from: int) -> Option<
    Seq<char>,
>
    decreases hs.len() - from,
{
    if from < 0 || from >= hs.len() {
        None
    } else if hs[from].name == name {
        Some(hs[from].value)
    } else {
        header_value_from(hs, name, from + 1)
    }
}

/// The value of the first header of `hs` whose name is `name`.
pub open spec fn header_value(hs: Seq<HeaderView>, name: Seq<char>) -> Option<Seq<char>> {
    header_value_from(hs, name, 0)
}

/// The first header named `name`, if there is one.
pub fn find_header<'a>(hs: &'a Vec<Header>, name: &str) -> (r: Option<&'a Header>)
    ensures
        match r {
            Some(h) => h.name@ == name@ && header_value(headers_view(hs@), name@) == Some(
                h.value@,
            ),
            None => header_value(headers_view(hs@), name@).is_none(),
        },
{
    let mut i: usize = 0;
    while i < hs.len()
        invariant
            i <= hs.len(),
            header_value(headers_view(hs@), name@) == header_value_from(
                headers_view(hs@),
                name@,
                i as int,
            ),
        decreases hs.len() - i,
    {
        assert(headers_view(hs@)[i as int] == hs[i as int]@);
        if hs[i].is_named(name) {
            return Some(&hs[i]);
        }
        i += 1;
    }
    None
}

/// The position of the first header of `hs` at or after `from` whose name
/// is `name`; the length of `hs` where there is none.
pub open spec fn first_index_from(hs: Seq<HeaderView>, name: Seq<char>, from: int) -> int
    decreases hs.len() - from,
{
    if from < 0 || from >= hs.len() {
        hs.len() as int
    } else if hs[from].name == name {
        from
    } else {
        first_index_from(hs, name, from + 1)
    }
}

/// The headers `hs` with the value of the first one named `name` replaced
/// by `value`; `hs` itself where no header has that name.
pub open spec fn replace_first(hs: Seq<HeaderView>, name: Seq<char>, value: Seq<char>) -> Seq<
    HeaderView,
> {
    let i = first_index_from(hs, name, 0);
    if 0 <= i < hs.len() {
        hs.update(i, HeaderView { name, value })
    } else {
        hs
    }
}

/// Replaces the value of the first header named `name`, if there is one.
pub fn set_first(hs: &mut Vec<Header>, name: &str, value: String)
    ensures
        headers_view(final(hs)@) == replace_first(headers_view(old(hs)@), name@, value@),
{
    let mut i: usize = 0;
    while i < hs.len()
        invariant
            i <= hs.len(),
            hs@ == old(hs)@,
            first_index_from(headers_view(hs@), name@, 0) == first_index_from(
                headers_view(hs@),
                name@,
                i as int,
            ),
        decreases hs.len() - i,
    {
        assert(headers_view(hs@)[i as int] == hs[i as int]@);
        if hs[i].is_named(name) {
            let ghost before = headers_view(hs@);
            hs.set(i, Header { name: name.to_owned(), value });
            assert(headers_view(hs@) =~= before.update(
                i as int,
                HeaderView { name: name@, value: value@ },
            ));
            return ;
        }
        i += 1;
    }
}

/// The sequence number that a message with these headers carries: the
/// number in the value of its first `CSeq` header.
pub open spec fn cseq_of(hs: Seq<HeaderView>) -> Result<u32, ErrorView> {
    match header_value(hs, "CSeq"@) {
        None => Err(ErrorView::ParseError("missing header: CSeq"@)),
        Some(v) => match cseq_number_of(v) {
            None => Err(ErrorView::ParseError("invalid header: CSeq"@)),
            Some(n) => Ok(n),
        },
    }
}

/// Reads the sequence number of a message from its headers.
pub fn read_cseq(hs: &Vec<Header>) -> (r: Result<u32, Error>)
    ensures
        match r {
            Ok(n) => cseq_of(headers_view(hs@)) == Ok::<u32, ErrorView>(n),
            Err(e) => cseq_of(headers_view(hs@)) == Err::<u32, ErrorView>(e@),
        },
{
    match find_header(hs, "CSeq") {
        None => Err(Error::parse("missing header: CSeq")),
        Some(h) => match read_cseq_number(h.value.as_str()) {
            None => Err(Error::parse("invalid header: CSeq")),
            Some(n) => Ok(n),
        },
    }
}

/// A SIP request.
#[derive(Clone, Debug, PartialEq, Eq)]
pub struct Request {
    pub method: Method,
    pub uri: String,
    pub headers: Vec<Header>,
    pub body: Vec<u8>,
}

/// What a [`Request`] is in contracts.
pub struct RequestView {
    pub method: Method,
    pub uri: Seq<char>,
    pub headers: Seq<HeaderView>,
    pub body: Seq<u8>,
}

impl View for Request {
    type V = RequestView;

    open spec fn view(&self) -> RequestView {
        RequestView {
            method: self.method,
            uri: self.uri@,
            headers: headers_view(self.headers@),
            body: self.body@,
        }
    }
}

impl Request {
    /// The sequence number of the request.
    pub fn cseq(&self) -> (r: Result<u32, Error>)
        ensures
            match r {
                Ok(n) => cseq_of(self@.headers) == Ok::<u32, ErrorView>(n),
                Err(e) => cseq_of(self@.headers) == Err::<u32, ErrorView>(e@),
            },
    {
        read_cseq(&self.headers)
    }

    /// A copy with the same start line, headers and body.
    pub fn duplicate(&self) -> (r: Request)
        ensures
            r@ == self@,
    {
        Request {
            method: self.method,
            uri: self.uri.clone(),
            headers: duplicate_headers(&self.headers),
            body: self.body.clone(),
        }
    }

    /// The value of the first header named `name`.
    pub fn header(&self, name: &str) -> (r: Option<&str>)
        ensures
            match r {
                Some(v) => header_value(self@.headers, name@) == Some(v@),
                None => header_value(self@.headers, name@).is_none(),
            },
    {
        match find_header(&self.headers, name) {
            Some(h) => Some(h.value.as_str()),
            None => None,
        }
    }
}

/// A SIP response. `status_text` is the status as the status line prints
/// it: the code, a space and the reason.
#[derive(Clone, Debug, PartialEq, Eq)]
pub struct Response {
    pub status: u16,
    pub status_text: String,
    pub headers: Vec<Header>,
    pub body: Vec<u8>,
}

/// What a [`Response`] is in contracts.
pub struct ResponseView {
    pub status: u16,
    pub status_text: Seq<char>,
    pub headers: Seq<HeaderView>,
    pub body: Seq<u8>,
}

impl View for Response {
    type V = ResponseView;

    open spec fn view(&self) -> ResponseView {
        ResponseView {
            status: self.status,
            status_text: self.status_text@,
            headers: headers_view(self.headers@),
            body: self.body@,
        }
    }
}

impl Response {
    /// The sequence number of the response.
    pub fn cseq(&self) -> (r: Result<u32, Error>)
        ensures
            match r {
                Ok(n) => cseq_of(self@.headers) == Ok::<u32, ErrorView>(n),
                Err(e) => cseq_of(self@.headers) == Err::<u32, ErrorView>(e@),
            },
    {
        read_cseq(&self.headers)
    }

    /// A copy with the same status line, headers and body.
    pub fn duplicate(&self) -> (r: Response)
        ensures
            r@ == self@,
    {
        Response {
            status: self.status,
            status_text: self.status_text.clone(),
            headers: duplicate_headers(&self.headers),
            body: self.body.clone(),
        }
    }

    /// The value of the first header named `name`.
    pub fn header(&self, name: &str) -> (r: Option<&str>)
        ensures
            match r {
                Some(v) => header_value(self@.headers, name@) == Some(v@),
                None => header_value(self@.headers, name@).is_none(),
            },
    {
        match find_header(&self.headers, name) {
            Some(h) => Some(h.value.as_str()),
            None => None,
        }
    }
}

/// Either kind of SIP message.
#[derive(Clone, Debug, PartialEq, Eq)]
pub enum SipMessage {
    Request(Request),
    Response(Response),
}

/// What a [`SipMessage`] is in contracts.
pub enum SipMessageView {
    Request(RequestView),
    Response(ResponseView),
}

impl View for SipMessage {
    type V = SipMessageView;

    open spec fn view(&self) -> SipMessageView {
        match self {
            SipMessage::Request(r) => SipMessageView::Request(r@),
            SipMessage::Response(r) => SipMessageView::Response(r@),
        }
    }
}

} // verus!
