//! What the two kinds of dialog share: the identifier, the sequence
//! counters, the state and the requests and responses that a dialog builds.

use crate::dialog_id::{DialogId, DialogIdView};
use crate::error::{Error, ErrorView};
use crate::message::{
    cseq_of, header_value, headers_view, method_name, Header, HeaderView,
    Method, Request, RequestView, Response, ResponseView, SipMessage, SipMessageView,
};
use crate::state::{transition_allowed, DialogState, DialogStateView};
use crate::text::{decimal, decimal_of};
use crate::typed::{
    contact_uri_of, read_contact_uri, status_text_of, to_with_tag_of, write_status_text,
    write_to_tag,
};
use vstd::prelude::*;

verus! {

/// The side of the INVITE that a dialog is on.
#[derive(Clone, Copy, Debug, PartialEq, Eq, Structural)]
pub enum Role {
    /// The caller, which sent the INVITE.
    Client,
    /// The callee, which received it.
    Server,
}

/// What a dialog answers an authentication challenge with.
#[derive(Clone, Debug, PartialEq, Eq)]
pub struct Credential {
    pub username: String,
    pub password: String,
    /// The realm that the credential is for; any realm where there is none.
    pub realm: Option<String>,
}

/// What a [`Credential`] is in contracts.
pub struct CredentialView {
    pub username: Seq<char>,
    pub password: Seq<char>,
    pub realm: Option<Seq<char>>,
}

/// The view of a text that may be absent.
pub open spec fn text_view(t: Option<String>) -> Option<Seq<char>> {
    match t {
        Some(s) => Some(s@),
        None => None,
    }
}

impl View for Credential {
    type V = CredentialView;

    open spec fn view(&self) -> CredentialView {
        CredentialView {
            username: self.username@,
            password: self.password@,
            realm: text_view(self.realm),
        }
    }
}

/// The view of a credential that may be absent.
pub open spec fn credential_view(c: Option<Credential>) -> Option<CredentialView> {
    match c {
        Some(c) => Some(c@),
        None => None,
    }
}

/// The views of a run of states, in order.
pub open spec fn states_view(s: Seq<DialogState>) -> Seq<DialogStateView> {
    s.map_values(|x: DialogState| x@)
}

/// The views of a run of texts, in order.
pub open spec fn texts_view(s: Seq<String>) -> Seq<Seq<char>> {
    s.map_values(|x: String| x@)
}

/// The shared part of a dialog.
///
/// The dialog is held by one owner at a time; every operation that changes
/// it takes it exclusively. The states that it has entered are collected
/// in `emitted`, oldest first, for the owner to hand on.
#[derive(Clone, Debug, PartialEq, Eq)]
pub struct DialogInner {
    pub role: Role,
    pub id: DialogId,
    /// The INVITE that created the dialog.
    pub initial_request: Request,
    /// The sequence number of the last request that this side originated.
    pub local_seq: u32,
    /// The highest sequence number that the peer has used.
    pub remote_seq: u32,
    pub state: DialogState,
    pub credential: Option<Credential>,
    /// Whether a transaction is live on the dialog.
    pub has_transaction: bool,
    /// The value of the `Via` header of this side, without a branch.
    pub local_via: String,
    /// The value of the `From` header of the requests of this side.
    pub from: String,
    /// The value of the `To` header of the requests of this side.
    pub to: String,
    /// The URI that the requests of this side go to.
    pub remote_uri: String,
    /// The value of the `Contact` header of this side.
    pub local_contact: Option<String>,
    /// The values of the `Route` headers of the requests of this side.
    pub route_set: Vec<String>,
    /// The states entered since the owner last took them, oldest first.
    pub emitted: Vec<DialogState>,
}

/// What a [`DialogInner`] is in contracts.
pub struct DialogView {
    pub role: Role,
    pub id: DialogIdView,
    pub initial_request: RequestView,
    pub local_seq: u32,
    pub remote_seq: u32,
    pub state: DialogStateView,
    pub credential: Option<CredentialView>,
    pub has_transaction: bool,
    pub local_via: Seq<char>,
    pub from: Seq<char>,
    pub to: Seq<char>,
    pub remote_uri: Seq<char>,
    pub local_contact: Option<Seq<char>>,
    pub route_set: Seq<Seq<char>>,
    pub emitted: Seq<DialogStateView>,
}

impl View for DialogInner {
    type V = DialogView;

    open spec fn view(&self) -> DialogView {
        DialogView {
            role: self.role,
            id: self.id@,
            initial_request: self.initial_request@,
            local_seq: self.local_seq,
            remote_seq: self.remote_seq,
            state: self.state@,
            credential: credential_view(self.credential),
            has_transaction: self.has_transaction,
            local_via: self.local_via@,
            from: self.from@,
            to: self.to@,
            remote_uri: self.remote_uri@,
            local_contact: text_view(self.local_contact),
            route_set: texts_view(self.route_set@),
            emitted: states_view(self.emitted@),
        }
    }
}

/// The sequence number after `seq` in the count of a dialog. The count is
/// of 32 bits and starts again at 0 after the last of them.
pub open spec fn next_seq(seq: u32) -> u32 {
    if seq == u32::MAX {
        0
    } else {
        (seq + 1) as u32
    }
}

/// The greater of two sequence numbers.
pub open spec fn max_seq(a: u32, b: u32) -> u32 {
    if a < b {
        b
    } else {
        a
    }
}

/// The message of the error that a refused transition returns.
pub open spec fn illegal_transition(id: DialogIdView) -> ErrorView {
    ErrorView::DialogError("illegal state transition"@, id)
}

/// The dialog after it has entered `next`: the state is `next`, and `next`
/// is the last of the emitted states.
pub open spec fn entered(d: DialogView, next: DialogStateView) -> DialogView {
    DialogView { state: next, emitted: d.emitted.push(next), ..d }
}

/// The dialog after the attempt to enter `next`.
pub open spec fn after_transition(d: DialogView, next: DialogStateView) -> DialogView {
    if transition_allowed(d.state, next) {
        entered(d, next)
    } else {
        d
    }
}

/// The dialog that `DialogInner::new` makes of its arguments, or the error
/// that says what the INVITE lacks.
///
/// The count of this side starts at the sequence number of the INVITE and
/// that of the peer at 0. The caller writes `From` and `To` as the INVITE
/// has them and sends to the INVITE's URI. The callee writes the INVITE's
/// `To`, with the dialog's own tag where it has one, as `From`, the
/// INVITE's `From` as `To`, and sends to the URI of the INVITE's `Contact`.
pub open spec fn new_dialog(
    role: Role,
    id: DialogIdView,
    invite: RequestView,
    credential: Option<CredentialView>,
    local_via: Seq<char>,
    local_contact: Option<Seq<char>>,
) -> Result<DialogView, ErrorView> {
    match cseq_of(invite.headers) {
        Err(e) => Err(e),
        Ok(seq) => match header_value(invite.headers, "From"@) {
            None => Err(ErrorView::ParseError("missing header: From"@)),
            Some(from) => match header_value(invite.headers, "To"@) {
                None => Err(ErrorView::ParseError("missing header: To"@)),
                Some(to) => {
                    let d = DialogView {
                        role,
                        id,
                        initial_request: invite,
                        local_seq: seq,
                        remote_seq: 0,
                        state: DialogStateView::Calling(id),
                        credential,
                        has_transaction: false,
                        local_via,
                        from,
                        to,
                        remote_uri: invite.uri,
                        local_contact,
                        route_set: Seq::empty(),
                        emitted: Seq::empty(),
                    };
                    if role == Role::Client {
                        Ok(d)
                    } else {
                        match header_value(invite.headers, "Contact"@) {
                            None => Err(ErrorView::ParseError("missing header: Contact"@)),
                            Some(contact) => match contact_uri_of(contact) {
                                None => Err(ErrorView::ParseError("invalid header: Contact"@)),
                                Some(uri) => if id.to_tag.len() == 0 {
                                    Ok(DialogView { from: to, to: from, remote_uri: uri, ..d })
                                } else {
                                    match to_with_tag_of(to, id.to_tag) {
                                        None => Err(ErrorView::ParseError("invalid header: To"@)),
                                        Some(tagged) => Ok(
                                            DialogView {
                                                from: tagged,
                                                to: from,
                                                remote_uri: uri,
                                                ..d
                                            },
                                        ),
                                    }
                                },
                            },
                        }
                    }
                },
            },
        },
    }
}

/// The dialog after the remote tag `tag` has been learned, or the error:
/// an empty remote tag is set to `tag`, and with it the tag in the value of
/// `To`; a remote tag that is there must be `tag`.
pub open spec fn with_remote_tag(d: DialogView, tag: Seq<char>) -> Result<DialogView, ErrorView> {
    if d.id.to_tag.len() == 0 {
        match to_with_tag_of(d.to, tag) {
            None => Err(ErrorView::ParseError("invalid header: To"@)),
            Some(to) => Ok(DialogView { id: DialogIdView { to_tag: tag, ..d.id }, to, ..d }),
        }
    } else if d.id.to_tag == tag {
        Ok(d)
    } else {
        Err(ErrorView::DialogError("remote tag mismatch"@, d.id))
    }
}


/// A header with the given name and value.
pub open spec fn header_of(name: Seq<char>, value: Seq<char>) -> HeaderView {
    HeaderView { name, value }
}

/// The headers that an optional argument stands for: none where it is
/// absent.
pub open spec fn optional_headers(hs: Option<Vec<Header>>) -> Seq<HeaderView> {
    match hs {
        Some(v) => headers_view(v@),
        None => Seq::empty(),
    }
}

/// The body that an optional argument stands for: empty where it is
/// absent.
pub open spec fn optional_body(body: Option<Vec<u8>>) -> Seq<u8> {
    match body {
        Some(v) => v@,
        None => Seq::empty(),
    }
}

/// The value of the `Via` header of a request: this side's value, and the
/// branch as its parameter where one is given.
pub open spec fn via_value(local_via: Seq<char>, branch: Option<Seq<char>>) -> Seq<char> {
    match branch {
        Some(b) => local_via + ";branch="@ + b,
        None => local_via,
    }
}

/// The value of a `CSeq` header: the number, a space, the method.
pub open spec fn cseq_value(seq: u32, method: Method) -> Seq<char> {
    decimal_of(seq as nat) + " "@ + method_name(method)
}

/// Whether a request of this method takes a new sequence number where the
/// caller gives none: every method but ACK and CANCEL.
pub open spec fn takes_new_seq(method: Method) -> bool {
    method != Method::Ack && method != Method::Cancel
}

/// The sequence number that a request built by the dialog carries: the
/// one given; else the next of this side's count, or for ACK and CANCEL
/// the count as it stands.
pub open spec fn request_seq(d: DialogView, method: Method, cseq: Option<u32>) -> u32 {
    match cseq {
        Some(n) => n,
        None => if takes_new_seq(method) {
            next_seq(d.local_seq)
        } else {
            d.local_seq
        },
    }
}

/// The dialog after it has built a request: the count of this side has
/// advanced where the request took a new number.
pub open spec fn after_request(d: DialogView, method: Method, cseq: Option<u32>) -> DialogView {
    if cseq is None && takes_new_seq(method) {
        DialogView { local_seq: next_seq(d.local_seq), ..d }
    } else {
        d
    }
}

/// The `Contact` header of a request: the one given, else this side's own,
/// else none.
pub open spec fn contact_headers(d: DialogView, contact: Option<Seq<char>>) -> Seq<HeaderView> {
    match contact {
        Some(c) => seq![header_of("Contact"@, c)],
        None => match d.local_contact {
            Some(c) => seq![header_of("Contact"@, c)],
            None => Seq::empty(),
        },
    }
}

/// One `Route` header for each entry of the route set, in order.
pub open spec fn route_headers(routes: Seq<Seq<char>>) -> Seq<HeaderView> {
    routes.map_values(|r: Seq<char>| header_of("Route"@, r))
}

/// The headers of a request that the dialog `d` builds under the sequence
/// number `seq`, in this order: `Via`, `Call-ID`, `From`, `To`, `CSeq`,
/// `Contact` where there is one, the `Route` headers, `Max-Forwards: 70`,
/// the extra headers and `Content-Length` with the length of the body.
pub open spec fn request_headers(
    d: DialogView,
    method: Method,
    seq: u32,
    contact: Option<Seq<char>>,
    branch: Option<Seq<char>>,
    extra: Seq<HeaderView>,
    body_len: nat,
) -> Seq<HeaderView> {
    seq![
        header_of("Via"@, via_value(d.local_via, branch)),
        header_of("Call-ID"@, d.id.call_id),
        header_of("From"@, d.from),
        header_of("To"@, d.to),
        header_of("CSeq"@, cseq_value(seq, method)),
    ] + contact_headers(d, contact) + route_headers(d.route_set) + seq![
        header_of("Max-Forwards"@, "70"@),
    ] + extra + seq![header_of("Content-Length"@, decimal_of(body_len))]
}

/// The request that the dialog `d` builds: it goes to the remote URI and
/// carries the sequence number that [`request_seq`] gives.
pub open spec fn built_request(
    d: DialogView,
    method: Method,
    cseq: Option<u32>,
    contact: Option<Seq<char>>,
    branch: Option<Seq<char>>,
    extra: Seq<HeaderView>,
    body: Seq<u8>,
) -> RequestView {
    RequestView {
        method,
        uri: d.remote_uri,
        headers: request_headers(
            d,
            method,
            request_seq(d, method, cseq),
            contact,
            branch,
            extra,
            body.len(),
        ),
        body,
    }
}

/// The tag that this side of the dialog has chosen.
pub open spec fn local_tag(d: DialogView) -> Seq<char> {
    if d.role == Role::Client {
        d.id.from_tag
    } else {
        d.id.to_tag
    }
}

/// The first header of `hs` named `name`, as a run of one header, or of
/// none where there is no such header.
pub open spec fn mirrored(hs: Seq<HeaderView>, name: Seq<char>) -> Seq<HeaderView> {
    match header_value(hs, name) {
        Some(v) => seq![header_of(name, v)],
        None => Seq::empty(),
    }
}

/// The value of a `To` header after the tag has been put into it: the
/// value as it is where the tag is empty or the value cannot be read.
pub open spec fn tagged_to_value(value: Seq<char>, tag: Seq<char>) -> Seq<char> {
    if tag.len() == 0 {
        value
    } else {
        match to_with_tag_of(value, tag) {
            Some(t) => t,
            None => value,
        }
    }
}

/// The `To` header of a response: that of the request with the tag put in.
pub open spec fn mirrored_to(hs: Seq<HeaderView>, tag: Seq<char>) -> Seq<HeaderView> {
    match header_value(hs, "To"@) {
        Some(v) => seq![header_of("To"@, tagged_to_value(v, tag))],
        None => Seq::empty(),
    }
}

/// The headers named `name` among the first `n` of `hs`, last first.
pub open spec fn named_reversed(hs: Seq<HeaderView>, name: Seq<char>, n: int) -> Seq<HeaderView>
    decreases n,
{
    if n <= 0 || n > hs.len() {
        Seq::empty()
    } else if hs[n - 1].name == name {
        seq![hs[n - 1]] + named_reversed(hs, name, n - 1)
    } else {
        named_reversed(hs, name, n - 1)
    }
}

/// The response that the dialog `d` builds to the request `req`.
///
/// Its headers are, in this order: the first `Via`, `From`, `To` with this
/// side's tag, `Call-ID` and `CSeq` of the request, each where the request
/// has it; the `Record-Route` headers of the request, last first; the
/// extra headers; `Content-Length` with the length of the body.
pub open spec fn built_response(
    d: DialogView,
    req: RequestView,
    status: u16,
    extra: Seq<HeaderView>,
    body: Seq<u8>,
) -> ResponseView {
    ResponseView {
        status,
        status_text: status_text_of(status),
        headers: mirrored(req.headers, "Via"@) + mirrored(req.headers, "From"@) + mirrored_to(
            req.headers,
            local_tag(d),
        ) + mirrored(req.headers, "Call-ID"@) + mirrored(req.headers, "CSeq"@) + named_reversed(
            req.headers,
            "Record-Route"@,
            req.headers.len() as int,
        ) + extra + seq![header_of("Content-Length"@, decimal_of(body.len()))],
        body,
    }
}

/// What the owner of a dialog does with a request that arrived on it.
#[derive(Clone, Debug, PartialEq, Eq)]
pub enum Action {
    /// Nothing.
    Nothing,
    /// Reply with this status.
    Reply(u16),
    /// Hand the request to the live INVITE transaction.
    Forward,
    /// Run the request as the dialog's INVITE transaction.
    Invite,
}

/// What an [`Action`] is in contracts.
pub enum ActionView {
    Nothing,
    Reply(u16),
    Forward,
    Invite,
}

impl View for Action {
    type V = ActionView;

    open spec fn view(&self) -> ActionView {
        match self {
            Action::Nothing => ActionView::Nothing,
            Action::Reply(s) => ActionView::Reply(*s),
            Action::Forward => ActionView::Forward,
            Action::Invite => ActionView::Invite,
        }
    }
}

/// The outcome of handling one request: what to do, and the error to
/// return after it, if any.
#[derive(Clone, Debug, PartialEq, Eq)]
pub struct Handled {
    pub action: Action,
    pub error: Option<Error>,
}

/// What a [`Handled`] is in contracts.
pub struct HandledView {
    pub action: ActionView,
    pub error: Option<ErrorView>,
}

impl View for Handled {
    type V = HandledView;

    open spec fn view(&self) -> HandledView {
        HandledView {
            action: self.action@,
            error: match self.error {
                Some(e) => Some(e@),
                None => None,
            },
        }
    }
}


/// What an established dialog does with a request whose sequence number
/// is fresh. A BYE ends the dialog, an INFO or an OPTIONS is noted in the
/// state, and each is answered with 200. An INVITE is ignored, and so is an
/// ACK on the callee's side. Any other method is answered with 405 and is
/// an error.
pub open spec fn handle_confirmed(d: DialogView, req: RequestView) -> (DialogView, HandledView) {
    let ok = HandledView { action: ActionView::Reply(200), error: None };
    let ignored = HandledView { action: ActionView::Nothing, error: None };
    if req.method == Method::Invite || (req.method == Method::Ack && d.role == Role::Server) {
        (d, ignored)
    } else if req.method == Method::Bye {
        (entered(d, DialogStateView::Terminated(d.id, None)), ok)
    } else if req.method == Method::Info {
        (entered(d, DialogStateView::Info(d.id, req)), ok)
    } else if req.method == Method::Options {
        (entered(d, DialogStateView::Options(d.id, req)), ok)
    } else {
        (
            d,
            HandledView {
                action: ActionView::Reply(405),
                error: Some(ErrorView::DialogError("invalid request"@, d.id)),
            },
        )
    }
}


/// What a dialog does with a request whose sequence number cannot be read,
/// is stale or is fresh, before the method is looked at. `stale` is what
/// is done with a stale request; `fresh` what follows for a fresh one, on
/// the dialog that has noted the number.
pub open spec fn handle_sequenced(
    d: DialogView,
    req: RequestView,
    stale: ActionView,
    fresh: spec_fn(DialogView) -> (DialogView, HandledView),
) -> (DialogView, HandledView) {
    match cseq_of(req.headers) {
        Err(e) => (d, HandledView { action: ActionView::Nothing, error: Some(e) }),
        Ok(cseq) => if cseq < d.remote_seq {
            (d, HandledView { action: stale, error: None })
        } else {
            fresh(DialogView { remote_seq: cseq, ..d })
        },
    }
}

/// The BYE that an established dialog sends, and the dialog after it has
/// built it; nothing where the dialog is not established.
pub open spec fn bye_request(d: DialogView) -> (DialogView, Option<RequestView>) {
    if d.state.is_confirmed() {
        (
            after_request(d, Method::Bye, None),
            Some(
                built_request(d, Method::Bye, None, None, None, Seq::empty(), Seq::empty()),
            ),
        )
    } else {
        (d, None)
    }
}

/// The INFO that an established dialog sends, and the dialog after it has
/// built it; nothing where the dialog is not established.
pub open spec fn info_request(d: DialogView) -> (DialogView, Option<RequestView>) {
    if d.state.is_confirmed() {
        (
            after_request(d, Method::Info, None),
            Some(
                built_request(d, Method::Info, None, None, None, Seq::empty(), Seq::empty()),
            ),
        )
    } else {
        (d, None)
    }
}


/// What the owner does after one event of the transaction of a request
/// that the dialog has sent.
#[derive(Clone, Debug, PartialEq, Eq)]
pub enum RequestStep {
    /// Go on receiving.
    Continue,
    /// The request is answered with this final response.
    Final(Response),
    /// Give up with the error.
    Fail(Error),
}

/// What a [`RequestStep`] is in contracts.
pub enum RequestStepView {
    Continue,
    Final(ResponseView),
    Fail(ErrorView),
}

impl View for RequestStep {
    type V = RequestStepView;

    open spec fn view(&self) -> RequestStepView {
        match self {
            RequestStep::Continue => RequestStepView::Continue,
            RequestStep::Final(r) => RequestStepView::Final(r@),
            RequestStep::Fail(e) => RequestStepView::Fail(e@),
        }
    }
}

/// The step on one event of the transaction of a request: the first
/// response with a status of 200 or above is the answer; a transaction that
/// ends before it has failed; everything else is passed over.
pub open spec fn request_step_of(event: Option<SipMessageView>) -> RequestStepView {
    match event {
        None => RequestStepView::Fail(ErrorView::TransactionTerminated),
        Some(SipMessageView::Response(r)) => if r.status >= 200 {
            RequestStepView::Final(r)
        } else {
            RequestStepView::Continue
        },
        Some(SipMessageView::Request(_)) => RequestStepView::Continue,
    }
}

/// Takes one event of the transaction of a request that the dialog has
/// sent: a message, or `None` where the transaction has ended.
pub fn request_step(event: Option<SipMessage>) -> (step: RequestStep)
    ensures
        step@ == request_step_of(
            match event {
                Some(m) => Some(m@),
                None => None,
            },
        ),
{
    match event {
        None => RequestStep::Fail(Error::TransactionTerminated),
        Some(SipMessage::Response(r)) => if r.status >= 200 {
            RequestStep::Final(r)
        } else {
            RequestStep::Continue
        },
        Some(SipMessage::Request(_)) => RequestStep::Continue,
    }
}

/// Adds one header at the end.
fn push_header(hs: &mut Vec<Header>, name: &str, value: String)
    ensures
        headers_view(final(hs)@) == headers_view(old(hs)@).push(header_of(name@, value@)),
{
    hs.push(Header { name: name.to_owned(), value });
    assert(headers_view(final(hs)@) =~= headers_view(old(hs)@).push(header_of(name@, value@)));
}

/// Adds a copy of the first header of `from` named `name`, if there is one.
fn push_mirrored(hs: &mut Vec<Header>, from: &Vec<Header>, name: &str)
    ensures
        headers_view(final(hs)@) == headers_view(old(hs)@) + mirrored(headers_view(from@), name@),
{
    match crate::message::find_header(from, name) {
        Some(h) => {
            push_header(hs, name, h.value.clone());
            assert(headers_view(final(hs)@) =~= headers_view(old(hs)@) + mirrored(
                headers_view(from@),
                name@,
            ));
        },
        None => {
            assert(headers_view(final(hs)@) =~= headers_view(old(hs)@) + mirrored(
                headers_view(from@),
                name@,
            ));
        },
    }
}

/// Adds the given headers at the end, in their order.
fn push_all(hs: &mut Vec<Header>, more: Vec<Header>)
    ensures
        headers_view(final(hs)@) == headers_view(old(hs)@) + headers_view(more@),
{
    let ghost added = headers_view(more@);
    let mut rest = more;
    hs.append(&mut rest);
    assert(headers_view(final(hs)@) =~= headers_view(old(hs)@) + added);
}

/// Adds copies of the headers of `from` named `name`, last first.
fn push_named_reversed(hs: &mut Vec<Header>, from: &Vec<Header>, name: &str)
    ensures
        headers_view(final(hs)@) == headers_view(old(hs)@) + named_reversed(
            headers_view(from@),
            name@,
            from.len() as int,
        ),
{
    let ghost all = headers_view(from@);
    let ghost start = headers_view(hs@);
    let mut i: usize = from.len();
    assert(start + named_reversed(all, name@, i as int) =~= headers_view(hs@) + named_reversed(
        all,
        name@,
        i as int,
    ));
    while i > 0
        invariant
            i <= from.len(),
            all == headers_view(from@),
            start + named_reversed(all, name@, from.len() as int) == headers_view(hs@)
                + named_reversed(all, name@, i as int),
        decreases i,
    {
        let ghost before = headers_view(hs@);
        i -= 1;
        assert(all[i as int] == from[i as int]@);
        if from[i].is_named(name) {
            push_header(hs, name, from[i].value.clone());
            assert(headers_view(hs@) == before.push(all[i as int]));
            assert(before + (seq![all[i as int]] + named_reversed(all, name@, i as int))
                =~= before.push(all[i as int]) + named_reversed(all, name@, i as int));
        }
    }
    assert(named_reversed(all, name@, 0) =~= Seq::empty());
    assert(headers_view(hs@) + named_reversed(all, name@, 0) =~= headers_view(hs@));
}

/// Adds the `Contact` header of a request: the one given, else this side's
/// own, else none.
fn push_contact(hs: &mut Vec<Header>, contact: Option<&str>, own: &Option<String>)
    ensures
        headers_view(final(hs)@) == headers_view(old(hs)@) + (match contact {
            Some(c) => seq![header_of("Contact"@, c@)],
            None => match *own {
                Some(c) => seq![header_of("Contact"@, c@)],
                None => Seq::empty(),
            },
        }),
{
    match contact {
        Some(c) => {
            push_header(hs, "Contact", c.to_owned());
            assert(headers_view(hs@) =~= headers_view(old(hs)@) + seq![
                header_of("Contact"@, c@),
            ]);
        },
        None => match own {
            Some(c) => {
                push_header(hs, "Contact", c.clone());
                assert(headers_view(hs@) =~= headers_view(old(hs)@) + seq![
                    header_of("Contact"@, c@),
                ]);
            },
            None => {
                assert(headers_view(hs@) =~= headers_view(old(hs)@) + Seq::empty());
            },
        },
    }
}

/// Adds one `Route` header for each entry of the route set, in order.
fn push_routes(hs: &mut Vec<Header>, routes: &Vec<String>)
    ensures
        headers_view(final(hs)@) == headers_view(old(hs)@) + route_headers(texts_view(routes@)),
{
    let ghost start = headers_view(hs@);
    let ghost all = texts_view(routes@);
    let mut i: usize = 0;
    assert(headers_view(hs@) =~= start + route_headers(all.take(0)));
    while i < routes.len()
        invariant
            i <= routes.len(),
            all == texts_view(routes@),
            headers_view(hs@) == start + route_headers(all.take(i as int)),
        decreases routes.len() - i,
    {
        push_header(hs, "Route", routes[i].clone());
        assert(all.take(i + 1) =~= all.take(i as int).push(routes[i as int]@));
        assert(start + route_headers(all.take(i + 1)) =~= (start + route_headers(
            all.take(i as int),
        )).push(header_of("Route"@, routes[i as int]@)));
        i += 1;
    }
    assert(all.take(i as int) =~= all);
}

impl DialogInner {
    /// Makes the dialog that an INVITE creates.
    pub fn new(
        role: Role,
        id: DialogId,
        initial_request: Request,
        credential: Option<Credential>,
        local_via: &str,
        local_contact: Option<String>,
    ) -> (r: Result<DialogInner, Error>)
        ensures
            match r {
                Ok(d) => new_dialog(
                    role,
                    id@,
                    initial_request@,
                    credential_view(credential),
                    local_via@,
                    text_view(local_contact),
                ) == Ok::<DialogView, ErrorView>(d@),
                Err(e) => new_dialog(
                    role,
                    id@,
                    initial_request@,
                    credential_view(credential),
                    local_via@,
                    text_view(local_contact),
                ) == Err::<DialogView, ErrorView>(e@),
            },
    {
        let seq = match initial_request.cseq() {
            Ok(n) => n,
            Err(e) => return Err(e),
        };
        let from = match initial_request.header("From") {
            Some(v) => v.to_owned(),
            None => return Err(Error::parse("missing header: From")),
        };
        let to = match initial_request.header("To") {
            Some(v) => v.to_owned(),
            None => return Err(Error::parse("missing header: To")),
        };
        let (from, to, remote_uri) = match role {
            Role::Client => (from, to, initial_request.uri.clone()),
            Role::Server => {
                let uri = match initial_request.header("Contact") {
                    None => return Err(Error::parse("missing header: Contact")),
                    Some(c) => match read_contact_uri(c) {
                        None => return Err(Error::parse("invalid header: Contact")),
                        Some(u) => u,
                    },
                };
                if id.to_tag.as_str().is_empty() {
                    (to, from, uri)
                } else {
                    match write_to_tag(to.as_str(), id.to_tag.as_str()) {
                        None => return Err(Error::parse("invalid header: To")),
                        Some(tagged) => (tagged, from, uri),
                    }
                }
            },
        };
        let state = DialogState::Calling(id.duplicate());
        let d = DialogInner {
            role,
            id,
            initial_request,
            local_seq: seq,
            remote_seq: 0,
            state,
            credential,
            has_transaction: false,
            local_via: local_via.to_owned(),
            from,
            to,
            remote_uri,
            local_contact,
            route_set: Vec::new(),
            emitted: Vec::new(),
        };
        assert(d@.route_set =~= Seq::empty());
        assert(d@.emitted =~= Seq::empty());
        Ok(d)
    }

    /// The identifier of the dialog.
    pub fn id(&self) -> (id: DialogId)
        ensures
            id@ == self@.id,
    {
        self.id.duplicate()
    }

    /// Whether the dialog is established.
    pub fn is_confirmed(&self) -> (b: bool)
        ensures
            b == self@.state.is_confirmed(),
    {
        self.state.is_confirmed()
    }

    /// The sequence number of the last request that this side originated.
    pub fn get_local_seq(&self) -> (n: u32)
        ensures
            n == self@.local_seq,
    {
        self.local_seq
    }

    /// Counts this side's sequence number up by one and returns the new
    /// number.
    pub fn increment_local_seq(&mut self) -> (n: u32)
        ensures
            n == next_seq(old(self)@.local_seq),
            final(self)@ == (DialogView { local_seq: n, ..old(self)@ }),
    {
        self.local_seq = self.local_seq.wrapping_add(1);
        self.local_seq
    }

    /// Takes note of the sequence number of a request of the peer. A
    /// number below the highest seen is stale: the result is `false` and
    /// nothing changes. Any other number becomes the highest seen.
    pub fn observe_remote_seq(&mut self, cseq: u32) -> (fresh: bool)
        ensures
            fresh == (cseq >= old(self)@.remote_seq),
            final(self)@ == (DialogView {
                remote_seq: max_seq(old(self)@.remote_seq, cseq),
                ..old(self)@
            }),
    {
        if cseq < self.remote_seq {
            false
        } else {
            self.remote_seq = cseq;
            true
        }
    }

    /// Enters the state `next` and adds it to the emitted states, where the
    /// transition is allowed. Otherwise nothing changes and the error says
    /// so.
    pub fn transition(&mut self, next: DialogState) -> (r: Result<(), Error>)
        ensures
            final(self)@ == after_transition(old(self)@, next@),
            r is Ok <==> transition_allowed(old(self)@.state, next@),
            r matches Err(e) ==> e@ == illegal_transition(old(self)@.id),
    {
        if !self.state.allows(&next) {
            return Err(Error::dialog("illegal state transition", self.id.duplicate()));
        }
        let copy = next.duplicate();
        self.state = next;
        self.emitted.push(copy);
        assert(final(self)@.emitted =~= old(self)@.emitted.push(next@));
        Ok(())
    }

    /// Hands over the states entered since the last call, oldest first.
    pub fn take_emitted(&mut self) -> (out: Vec<DialogState>)
        ensures
            states_view(out@) == old(self)@.emitted,
            final(self)@ == (DialogView { emitted: Seq::empty(), ..old(self)@ }),
    {
        let mut out: Vec<DialogState> = Vec::new();
        std::mem::swap(&mut out, &mut self.emitted);
        assert(final(self)@.emitted =~= Seq::empty());
        out
    }

    /// Learns the tag that the peer has chosen.
    pub fn update_remote_tag(&mut self, tag: &str) -> (r: Result<(), Error>)
        ensures
            match r {
                Ok(()) => with_remote_tag(old(self)@, tag@) == Ok::<DialogView, ErrorView>(
                    final(self)@,
                ),
                Err(e) => with_remote_tag(old(self)@, tag@) == Err::<DialogView, ErrorView>(e@)
                    && final(self)@ == old(self)@,
            },
    {
        if self.id.to_tag.as_str().is_empty() {
            match write_to_tag(self.to.as_str(), tag) {
                None => Err(Error::parse("invalid header: To")),
                Some(to) => {
                    self.id.to_tag = tag.to_owned();
                    self.to = to;
                    Ok(())
                },
            }
        } else if self.id.to_tag.as_str().to_owned() == tag.to_owned() {
            Ok(())
        } else {
            Err(Error::dialog("remote tag mismatch", self.id.duplicate()))
        }
    }
    fn request_headers(
        &self,
        method: Method,
        seq: u32,
        contact: Option<&str>,
        branch: Option<&str>,
        extra: Vec<Header>,
        body_len: usize,
    ) -> (out: Vec<Header>)
        ensures
            headers_view(out@) == request_headers(
                self@,
                method,
                seq,
                match contact {
                    Some(c) => Some(c@),
                    None => None,
                },
                match branch {
                    Some(b) => Some(b@),
                    None => None,
                },
                headers_view(extra@),
                body_len as nat,
            ),
    {
        let via = match branch {
            Some(b) => self.local_via.clone().concat(";branch=").concat(b),
            None => self.local_via.clone(),
        };
        let mut out: Vec<Header> = Vec::new();
        push_header(&mut out, "Via", via);
        push_header(&mut out, "Call-ID", self.id.call_id.clone());
        push_header(&mut out, "From", self.from.clone());
        push_header(&mut out, "To", self.to.clone());
        push_header(&mut out, "CSeq", decimal(seq as u64).concat(" ").concat(method.name()));
        let ghost first = headers_view(out@);
        assert(first =~= seq![
            header_of("Via"@, via@),
            header_of("Call-ID"@, self@.id.call_id),
            header_of("From"@, self@.from),
            header_of("To"@, self@.to),
            header_of("CSeq"@, cseq_value(seq, method)),
        ]);
        push_contact(&mut out, contact, &self.local_contact);
        push_routes(&mut out, &self.route_set);
        let ghost third = headers_view(out@);
        push_header(&mut out, "Max-Forwards", String::from_str("70"));
        assert(headers_view(out@) =~= third + seq![header_of("Max-Forwards"@, "70"@)]);
        push_all(&mut out, extra);
        let ghost fifth = headers_view(out@);
        push_header(&mut out, "Content-Length", decimal(body_len as u64));
        assert(headers_view(out@) =~= fifth + seq![
            header_of("Content-Length"@, decimal_of(body_len as nat)),
        ]);
        out
    }

    /// Builds a request on the dialog. Where no sequence number is given,
    /// the request takes the next of this side's count; an ACK or a CANCEL
    /// takes the count as it stands.
    pub fn make_request(
        &mut self,
        method: Method,
        cseq: Option<u32>,
        contact: Option<&str>,
        branch: Option<&str>,
        extra_headers: Option<Vec<Header>>,
        body: Option<Vec<u8>>,
    ) -> (req: Request)
        ensures
            req@ == built_request(
                old(self)@,
                method,
                cseq,
                match contact {
                    Some(c) => Some(c@),
                    None => None,
                },
                match branch {
                    Some(b) => Some(b@),
                    None => None,
                },
                optional_headers(extra_headers),
                optional_body(body),
            ),
            final(self)@ == after_request(old(self)@, method, cseq),
    {
        let seq = match cseq {
            Some(n) => n,
            None => match method {
                Method::Ack | Method::Cancel => self.local_seq,
                _ => self.increment_local_seq(),
            },
        };
        let extra = match extra_headers {
            Some(v) => v,
            None => Vec::new(),
        };
        assert(headers_view(extra@) =~= optional_headers(extra_headers));
        let ghost given = body;
        let body = match body {
            Some(b) => b,
            None => Vec::new(),
        };
        assert(body@ =~= optional_body(given));
        let headers = self.request_headers(method, seq, contact, branch, extra, body.len());
        Request { method, uri: self.remote_uri.clone(), headers, body }
    }

    /// Builds the response with the given status to a request.
    pub fn make_response(
        &self,
        req: &Request,
        status: u16,
        headers: Option<Vec<Header>>,
        body: Option<Vec<u8>>,
    ) -> (resp: Response)
        ensures
            resp@ == built_response(
                self@,
                req@,
                status,
                optional_headers(headers),
                optional_body(body),
            ),
    {
        let mut out: Vec<Header> = Vec::new();
        push_mirrored(&mut out, &req.headers, "Via");
        push_mirrored(&mut out, &req.headers, "From");
        let ghost two = headers_view(out@);
        let tag = match self.role {
            Role::Client => self.id.from_tag.as_str(),
            Role::Server => self.id.to_tag.as_str(),
        };
        match req.header("To") {
            Some(v) => {
                let value = if tag.is_empty() {
                    v.to_owned()
                } else {
                    match write_to_tag(v, tag) {
                        Some(t) => t,
                        None => v.to_owned(),
                    }
                };
                push_header(&mut out, "To", value);
            },
            None => {},
        }
        assert(headers_view(out@) =~= two + mirrored_to(req@.headers, local_tag(self@)));
        push_mirrored(&mut out, &req.headers, "Call-ID");
        push_mirrored(&mut out, &req.headers, "CSeq");
        push_named_reversed(&mut out, &req.headers, "Record-Route");
        let extra = match headers {
            Some(v) => v,
            None => Vec::new(),
        };
        assert(headers_view(extra@) =~= optional_headers(headers));
        push_all(&mut out, extra);
        let ghost body0 = body;
        let body = match body {
            Some(b) => b,
            None => Vec::new(),
        };
        assert(body@ =~= optional_body(body0));
        push_header(&mut out, "Content-Length", decimal(body.len() as u64));
        let resp = Response { status, status_text: write_status_text(status), headers: out, body };
        assert(resp@.headers =~= built_response(
            self@,
            req@,
            status,
            optional_headers(headers),
            optional_body(body0),
        ).headers);
        resp
    }
    fn noted(&mut self, next: DialogState) -> (h: Handled)
        requires
            old(self)@.state.is_confirmed(),
            !(next@ is Confirmed),
        ensures
            final(self)@ == entered(old(self)@, next@),
            h@ == (HandledView { action: ActionView::Reply(200), error: None }),
    {
        match self.transition(next) {
            Ok(()) => Handled { action: Action::Reply(200), error: None },
            Err(e) => Handled { action: Action::Nothing, error: Some(e) },
        }
    }

    /// Handles a request with a fresh sequence number on the established
    /// dialog.
    pub fn handle_confirmed(&mut self, req: &Request) -> (h: Handled)
        requires
            old(self)@.state.is_confirmed(),
        ensures
            (final(self)@, h@) == handle_confirmed(old(self)@, req@),
    {
        match req.method {
            Method::Invite => Handled { action: Action::Nothing, error: None },
            Method::Bye => self.noted(DialogState::Terminated(self.id(), None)),
            Method::Info => self.noted(DialogState::Info(self.id(), req.duplicate())),
            Method::Options => self.noted(DialogState::Options(self.id(), req.duplicate())),
            Method::Ack => match self.role {
                Role::Server => Handled { action: Action::Nothing, error: None },
                Role::Client => Handled {
                    action: Action::Reply(405),
                    error: Some(Error::dialog("invalid request", self.id())),
                },
            },
            _ => Handled {
                action: Action::Reply(405),
                error: Some(Error::dialog("invalid request", self.id())),
            },
        }
    }
    /// Builds the BYE of an established dialog.
    pub fn bye(&mut self) -> (r: Option<Request>)
        ensures
            final(self)@ == bye_request(old(self)@).0,
            match r {
                Some(req) => bye_request(old(self)@).1 == Some(req@),
                None => bye_request(old(self)@).1.is_none(),
            },
    {
        if !self.is_confirmed() {
            return None;
        }
        Some(self.make_request(Method::Bye, None, None, None, None, None))
    }

    /// Ends the dialog once its BYE has been answered, with the status of
    /// the answer where there was one.
    pub fn bye_done(&mut self, status: Option<u16>) -> (r: Result<(), Error>)
        ensures
            final(self)@ == after_transition(
                old(self)@,
                DialogStateView::Terminated(old(self)@.id, status),
            ),
            r is Ok <==> !old(self)@.state.is_terminated(),
            r matches Err(e) ==> e@ == illegal_transition(old(self)@.id),
    {
        self.transition(DialogState::Terminated(self.id(), status))
    }

    /// Builds the INFO of an established dialog.
    pub fn info(&mut self) -> (r: Option<Request>)
        ensures
            final(self)@ == info_request(old(self)@).0,
            match r {
                Some(req) => info_request(old(self)@).1 == Some(req@),
                None => info_request(old(self)@).1.is_none(),
            },
    {
        if !self.is_confirmed() {
            return None;
        }
        Some(self.make_request(Method::Info, None, None, None, None, None))
    }
}

/// The sequence numbers of a run of requests that the dialog builds one
/// after the other, none with a number given by the caller.
pub open spec fn seqs_of_requests(d: DialogView, methods: Seq<Method>) -> Seq<u32>
    decreases methods.len(),
{
    if methods.len() == 0 {
        Seq::empty()
    } else {
        seq![request_seq(d, methods[0], None)] + seqs_of_requests(
            after_request(d, methods[0], None),
            methods.drop_first(),
        )
    }
}

/// The requests that a dialog originates, ACK and CANCEL apart, carry
/// strictly increasing sequence numbers, as long as the count of 32 bits
/// does not run out: the request at position `i` carries the number that
/// is `i + 1` above the count at the start.
pub proof fn lemma_local_seq_strictly_increases(d: DialogView, methods: Seq<Method>)
    requires
        forall|i: int| 0 <= i < methods.len() ==> takes_new_seq(#[trigger] methods[i]),
        d.local_seq + methods.len() <= u32::MAX,
    ensures
        seqs_of_requests(d, methods).len() == methods.len(),
        forall|i: int|
            0 <= i < methods.len() ==> #[trigger] seqs_of_requests(d, methods)[i] == d.local_seq
                + i + 1,
        forall|i: int, j: int|
            0 <= i < j < methods.len() ==> seqs_of_requests(d, methods)[i] < seqs_of_requests(
                d,
                methods,
            )[j],
    decreases methods.len(),
{
    if methods.len() > 0 {
        let next = after_request(d, methods[0], None);
        let rest = methods.drop_first();
        assert(takes_new_seq(methods[0]));
        assert forall|i: int| 0 <= i < rest.len() implies takes_new_seq(#[trigger] rest[i]) by {
            assert(rest[i] == methods[i + 1]);
        }
        lemma_local_seq_strictly_increases(next, rest);
        let all = seqs_of_requests(d, methods);
        let tail = seqs_of_requests(next, rest);
        assert forall|i: int| 0 <= i < methods.len() implies #[trigger] all[i] == d.local_seq + i
            + 1 by {
            if i > 0 {
                assert(all[i] == tail[i - 1]);
            }
        }
    }
}

/// The highest sequence number seen once the numbers `seqs` have been
/// observed in order, `start` being the highest seen before.
pub open spec fn remote_seq_after(start: u32, seqs: Seq<u32>) -> u32
    decreases seqs.len(),
{
    if seqs.len() == 0 {
        start
    } else {
        remote_seq_after(max_seq(start, seqs[0]), seqs.drop_first())
    }
}

/// After a run of requests the highest sequence number seen is the
/// maximum of their numbers and of the highest seen before: it is below
/// none of them, and it is one of them.
pub proof fn lemma_remote_seq_is_maximum(start: u32, seqs: Seq<u32>)
    ensures
        remote_seq_after(start, seqs) >= start,
        forall|i: int| 0 <= i < seqs.len() ==> #[trigger] seqs[i] <= remote_seq_after(start, seqs),
        remote_seq_after(start, seqs) == start || exists|i: int|
            0 <= i < seqs.len() && #[trigger] seqs[i] == remote_seq_after(start, seqs),
    decreases seqs.len(),
{
    if seqs.len() > 0 {
        let rest = seqs.drop_first();
        let m = max_seq(start, seqs[0]);
        lemma_remote_seq_is_maximum(m, rest);
        let r = remote_seq_after(start, seqs);
        assert forall|i: int| 0 <= i < seqs.len() implies #[trigger] seqs[i] <= r by {
            if i > 0 {
                assert(seqs[i] == rest[i - 1]);
            }
        }
        if r != start {
            if r == m {
                assert(seqs[0] == r);
            } else {
                let i = choose|i: int| 0 <= i < rest.len() && #[trigger] rest[i] == r;
                assert(seqs[i + 1] == r);
            }
        }
    }
}

} // verus!
