//! The caller's side of an INVITE dialog.
//!
//! The dialog performs no I/O. Its owner sends the INVITE, hands every
//! message of the transaction to [`ClientInviteDialog::on_invite_message`]
//! and does what the returned [`InviteStep`] says.

use crate::auth::{authorize, authorized};
use crate::dialog::{
    after_request, after_transition, built_request, bye_request, entered, handle_confirmed,
    handle_sequenced, illegal_transition, info_request, max_seq, next_seq, remote_seq_after,
    with_remote_tag, Action, ActionView, DialogInner, DialogView, Handled, HandledView,
};
use crate::dialog_id::{dialog_id_of, DialogId, DialogIdView};
use crate::error::{Error, ErrorView};
use crate::message::{
    cseq_of, duplicate_headers, header_value, replace_first, set_first, Method, Request,
    RequestView, Response, ResponseView, SipMessage, SipMessageView,
};
use crate::state::{transition_allowed, DialogState, DialogStateView};
use crate::typed::{
    cseq_with_number_of, read_to_tag, read_via_branch, to_tag_of, via_branch_of,
    write_cseq_number, Lookup, LookupView,
};
use vstd::prelude::*;

verus! {

/// What the INVITE of a caller has come to so far.
#[derive(Clone, Debug, PartialEq, Eq)]
pub struct InviteProgress {
    /// Whether a challenge has been answered or given up on.
    pub auth_sent: bool,
    /// The identifier of the dialog as last derived.
    pub dialog_id: DialogId,
    /// The final response, once there is one.
    pub final_response: Option<Response>,
}

/// What an [`InviteProgress`] is in contracts.
pub struct ProgressView {
    pub auth_sent: bool,
    pub dialog_id: DialogIdView,
    pub final_response: Option<ResponseView>,
}

impl View for InviteProgress {
    type V = ProgressView;

    open spec fn view(&self) -> ProgressView {
        ProgressView {
            auth_sent: self.auth_sent,
            dialog_id: self.dialog_id@,
            final_response: match self.final_response {
                Some(r) => Some(r@),
                None => None,
            },
        }
    }
}

/// What the owner does after one message of the INVITE transaction.
#[derive(Clone, Debug, PartialEq, Eq)]
pub enum InviteStep {
    /// Go on receiving.
    Continue,
    /// Answer the challenge: sign the INVITE again under the sequence
    /// number `seq`, send it on a new transaction and go on receiving.
    Authenticate { seq: u32, challenge: Response },
    /// Send the ACK, then enter `next` with
    /// [`ClientInviteDialog::ack_sent`] and go on receiving: the dialog is
    /// established.
    Acknowledge { ack: Request, next: DialogState },
    /// Send the ACK, then enter `next` with
    /// [`ClientInviteDialog::ack_sent`] and give up with the error: the
    /// INVITE was refused.
    Reject { ack: Request, next: DialogState, error: Error },
    /// Stop receiving: the INVITE is over.
    Finish,
    /// Give up with the error.
    Fail(Error),
}

/// What an [`InviteStep`] is in contracts.
pub enum InviteStepView {
    Continue,
    Authenticate { seq: u32, challenge: ResponseView },
    Acknowledge { ack: RequestView, next: DialogStateView },
    Reject { ack: RequestView, next: DialogStateView, error: ErrorView },
    Finish,
    Fail(ErrorView),
}

impl View for InviteStep {
    type V = InviteStepView;

    open spec fn view(&self) -> InviteStepView {
        match self {
            InviteStep::Continue => InviteStepView::Continue,
            InviteStep::Authenticate { seq, challenge } => InviteStepView::Authenticate {
                seq: *seq,
                challenge: challenge@,
            },
            InviteStep::Acknowledge { ack, next } => InviteStepView::Acknowledge {
                ack: ack@,
                next: next@,
            },
            InviteStep::Reject { ack, next, error } => InviteStepView::Reject {
                ack: ack@,
                next: next@,
                error: error@,
            },
            InviteStep::Finish => InviteStepView::Finish,
            InviteStep::Fail(e) => InviteStepView::Fail(e@),
        }
    }
}

/// A dialog, the progress of its INVITE and the step to take.
pub type Stepped = (DialogView, ProgressView, InviteStepView);

/// The status asks for authentication.
pub open spec fn is_challenge(status: u16) -> bool {
    status == 401 || status == 407
}

/// The status says that the request succeeded.
pub open spec fn is_success(status: u16) -> bool {
    200 <= status < 300
}

/// The status says that the peer is alerting or has early media.
pub open spec fn is_early(status: u16) -> bool {
    status == 180 || status == 183
}

/// The attempt to enter `next`: on success the step is `after`, otherwise
/// the dialog stays and the step fails with the refusal.
pub open spec fn try_enter(
    d: DialogView,
    p: ProgressView,
    next: DialogStateView,
    after: InviteStepView,
) -> Stepped {
    if transition_allowed(d.state, next) {
        (entered(d, next), p, after)
    } else {
        (d, p, InviteStepView::Fail(illegal_transition(d.id)))
    }
}

/// The step on a 401 or 407. A second challenge, or a first one while the
/// dialog has no credential, ends the INVITE: the response is final and
/// the dialog terminates with its status. A first challenge with a
/// credential takes the next sequence number for the signed INVITE.
pub open spec fn on_challenge(d: DialogView, p: ProgressView, resp: ResponseView) -> Stepped {
    let ended = DialogStateView::Terminated(d.id, Some(resp.status));
    if p.auth_sent {
        try_enter(d, ProgressView { final_response: Some(resp), ..p }, ended, InviteStepView::Finish)
    } else if d.credential is Some {
        (
            DialogView { local_seq: next_seq(d.local_seq), ..d },
            ProgressView { auth_sent: true, ..p },
            InviteStepView::Authenticate { seq: next_seq(d.local_seq), challenge: resp },
        )
    } else {
        try_enter(
            d,
            ProgressView { auth_sent: true, final_response: Some(resp), ..p },
            ended,
            InviteStepView::Finish,
        )
    }
}

/// The message of the error that a refused INVITE ends with: the status
/// text, and after a semicolon the value of the `Reason` header where the
/// response has one.
pub open spec fn failure_message(resp: ResponseView) -> Seq<char> {
    match header_value(resp.headers, "Reason"@) {
        Some(reason) => resp.status_text + ";"@ + reason,
        None => resp.status_text,
    }
}

/// The sequence number that the ACK of a response carries: that of the
/// response, where it can be read.
pub open spec fn ack_seq(resp: ResponseView) -> Option<u32> {
    match cseq_of(resp.headers) {
        Ok(n) => Some(n),
        Err(_) => None,
    }
}

/// The step once the ACK of a final response has been built. After a 2xx
/// the dialog takes the identifier that the ACK carries and is to be
/// confirmed under it; after any other status it is to terminate and the
/// INVITE fails. The state is entered once the ACK has been sent.
pub open spec fn conclude(
    d: DialogView,
    p: ProgressView,
    resp: ResponseView,
    ack: RequestView,
) -> Stepped {
    if is_success(resp.status) {
        let id = match dialog_id_of(ack) {
            Ok(id) => id,
            Err(_) => d.id,
        };
        (
            DialogView { id, ..d },
            ProgressView { dialog_id: id, ..p },
            InviteStepView::Acknowledge { ack, next: DialogStateView::Confirmed(id) },
        )
    } else {
        (
            d,
            p,
            InviteStepView::Reject {
                ack,
                next: DialogStateView::Terminated(d.id, Some(resp.status)),
                error: ErrorView::DialogError(failure_message(resp), d.id),
            },
        )
    }
}

/// The step on a final response once the remote tag is in the dialog: the
/// ACK takes the branch of the INVITE's `Via`, which must be there, and
/// the sequence number of the response.
pub open spec fn acknowledge(
    d: DialogView,
    p: ProgressView,
    original: RequestView,
    resp: ResponseView,
) -> Stepped {
    match header_value(original.headers, "Via"@) {
        None => (d, p, InviteStepView::Fail(ErrorView::ParseError("missing header: Via"@))),
        Some(via) => match via_branch_of(via) {
            LookupView::Invalid => (
                d,
                p,
                InviteStepView::Fail(ErrorView::ParseError("invalid header: Via"@)),
            ),
            LookupView::Absent => (
                d,
                p,
                InviteStepView::Fail(
                    ErrorView::DialogError("no branch found in via header"@, d.id),
                ),
            ),
            LookupView::Found(branch) => conclude(
                after_request(d, Method::Ack, ack_seq(resp)),
                p,
                resp,
                built_request(
                    d,
                    Method::Ack,
                    ack_seq(resp),
                    None,
                    Some(branch),
                    Seq::empty(),
                    Seq::empty(),
                ),
            ),
        },
    }
}

/// The step on a final response: it is kept, the tag of its `To` becomes
/// the remote tag of the dialog, and the ACK follows.
pub open spec fn on_final(
    d: DialogView,
    p: ProgressView,
    original: RequestView,
    resp: ResponseView,
) -> Stepped {
    let p = ProgressView { final_response: Some(resp), ..p };
    match header_value(resp.headers, "To"@) {
        None => (d, p, InviteStepView::Fail(ErrorView::ParseError("missing header: To"@))),
        Some(to) => match to_tag_of(to) {
            LookupView::Invalid => (
                d,
                p,
                InviteStepView::Fail(ErrorView::ParseError("invalid header: To"@)),
            ),
            LookupView::Absent => acknowledge(d, p, original, resp),
            LookupView::Found(tag) => match with_remote_tag(d, tag) {
                Err(e) => (d, p, InviteStepView::Fail(e)),
                Ok(tagged) => acknowledge(tagged, p, original, resp),
            },
        },
    }
}

/// The step that the caller's dialog takes on one message of its INVITE
/// transaction, `original` being the INVITE as last sent.
///
/// A request is ignored. A 100 enters `Trying`, a 180 or 183 `Early`.
/// A 401 or 407 is a challenge. Every other response is final.
pub open spec fn invite_step(
    d: DialogView,
    p: ProgressView,
    original: RequestView,
    msg: SipMessageView,
) -> Stepped {
    match msg {
        SipMessageView::Request(_) => (d, p, InviteStepView::Continue),
        SipMessageView::Response(resp) => if resp.status == 100 {
            try_enter(d, p, DialogStateView::Trying(d.id), InviteStepView::Continue)
        } else if is_early(resp.status) {
            try_enter(d, p, DialogStateView::Early(d.id, resp), InviteStepView::Continue)
        } else if is_challenge(resp.status) {
            on_challenge(d, p, resp)
        } else {
            on_final(d, p, original, resp)
        },
    }
}

/// What the caller's dialog does with a request that arrives on it: a
/// stale one is answered with 500; a fresh one is handled where the dialog
/// is established and passed over in silence where it is not.
pub open spec fn client_handling(d: DialogView, req: RequestView) -> (DialogView, HandledView) {
    handle_sequenced(
        d,
        req,
        ActionView::Reply(500),
        |noted: DialogView|
            if noted.state.is_confirmed() {
                handle_confirmed(noted, req)
            } else {
                (noted, HandledView { action: ActionView::Nothing, error: None })
            },
    )
}

/// The CANCEL of the dialog's INVITE, or the error that says why there is
/// none: the INVITE with the method CANCEL, the sequence number of this
/// side as it stands, and no body.
pub open spec fn cancel_request(d: DialogView) -> Result<RequestView, ErrorView> {
    let invite = d.initial_request;
    match header_value(invite.headers, "CSeq"@) {
        None => Err(ErrorView::ParseError("missing header: CSeq"@)),
        Some(v) => match cseq_with_number_of(v, d.local_seq) {
            None => Err(ErrorView::ParseError("invalid header: CSeq"@)),
            Some(cseq) => Ok(
                RequestView {
                    method: Method::Cancel,
                    uri: invite.uri,
                    headers: replace_first(
                        replace_first(invite.headers, "CSeq"@, cseq),
                        "Content-Length"@,
                        "0"@,
                    ),
                    body: Seq::empty(),
                },
            ),
        },
    }
}

/// The INVITE that answers a challenge with the credential of the dialog,
/// or the error that says why there is none.
pub open spec fn answer_to(
    d: DialogView,
    original: RequestView,
    challenge: ResponseView,
    seq: u32,
    cnonce: Seq<char>,
) -> Result<RequestView, ErrorView> {
    match d.credential {
        Some(credential) => authorized(original, challenge, credential, seq, cnonce),
        None => Err(ErrorView::AuthError("no credential"@)),
    }
}

/// The caller's side of an INVITE dialog.
#[derive(Clone, Debug, PartialEq, Eq)]
pub struct ClientInviteDialog {
    pub inner: DialogInner,
}

impl View for ClientInviteDialog {
    type V = DialogView;

    open spec fn view(&self) -> DialogView {
        self.inner@
    }
}

impl ClientInviteDialog {
    /// The identifier of the dialog.
    pub fn id(&self) -> (id: DialogId)
        ensures
            id@ == self@.id,
    {
        self.inner.id()
    }

    /// Starts the INVITE: the dialog enters `Calling`, and the owner sends
    /// the INVITE.
    pub fn begin_invite(&mut self) -> (r: Result<InviteProgress, Error>)
        ensures
            final(self)@ == after_transition(
                old(self)@,
                DialogStateView::Calling(old(self)@.id),
            ),
            match r {
                Ok(p) => transition_allowed(
                    old(self)@.state,
                    DialogStateView::Calling(old(self)@.id),
                ) && p@ == (ProgressView {
                    auth_sent: false,
                    dialog_id: old(self)@.id,
                    final_response: None,
                }),
                Err(e) => !transition_allowed(
                    old(self)@.state,
                    DialogStateView::Calling(old(self)@.id),
                ) && e@ == illegal_transition(old(self)@.id),
            },
    {
        match self.inner.transition(DialogState::Calling(self.inner.id())) {
            Ok(()) => Ok(
                InviteProgress {
                    auth_sent: false,
                    dialog_id: self.inner.id(),
                    final_response: None,
                },
            ),
            Err(e) => Err(e),
        }
    }

    fn enter(&mut self, next: DialogState, after: InviteStep) -> (step: InviteStep)
        ensures
            final(self)@ == after_transition(old(self)@, next@),
            step@ == (if transition_allowed(old(self)@.state, next@) {
                after@
            } else {
                InviteStepView::Fail(illegal_transition(old(self)@.id))
            }),
    {
        match self.inner.transition(next) {
            Ok(()) => after,
            Err(e) => InviteStep::Fail(e),
        }
    }

    fn challenged(&mut self, progress: &mut InviteProgress, resp: Response) -> (step: InviteStep)
        ensures
            (final(self)@, final(progress)@, step@) == on_challenge(
                old(self)@,
                old(progress)@,
                resp@,
            ),
    {
        let status = resp.status;
        if progress.auth_sent {
            progress.final_response = Some(resp);
            self.enter(DialogState::Terminated(self.inner.id(), Some(status)), InviteStep::Finish)
        } else {
            progress.auth_sent = true;
            if self.inner.credential.is_some() {
                let seq = self.inner.increment_local_seq();
                InviteStep::Authenticate { seq, challenge: resp }
            } else {
                progress.final_response = Some(resp);
                self.enter(
                    DialogState::Terminated(self.inner.id(), Some(status)),
                    InviteStep::Finish,
                )
            }
        }
    }

    fn failure_text(resp: &Response) -> (s: String)
        ensures
            s@ == failure_message(resp@),
    {
        match resp.header("Reason") {
            Some(reason) => resp.status_text.clone().concat(";").concat(reason),
            None => resp.status_text.clone(),
        }
    }

    fn concluded(&mut self, progress: &mut InviteProgress, resp: &Response, ack: Request) -> (step:
        InviteStep)
        ensures
            (final(self)@, final(progress)@, step@) == conclude(
                old(self)@,
                old(progress)@,
                resp@,
                ack@,
            ),
    {
        if 200 <= resp.status && resp.status < 300 {
            match DialogId::from_request(&ack) {
                Ok(id) => {
                    self.inner.id = id;
                },
                Err(_) => {},
            }
            progress.dialog_id = self.inner.id();
            InviteStep::Acknowledge { ack, next: DialogState::Confirmed(self.inner.id()) }
        } else {
            InviteStep::Reject {
                ack,
                next: DialogState::Terminated(self.inner.id(), Some(resp.status)),
                error: Error::DialogError(Self::failure_text(resp), self.inner.id()),
            }
        }
    }

    /// Enters the state that a step named, once its ACK has been sent.
    pub fn ack_sent(&mut self, next: DialogState) -> (r: Result<(), Error>)
        ensures
            final(self)@ == after_transition(old(self)@, next@),
            r is Ok <==> transition_allowed(old(self)@.state, next@),
            r matches Err(e) ==> e@ == illegal_transition(old(self)@.id),
    {
        self.inner.transition(next)
    }

    fn acknowledged(
        &mut self,
        progress: &mut InviteProgress,
        original: &Request,
        resp: &Response,
    ) -> (step: InviteStep)
        ensures
            (final(self)@, final(progress)@, step@) == acknowledge(
                old(self)@,
                old(progress)@,
                original@,
                resp@,
            ),
    {
        let branch = match original.header("Via") {
            None => return InviteStep::Fail(Error::parse("missing header: Via")),
            Some(via) => match read_via_branch(via) {
                Lookup::Invalid => return InviteStep::Fail(Error::parse("invalid header: Via")),
                Lookup::Absent => return InviteStep::Fail(
                    Error::dialog("no branch found in via header", self.inner.id()),
                ),
                Lookup::Found(b) => b,
            },
        };
        let cseq = match resp.cseq() {
            Ok(n) => Some(n),
            Err(_) => None,
        };
        let ack = self.inner.make_request(
            Method::Ack,
            cseq,
            None,
            Some(branch.as_str()),
            None,
            None,
        );
        self.concluded(progress, resp, ack)
    }

    fn finished(&mut self, progress: &mut InviteProgress, original: &Request, resp: Response) -> (step:
        InviteStep)
        ensures
            (final(self)@, final(progress)@, step@) == on_final(
                old(self)@,
                old(progress)@,
                original@,
                resp@,
            ),
    {
        progress.final_response = Some(resp.duplicate());
        let lookup = match resp.header("To") {
            None => return InviteStep::Fail(Error::parse("missing header: To")),
            Some(to) => read_to_tag(to),
        };
        match lookup {
            Lookup::Invalid => InviteStep::Fail(Error::parse("invalid header: To")),
            Lookup::Absent => self.acknowledged(progress, original, &resp),
            Lookup::Found(tag) => match self.inner.update_remote_tag(tag.as_str()) {
                Err(e) => InviteStep::Fail(e),
                Ok(()) => self.acknowledged(progress, original, &resp),
            },
        }
    }

    /// Takes one message of the INVITE transaction and says what to do.
    /// `original` is the INVITE as last sent.
    pub fn on_invite_message(
        &mut self,
        progress: &mut InviteProgress,
        original: &Request,
        msg: SipMessage,
    ) -> (step: InviteStep)
        ensures
            (final(self)@, final(progress)@, step@) == invite_step(
                old(self)@,
                old(progress)@,
                original@,
                msg@,
            ),
    {
        match msg {
            SipMessage::Request(_) => InviteStep::Continue,
            SipMessage::Response(resp) => {
                if resp.status == 100 {
                    self.enter(DialogState::Trying(self.inner.id()), InviteStep::Continue)
                } else if resp.status == 180 || resp.status == 183 {
                    self.enter(DialogState::Early(self.inner.id(), resp), InviteStep::Continue)
                } else if resp.status == 401 || resp.status == 407 {
                    self.challenged(progress, resp)
                } else {
                    self.finished(progress, original, resp)
                }
            },
        }
    }
    /// Builds the INVITE that answers a challenge, after
    /// [`InviteStep::Authenticate`]: `original` signed with the dialog's
    /// credential under the sequence number `seq`. `cnonce` is the
    /// client's nonce, which the owner draws at random.
    pub fn authorize(&self, original: &Request, challenge: &Response, seq: u32, cnonce: &str) -> (r:
        Result<Request, Error>)
        ensures
            match r {
                Ok(req) => answer_to(self@, original@, challenge@, seq, cnonce@) == Ok::<
                    RequestView,
                    ErrorView,
                >(req@),
                Err(e) => answer_to(self@, original@, challenge@, seq, cnonce@) == Err::<
                    RequestView,
                    ErrorView,
                >(e@),
            },
    {
        match &self.inner.credential {
            Some(credential) => authorize(original, challenge, credential, seq, cnonce),
            None => Err(Error::AuthError("no credential".to_owned())),
        }
    }

    /// Handles a request that arrived on the dialog.
    pub fn handle(&mut self, req: &Request) -> (h: Handled)
        ensures
            (final(self)@, h@) == client_handling(old(self)@, req@),
    {
        let cseq = match req.cseq() {
            Ok(n) => n,
            Err(e) => return Handled { action: Action::Nothing, error: Some(e) },
        };
        if !self.inner.observe_remote_seq(cseq) {
            return Handled { action: Action::Reply(500), error: None };
        }
        assert(self.inner@ == (DialogView { remote_seq: cseq, ..old(self)@ }));
        if self.inner.is_confirmed() {
            self.inner.handle_confirmed(req)
        } else {
            Handled { action: Action::Nothing, error: None }
        }
    }

    /// Builds the BYE of an established dialog; `None` where the dialog is
    /// not established. The owner sends it and reports the answer to
    /// [`ClientInviteDialog::bye_done`].
    pub fn bye(&mut self) -> (r: Option<Request>)
        ensures
            final(self)@ == bye_request(old(self)@).0,
            match r {
                Some(req) => bye_request(old(self)@).1 == Some(req@),
                None => bye_request(old(self)@).1.is_none(),
            },
    {
        self.inner.bye()
    }

    /// Ends the dialog once its BYE has been answered.
    pub fn bye_done(&mut self, status: Option<u16>) -> (r: Result<(), Error>)
        ensures
            final(self)@ == after_transition(
                old(self)@,
                DialogStateView::Terminated(old(self)@.id, status),
            ),
            r is Ok <==> !old(self)@.state.is_terminated(),
            r matches Err(e) ==> e@ == illegal_transition(old(self)@.id),
    {
        self.inner.bye_done(status)
    }

    /// Builds the CANCEL of the dialog's INVITE.
    pub fn cancel(&self) -> (r: Result<Request, Error>)
        ensures
            match r {
                Ok(req) => cancel_request(self@) == Ok::<RequestView, ErrorView>(req@),
                Err(e) => cancel_request(self@) == Err::<RequestView, ErrorView>(e@),
            },
    {
        let invite = &self.inner.initial_request;
        let cseq = match invite.header("CSeq") {
            None => return Err(Error::parse("missing header: CSeq")),
            Some(v) => match write_cseq_number(v, self.inner.get_local_seq()) {
                None => return Err(Error::parse("invalid header: CSeq")),
                Some(c) => c,
            },
        };
        let mut headers = duplicate_headers(&invite.headers);
        set_first(&mut headers, "CSeq", cseq);
        set_first(&mut headers, "Content-Length", String::from_str("0"));
        Ok(Request { method: Method::Cancel, uri: invite.uri.clone(), headers, body: Vec::new() })
    }

    /// Does nothing: a dialog that is not established has no session to
    /// negotiate again.
    pub fn reinvite(&self) -> (r: Result<(), Error>)
        requires
            !self@.state.is_confirmed(),
        ensures
            r is Ok,
    {
        Ok(())
    }

    /// Builds the INFO of an established dialog; `None` where the dialog
    /// is not established. The owner sends it and hands it to
    /// [`ClientInviteDialog::info_done`].
    pub fn info(&mut self) -> (r: Option<Request>)
        ensures
            final(self)@ == info_request(old(self)@).0,
            match r {
                Some(req) => info_request(old(self)@).1 == Some(req@),
                None => info_request(old(self)@).1.is_none(),
            },
    {
        self.inner.info()
    }

    /// Notes in the state the INFO that has been sent.
    pub fn info_done(&mut self, request: Request) -> (r: Result<(), Error>)
        ensures
            final(self)@ == after_transition(
                old(self)@,
                DialogStateView::Info(old(self)@.id, request@),
            ),
            r is Ok <==> !old(self)@.state.is_terminated(),
            r matches Err(e) ==> e@ == illegal_transition(old(self)@.id),
    {
        self.inner.transition(DialogState::Info(self.inner.id(), request))
    }
}

/// A request whose sequence number is below the highest seen is stale:
/// the caller's dialog answers it with 500 and stays as it is.
pub proof fn lemma_client_refuses_stale(d: DialogView, req: RequestView)
    requires
        cseq_of(req.headers) matches Ok(n) && n < d.remote_seq,
    ensures
        client_handling(d, req) == (
            d,
            HandledView { action: ActionView::Reply(500), error: None },
        ),
{
}

/// A request of the caller's dialog whose sequence number is not stale
/// makes that number the highest seen.
pub proof fn lemma_client_notes_fresh(d: DialogView, req: RequestView)
    requires
        cseq_of(req.headers) matches Ok(n) && n >= d.remote_seq,
    ensures
        client_handling(d, req).0.remote_seq == cseq_of(req.headers)->Ok_0,
        client_handling(d, req).0.remote_seq == max_seq(d.remote_seq, cseq_of(req.headers)->Ok_0),
{
}

/// Nothing that the caller's dialog does takes it out of `Terminated`.
pub proof fn lemma_client_terminated_stays(
    d: DialogView,
    p: ProgressView,
    original: RequestView,
    msg: SipMessageView,
    req: RequestView,
    next: DialogStateView,
)
    requires
        d.state.is_terminated(),
    ensures
        invite_step(d, p, original, msg).0.state == d.state,
        client_handling(d, req).0.state == d.state,
        after_transition(d, next).state == d.state,
        bye_request(d).0.state == d.state,
        info_request(d).0.state == d.state,
{
}

/// After a 2xx the identifier of the dialog is the one that the ACK
/// carries: where the step says to send an ACK from which an identifier
/// can be read, the dialog and the progress hold that identifier, and the
/// dialog is to be confirmed under it.
pub proof fn lemma_dialog_id_is_that_of_ack(
    d: DialogView,
    p: ProgressView,
    original: RequestView,
    msg: SipMessageView,
)
    ensures
        invite_step(d, p, original, msg).2 matches InviteStepView::Acknowledge { ack, next } ==> (
        dialog_id_of(ack) matches Ok(id) ==> {
            &&& invite_step(d, p, original, msg).0.id == id
            &&& invite_step(d, p, original, msg).1.dialog_id == id
            &&& next == DialogStateView::Confirmed(id)
        }),
{
}

/// A step of the INVITE enters `Confirmed` only after an ACK: the step
/// itself never confirms the dialog, and the state that follows an ACK is
/// `Confirmed` or `Terminated`.
pub proof fn lemma_confirmed_follows_the_ack(
    d: DialogView,
    p: ProgressView,
    original: RequestView,
    msg: SipMessageView,
)
    ensures
        invite_step(d, p, original, msg).0.state is Confirmed ==> d.state is Confirmed,
        invite_step(d, p, original, msg).2 matches InviteStepView::Acknowledge { next, .. }
            ==> next is Confirmed,
        invite_step(d, p, original, msg).2 matches InviteStepView::Reject { next, .. }
            ==> next is Terminated,
{
}

/// The dialog of the caller after a run of requests has been handled in
/// order.
pub open spec fn client_handled_all(d: DialogView, reqs: Seq<RequestView>) -> DialogView
    decreases reqs.len(),
{
    if reqs.len() == 0 {
        d
    } else {
        client_handled_all(client_handling(d, reqs[0]).0, reqs.drop_first())
    }
}

/// The sequence numbers of a run of requests, each of which has one.
pub open spec fn seqs_of(reqs: Seq<RequestView>) -> Seq<u32> {
    reqs.map_values(|r: RequestView| cseq_of(r.headers)->Ok_0)
}

/// After the caller's dialog has handled a run of requests, the highest
/// sequence number seen is the maximum of their numbers and of the
/// highest seen before.
pub proof fn lemma_client_remote_seq_after_run(d: DialogView, reqs: Seq<RequestView>)
    requires
        forall|i: int| 0 <= i < reqs.len() ==> cseq_of(#[trigger] reqs[i].headers) is Ok,
    ensures
        client_handled_all(d, reqs).remote_seq == remote_seq_after(d.remote_seq, seqs_of(reqs)),
    decreases reqs.len(),
{
    if reqs.len() > 0 {
        let next = client_handling(d, reqs[0]).0;
        let rest = reqs.drop_first();
        assert(cseq_of(reqs[0].headers) is Ok);
        assert forall|i: int| 0 <= i < rest.len() implies cseq_of(#[trigger] rest[i].headers)
            is Ok by {
            assert(rest[i] == reqs[i + 1]);
        }
        lemma_client_remote_seq_after_run(next, rest);
        assert(seqs_of(reqs).drop_first() =~= seqs_of(rest));
        assert(next.remote_seq == max_seq(d.remote_seq, seqs_of(reqs)[0]));
    }
}

} // verus!
