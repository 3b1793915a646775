//! The callee's side of an INVITE dialog.
//!
//! The dialog performs no I/O. Its owner hands it the requests that arrive
//! and the messages of the INVITE transaction, and does what the returned
//! values say.

use crate::dialog::{
    after_transition, built_response, bye_request, entered, handle_confirmed, handle_sequenced,
    illegal_transition, info_request, optional_body, optional_headers, Action, ActionView,
    DialogInner, DialogView, Handled, HandledView,
};
use crate::dialog_id::{DialogId, DialogIdView};
use crate::error::{Error, ErrorView};
use crate::message::{
    Header, HeaderView, Method, Request, RequestView, Response, ResponseView, SipMessage,
    SipMessageView,
};
use crate::state::{transition_allowed, DialogState, DialogStateView};
use vstd::prelude::*;

verus! {

/// The answer to the INVITE: the response to hand to the transaction,
/// and the state to enter with [`ServerInviteDialog::answered`] once that
/// is done, if any.
#[derive(Clone, Debug, PartialEq, Eq)]
pub struct Answered {
    pub respond: Response,
    pub next: Option<DialogState>,
}

/// What an [`Answered`] is in contracts.
pub struct AnsweredView {
    pub respond: ResponseView,
    pub next: Option<DialogStateView>,
}

impl View for Answered {
    type V = AnsweredView;

    open spec fn view(&self) -> AnsweredView {
        AnsweredView {
            respond: self.respond@,
            next: match self.next {
                Some(s) => Some(s@),
                None => None,
            },
        }
    }
}

/// What the owner does after one message of the callee's INVITE
/// transaction.
#[derive(Clone, Debug, PartialEq, Eq)]
pub enum ServerStep {
    /// Go on receiving.
    Continue,
    /// Reply with the status, then enter `next` with
    /// [`ServerInviteDialog::answered`] and go on receiving.
    Reply { status: u16, next: DialogState },
    /// Give up with the error.
    Fail(Error),
}

/// What a [`ServerStep`] is in contracts.
pub enum ServerStepView {
    Continue,
    Reply { status: u16, next: DialogStateView },
    Fail(ErrorView),
}

impl View for ServerStep {
    type V = ServerStepView;

    open spec fn view(&self) -> ServerStepView {
        match self {
            ServerStep::Continue => ServerStepView::Continue,
            ServerStep::Reply { status, next } => ServerStepView::Reply {
                status: *status,
                next: next@,
            },
            ServerStep::Fail(e) => ServerStepView::Fail(e@),
        }
    }
}

/// The dialog once no transaction is live on it.
pub open spec fn released(d: DialogView) -> DialogView {
    DialogView { has_transaction: false, ..d }
}

/// The dialog once a transaction is live on it.
pub open spec fn engaged(d: DialogView) -> DialogView {
    DialogView { has_transaction: true, ..d }
}

/// What the callee's dialog does with a request that arrives on it.
///
/// A stale request is dropped. On the established dialog a fresh request
/// is handled. Before that, an ACK goes to the live INVITE transaction,
/// where there is one, and every other request is run as the dialog's
/// INVITE transaction.
pub open spec fn server_handling(d: DialogView, req: RequestView) -> (DialogView, HandledView) {
    handle_sequenced(
        d,
        req,
        ActionView::Nothing,
        |noted: DialogView|
            if noted.state.is_confirmed() {
                handle_confirmed(noted, req)
            } else if req.method == Method::Ack {
                (
                    noted,
                    HandledView {
                        action: if noted.has_transaction {
                            ActionView::Forward
                        } else {
                            ActionView::Nothing
                        },
                        error: None,
                    },
                )
            } else {
                (noted, HandledView { action: ActionView::Invite, error: None })
            },
    )
}

/// The message of the error that a second transaction on a dialog
/// returns.
pub open spec fn transaction_in_progress(id: DialogIdView) -> ErrorView {
    ErrorView::DialogError("transaction already in progress"@, id)
}

/// The start of the INVITE transaction on the callee's dialog, with
/// whether a 100 is to be sent, or the error that leaves the dialog as it
/// is. A dialog holds one transaction at a time. A dialog that is not
/// established enters `Calling` and sends 100.
pub open spec fn invite_begun(d: DialogView) -> Result<(DialogView, bool), ErrorView> {
    let calling = DialogStateView::Calling(d.id);
    if d.has_transaction {
        Err(transaction_in_progress(d.id))
    } else if d.state.is_confirmed() {
        Ok((engaged(d), false))
    } else if transition_allowed(d.state, calling) {
        Ok((entered(engaged(d), calling), true))
    } else {
        Err(illegal_transition(d.id))
    }
}

/// The step of the callee's dialog on one message of its INVITE
/// transaction: an ACK confirms the dialog; a CANCEL is answered with 487,
/// after which the dialog terminates; everything else is passed over.
pub open spec fn invite_received(d: DialogView, msg: SipMessageView) -> (
    DialogView,
    ServerStepView,
) {
    match msg {
        SipMessageView::Response(_) => (d, ServerStepView::Continue),
        SipMessageView::Request(req) => if req.method == Method::Ack {
            let next = DialogStateView::Confirmed(d.id);
            if transition_allowed(d.state, next) {
                (entered(d, next), ServerStepView::Continue)
            } else {
                (d, ServerStepView::Fail(illegal_transition(d.id)))
            }
        } else if req.method == Method::Cancel {
            (
                d,
                ServerStepView::Reply {
                    status: 487,
                    next: DialogStateView::Terminated(d.id, Some(487)),
                },
            )
        } else {
            (d, ServerStepView::Continue)
        },
    }
}

/// The message of the error that answering without a live transaction
/// returns.
pub open spec fn no_transaction(id: DialogIdView) -> ErrorView {
    ErrorView::DialogError("already terminated"@, id)
}

/// Accepting the INVITE: the 200 to the INVITE goes to the transaction,
/// then the dialog waits for the ACK. Without a live transaction there is
/// no answer.
pub open spec fn accepted(d: DialogView, headers: Seq<HeaderView>, body: Seq<u8>) -> Result<
    AnsweredView,
    ErrorView,
> {
    if !d.has_transaction {
        Err(no_transaction(d.id))
    } else {
        let resp = built_response(d, d.initial_request, 200, headers, body);
        Ok(AnsweredView { respond: resp, next: Some(DialogStateView::WaitAck(d.id, resp)) })
    }
}

/// Declining the INVITE: the 603 to the INVITE goes to the transaction;
/// the state is left to the transaction's end. Without a live transaction
/// there is no answer.
pub open spec fn rejected(d: DialogView) -> Result<AnsweredView, ErrorView> {
    if !d.has_transaction {
        Err(no_transaction(d.id))
    } else {
        Ok(
            AnsweredView {
                respond: built_response(d, d.initial_request, 603, Seq::empty(), Seq::empty()),
                next: None,
            },
        )
    }
}

/// The callee's side of an INVITE dialog.
#[derive(Clone, Debug, PartialEq, Eq)]
pub struct ServerInviteDialog {
    pub inner: DialogInner,
}

impl View for ServerInviteDialog {
    type V = DialogView;

    open spec fn view(&self) -> DialogView {
        self.inner@
    }
}

impl ServerInviteDialog {
    /// The identifier of the dialog.
    pub fn id(&self) -> (id: DialogId)
        ensures
            id@ == self@.id,
    {
        self.inner.id()
    }

    /// The INVITE that created the dialog.
    pub fn initial_request(&self) -> (req: &Request)
        ensures
            req@ == self@.initial_request,
    {
        &self.inner.initial_request
    }

    /// Accepts the INVITE with a 200 that carries the given headers and
    /// body.
    pub fn accept(&self, headers: Option<Vec<Header>>, body: Option<Vec<u8>>) -> (r: Result<
        Answered,
        Error,
    >)
        ensures
            match r {
                Ok(a) => accepted(self@, optional_headers(headers), optional_body(body)) == Ok::<
                    AnsweredView,
                    ErrorView,
                >(a@),
                Err(e) => accepted(self@, optional_headers(headers), optional_body(body)) == Err::<
                    AnsweredView,
                    ErrorView,
                >(e@),
            },
    {
        if !self.inner.has_transaction {
            return Err(Error::dialog("already terminated", self.inner.id()));
        }
        let resp = self.inner.make_response(&self.inner.initial_request, 200, headers, body);
        let kept = resp.duplicate();
        Ok(Answered { respond: resp, next: Some(DialogState::WaitAck(self.inner.id(), kept)) })
    }

    /// Declines the INVITE with a 603.
    pub fn reject(&self) -> (r: Result<Answered, Error>)
        ensures
            match r {
                Ok(a) => rejected(self@) == Ok::<AnsweredView, ErrorView>(a@),
                Err(e) => rejected(self@) == Err::<AnsweredView, ErrorView>(e@),
            },
    {
        if !self.inner.has_transaction {
            return Err(Error::dialog("already terminated", self.inner.id()));
        }
        let resp = self.inner.make_response(&self.inner.initial_request, 603, None, None);
        Ok(Answered { respond: resp, next: None })
    }

    /// Enters the state that an answer or a step named, once the response
    /// has been handed on.
    pub fn answered(&mut self, next: DialogState) -> (r: Result<(), Error>)
        ensures
            final(self)@ == after_transition(old(self)@, next@),
            r is Ok <==> transition_allowed(old(self)@.state, next@),
            r matches Err(e) ==> e@ == illegal_transition(old(self)@.id),
    {
        self.inner.transition(next)
    }

    /// Builds the BYE of an established dialog; `None` where the dialog is
    /// not established. The owner sends it and reports the answer to
    /// [`ServerInviteDialog::bye_done`].
    pub fn bye(&mut self) -> (r: Option<Request>)
        ensures
            final(self)@ == bye_request(old(self)@).0,
            match r {
                Some(req) => bye_request(old(self)@).1 == Some(req@),
                None => bye_request(old(self)@).1.is_none(),
            },
    {
        self.inner.bye()
    }

    /// Ends the dialog once its BYE has been answered.
    pub fn bye_done(&mut self, status: Option<u16>) -> (r: Result<(), Error>)
        ensures
            final(self)@ == after_transition(
                old(self)@,
                DialogStateView::Terminated(old(self)@.id, status),
            ),
            r is Ok <==> !old(self)@.state.is_terminated(),
            r matches Err(e) ==> e@ == illegal_transition(old(self)@.id),
    {
        self.inner.bye_done(status)
    }

    /// Builds the INFO of an established dialog; `None` where the dialog
    /// is not established.
    pub fn info(&mut self) -> (r: Option<Request>)
        ensures
            final(self)@ == info_request(old(self)@).0,
            match r {
                Some(req) => info_request(old(self)@).1 == Some(req@),
                None => info_request(old(self)@).1.is_none(),
            },
    {
        self.inner.info()
    }

    /// Handles a request that arrived on the dialog.
    pub fn handle(&mut self, req: &Request) -> (h: Handled)
        ensures
            (final(self)@, h@) == server_handling(old(self)@, req@),
    {
        let cseq = match req.cseq() {
            Ok(n) => n,
            Err(e) => return Handled { action: Action::Nothing, error: Some(e) },
        };
        if !self.inner.observe_remote_seq(cseq) {
            return Handled { action: Action::Nothing, error: None };
        }
        assert(self.inner@ == (DialogView { remote_seq: cseq, ..old(self)@ }));
        if self.inner.is_confirmed() {
            return self.inner.handle_confirmed(req);
        }
        match req.method {
            Method::Ack => Handled {
                action: if self.inner.has_transaction {
                    Action::Forward
                } else {
                    Action::Nothing
                },
                error: None,
            },
            _ => Handled { action: Action::Invite, error: None },
        }
    }

    /// Starts the INVITE transaction on the dialog. `Ok(true)` says to
    /// send 100.
    pub fn begin_invite(&mut self) -> (r: Result<bool, Error>)
        ensures
            match r {
                Ok(trying) => invite_begun(old(self)@) == Ok::<(DialogView, bool), ErrorView>(
                    (final(self)@, trying),
                ),
                Err(e) => invite_begun(old(self)@) == Err::<(DialogView, bool), ErrorView>(e@)
                    && final(self)@ == old(self)@,
            },
    {
        if self.inner.has_transaction {
            return Err(Error::dialog("transaction already in progress", self.inner.id()));
        }
        if self.inner.is_confirmed() {
            self.inner.has_transaction = true;
            return Ok(false);
        }
        match self.inner.transition(DialogState::Calling(self.inner.id())) {
            Ok(()) => {
                self.inner.has_transaction = true;
                Ok(true)
            },
            Err(e) => Err(e),
        }
    }

    /// Takes one message of the INVITE transaction and says what to do.
    pub fn on_invite_message(&mut self, msg: &SipMessage) -> (step: ServerStep)
        ensures
            (final(self)@, step@) == invite_received(old(self)@, msg@),
    {
        match msg {
            SipMessage::Response(_) => ServerStep::Continue,
            SipMessage::Request(req) => match req.method {
                Method::Ack => match self.inner.transition(
                    DialogState::Confirmed(self.inner.id()),
                ) {
                    Ok(()) => ServerStep::Continue,
                    Err(e) => ServerStep::Fail(e),
                },
                Method::Cancel => ServerStep::Reply {
                    status: 487,
                    next: DialogState::Terminated(self.inner.id(), Some(487)),
                },
                _ => ServerStep::Continue,
            },
        }
    }

    /// Lets the INVITE transaction go once it has ended.
    pub fn end_invite(&mut self)
        ensures
            final(self)@ == released(old(self)@),
    {
        self.inner.has_transaction = false;
    }
}

/// A request whose sequence number is below the highest seen is stale:
/// the callee's dialog drops it and stays as it is.
pub proof fn lemma_server_drops_stale(d: DialogView, req: RequestView)
    requires
        crate::message::cseq_of(req.headers) matches Ok(n) && n < d.remote_seq,
    ensures
        server_handling(d, req) == (
            d,
            HandledView { action: ActionView::Nothing, error: None },
        ),
{
}

/// A request of the callee's dialog whose sequence number is not stale
/// makes that number the highest seen.
pub proof fn lemma_server_notes_fresh(d: DialogView, req: RequestView)
    requires
        crate::message::cseq_of(req.headers) matches Ok(n) && n >= d.remote_seq,
    ensures
        server_handling(d, req).0.remote_seq == crate::message::cseq_of(req.headers)->Ok_0,
{
}

/// Nothing that the callee's dialog does takes it out of `Terminated`.
pub proof fn lemma_server_terminated_stays(
    d: DialogView,
    msg: SipMessageView,
    req: RequestView,
    next: DialogStateView,
)
    requires
        d.state.is_terminated(),
    ensures
        server_handling(d, req).0.state == d.state,
        invite_begun(d) matches Ok(begun) ==> begun.0.state == d.state,
        invite_received(d, msg).0.state == d.state,
        after_transition(d, next).state == d.state,
        released(d).state == d.state,
        bye_request(d).0.state == d.state,
        info_request(d).0.state == d.state,
{
}

/// The callee's dialog is confirmed by the receipt of an ACK and by
/// nothing else that arrives on its INVITE transaction.
pub proof fn lemma_confirmed_follows_the_receipt_of_ack(d: DialogView, msg: SipMessageView)
    requires
        !(d.state is Confirmed),
        invite_received(d, msg).0.state is Confirmed,
    ensures
        msg matches SipMessageView::Request(req) && req.method == Method::Ack,
{
}

/// The dialog of the callee after a run of requests has been handled in
/// order.
pub open spec fn server_handled_all(d: DialogView, reqs: Seq<RequestView>) -> DialogView
    decreases reqs.len(),
{
    if reqs.len() == 0 {
        d
    } else {
        server_handled_all(server_handling(d, reqs[0]).0, reqs.drop_first())
    }
}

/// After the callee's dialog has handled a run of requests, the highest
/// sequence number seen is the maximum of their numbers and of the
/// highest seen before.
pub proof fn lemma_server_remote_seq_after_run(d: DialogView, reqs: Seq<RequestView>)
    requires
        forall|i: int|
            0 <= i < reqs.len() ==> crate::message::cseq_of(#[trigger] reqs[i].headers) is Ok,
    ensures
        server_handled_all(d, reqs).remote_seq == crate::dialog::remote_seq_after(
            d.remote_seq,
            crate::client::seqs_of(reqs),
        ),
    decreases reqs.len(),
{
    if reqs.len() > 0 {
        let next = server_handling(d, reqs[0]).0;
        let rest = reqs.drop_first();
        assert(crate::message::cseq_of(reqs[0].headers) is Ok);
        assert forall|i: int| 0 <= i < rest.len() implies crate::message::cseq_of(
            #[trigger] rest[i].headers,
        ) is Ok by {
            assert(rest[i] == reqs[i + 1]);
        }
        lemma_server_remote_seq_after_run(next, rest);
        assert(crate::client::seqs_of(reqs).drop_first() =~= crate::client::seqs_of(rest));
        assert(next.remote_seq == crate::dialog::max_seq(
            d.remote_seq,
            crate::client::seqs_of(reqs)[0],
        ));
    }
}

} // verus!
