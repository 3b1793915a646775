//! The states of a dialog and the rule that says which transitions
//! between them are taken.

use crate::dialog_id::{DialogId, DialogIdView};
use crate::message::{Request, RequestView, Response, ResponseView};
use vstd::prelude::*;

verus! {

/// The state of an INVITE dialog. Every state carries the identifier that
/// the dialog had when it entered the state.
#[derive(Clone, Debug, PartialEq, Eq)]
pub enum DialogState {
    /// The INVITE is out and nothing has come back.
    Calling(DialogId),
    /// A 100 has arrived.
    Trying(DialogId),
    /// A 180 or 183 has arrived; it is kept.
    Early(DialogId, Response),
    /// This side has sent the 2xx that is kept and waits for the ACK.
    WaitAck(DialogId, Response),
    /// The dialog is established.
    Confirmed(DialogId),
    /// An INFO was seen on the established dialog.
    Info(DialogId, Request),
    /// An OPTIONS was seen on the established dialog.
    Options(DialogId, Request),
    /// The dialog has ended, with the final status if there was one.
    Terminated(DialogId, Option<u16>),
}

/// What a [`DialogState`] is in contracts.
pub enum DialogStateView {
    Calling(DialogIdView),
    Trying(DialogIdView),
    Early(DialogIdView, ResponseView),
    WaitAck(DialogIdView, ResponseView),
    Confirmed(DialogIdView),
    Info(DialogIdView, RequestView),
    Options(DialogIdView, RequestView),
    Terminated(DialogIdView, Option<u16>),
}

impl View for DialogState {
    type V = DialogStateView;

    open spec fn view(&self) -> DialogStateView {
        match self {
            DialogState::Calling(id) => DialogStateView::Calling(id@),
            DialogState::Trying(id) => DialogStateView::Trying(id@),
            DialogState::Early(id, r) => DialogStateView::Early(id@, r@),
            DialogState::WaitAck(id, r) => DialogStateView::WaitAck(id@, r@),
            DialogState::Confirmed(id) => DialogStateView::Confirmed(id@),
            DialogState::Info(id, r) => DialogStateView::Info(id@, r@),
            DialogState::Options(id, r) => DialogStateView::Options(id@, r@),
            DialogState::Terminated(id, s) => DialogStateView::Terminated(id@, *s),
        }
    }
}

impl DialogStateView {
    /// The dialog is established: `Confirmed`, `Info` or `Options`.
    pub open spec fn is_confirmed(self) -> bool {
        self is Confirmed || self is Info || self is Options
    }

    /// The dialog has ended.
    pub open spec fn is_terminated(self) -> bool {
        self is Terminated
    }

    /// The states from which a dialog may become `Confirmed`.
    pub open spec fn may_confirm(self) -> bool {
        self is Calling || self is Trying || self is Early || self is WaitAck
    }

    /// The identifier that the state carries.
    pub open spec fn id(self) -> DialogIdView {
        match self {
            DialogStateView::Calling(id) => id,
            DialogStateView::Trying(id) => id,
            DialogStateView::Early(id, _) => id,
            DialogStateView::WaitAck(id, _) => id,
            DialogStateView::Confirmed(id) => id,
            DialogStateView::Info(id, _) => id,
            DialogStateView::Options(id, _) => id,
            DialogStateView::Terminated(id, _) => id,
        }
    }
}

/// Whether a dialog in state `current` takes the transition to `next`:
/// nothing leaves `Terminated`, and `Confirmed` is entered only from
/// `Calling`, `Trying`, `Early` or `WaitAck`.
pub open spec fn transition_allowed(current: DialogStateView, next: DialogStateView) -> bool {
    &&& !current.is_terminated()
    &&& next is Confirmed ==> current.may_confirm()
}

/// The state after the attempt to go from `current` to `next`.
pub open spec fn state_after(current: DialogStateView, next: DialogStateView) -> DialogStateView {
    if transition_allowed(current, next) {
        next
    } else {
        current
    }
}

impl DialogState {
    /// A copy of the state.
    pub fn duplicate(&self) -> (s: DialogState)
        ensures
            s@ == self@,
    {
        match self {
            DialogState::Calling(id) => DialogState::Calling(id.duplicate()),
            DialogState::Trying(id) => DialogState::Trying(id.duplicate()),
            DialogState::Early(id, r) => DialogState::Early(id.duplicate(), r.duplicate()),
            DialogState::WaitAck(id, r) => DialogState::WaitAck(id.duplicate(), r.duplicate()),
            DialogState::Confirmed(id) => DialogState::Confirmed(id.duplicate()),
            DialogState::Info(id, r) => DialogState::Info(id.duplicate(), r.duplicate()),
            DialogState::Options(id, r) => DialogState::Options(id.duplicate(), r.duplicate()),
            DialogState::Terminated(id, s) => DialogState::Terminated(id.duplicate(), *s),
        }
    }

    /// The identifier that the state carries.
    pub fn id(&self) -> (id: &DialogId)
        ensures
            id@ == self@.id(),
    {
        match self {
            DialogState::Calling(id) => id,
            DialogState::Trying(id) => id,
            DialogState::Early(id, _) => id,
            DialogState::WaitAck(id, _) => id,
            DialogState::Confirmed(id) => id,
            DialogState::Info(id, _) => id,
            DialogState::Options(id, _) => id,
            DialogState::Terminated(id, _) => id,
        }
    }

    /// Whether the dialog is established.
    pub fn is_confirmed(&self) -> (b: bool)
        ensures
            b == self@.is_confirmed(),
    {
        match self {
            DialogState::Confirmed(_) | DialogState::Info(_, _) | DialogState::Options(_, _) => true,
            _ => false,
        }
    }

    /// Whether the dialog has ended.
    pub fn is_terminated(&self) -> (b: bool)
        ensures
            b == self@.is_terminated(),
    {
        match self {
            DialogState::Terminated(_, _) => true,
            _ => false,
        }
    }

    /// Whether the dialog may become `Confirmed` from this state.
    pub fn may_confirm(&self) -> (b: bool)
        ensures
            b == self@.may_confirm(),
    {
        match self {
            DialogState::Calling(_)
            | DialogState::Trying(_)
            | DialogState::Early(_, _)
            | DialogState::WaitAck(_, _) => true,
            _ => false,
        }
    }

    /// Whether a dialog in this state takes the transition to `next`.
    pub fn allows(&self, next: &DialogState) -> (b: bool)
        ensures
            b == transition_allowed(self@, next@),
    {
        if self.is_terminated() {
            return false;
        }
        match next {
            DialogState::Confirmed(_) => self.may_confirm(),
            _ => true,
        }
    }
}

/// `Terminated` is absorbing: whatever transition is attempted from it, the
/// state stays what it was.
pub proof fn lemma_terminated_is_absorbing(current: DialogStateView, next: DialogStateView)
    requires
        current.is_terminated(),
    ensures
        !transition_allowed(current, next),
        state_after(current, next) == current,
{
}

/// The state after a run of attempted transitions, taken in order.
pub open spec fn state_after_all(current: DialogStateView, attempts: Seq<DialogStateView>)
    -> DialogStateView
    decreases attempts.len(),
{
    if attempts.len() == 0 {
        current
    } else {
        state_after_all(state_after(current, attempts[0]), attempts.drop_first())
    }
}

/// Once a dialog is `Terminated`, no run of further transitions alters its
/// state.
pub proof fn lemma_terminated_stays(current: DialogStateView, attempts: Seq<DialogStateView>)
    requires
        current.is_terminated(),
    ensures
        state_after_all(current, attempts) == current,
    decreases attempts.len(),
{
    if attempts.len() > 0 {
        lemma_terminated_stays(current, attempts.drop_first());
    }
}

} // verus!
