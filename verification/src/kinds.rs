//! A dialog of either side.

use crate::client::ClientInviteDialog;
use crate::dialog::DialogView;
use crate::dialog_id::DialogId;
use crate::error::{Error, ErrorView};
use crate::server::ServerInviteDialog;
use vstd::prelude::*;

verus! {

/// A dialog of either side.
#[derive(Clone, Debug, PartialEq, Eq)]
pub enum Dialog {
    ClientInvite(ClientInviteDialog),
    ServerInvite(ServerInviteDialog),
}

impl View for Dialog {
    type V = DialogView;

    open spec fn view(&self) -> DialogView {
        match self {
            Dialog::ClientInvite(d) => d@,
            Dialog::ServerInvite(d) => d@,
        }
    }
}

impl Dialog {
    /// The identifier of the dialog.
    pub fn id(&self) -> (id: DialogId)
        ensures
            id@ == self@.id,
    {
        match self {
            Dialog::ClientInvite(d) => d.id(),
            Dialog::ServerInvite(d) => d.id(),
        }
    }
}

impl ServerInviteDialog {
    /// The callee's dialog that `dlg` is; an error where it is the
    /// caller's.
    pub fn try_from(dlg: &Dialog) -> (r: Result<&ServerInviteDialog, Error>)
        ensures
            match r {
                Ok(s) => *dlg == Dialog::ServerInvite(*s),
                Err(e) => dlg is ClientInvite && e@ == ErrorView::DialogError(
                    "Dialog is not a ServerInviteDialog"@,
                    dlg@.id,
                ),
            },
    {
        match dlg {
            Dialog::ServerInvite(s) => Ok(s),
            Dialog::ClientInvite(_) => Err(
                Error::dialog("Dialog is not a ServerInviteDialog", dlg.id()),
            ),
        }
    }
}

impl ClientInviteDialog {
    /// The caller's dialog that `dlg` is; an error where it is the
    /// callee's.
    pub fn try_from(dlg: &Dialog) -> (r: Result<&ClientInviteDialog, Error>)
        ensures
            match r {
                Ok(c) => *dlg == Dialog::ClientInvite(*c),
                Err(e) => dlg is ServerInvite && e@ == ErrorView::DialogError(
                    "Dialog is not a ClientInviteDialog"@,
                    dlg@.id,
                ),
            },
    {
        match dlg {
            Dialog::ClientInvite(c) => Ok(c),
            Dialog::ServerInvite(_) => Err(
                Error::dialog("Dialog is not a ClientInviteDialog", dlg.id()),
            ),
        }
    }
}

} // verus!
