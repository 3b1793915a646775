//! The identifier of a dialog.

use crate::error::{Error, ErrorView};
use crate::message::{header_value, Request, RequestView};
use crate::typed::{from_tag_of, read_from_tag, read_to_tag, to_tag_of, Lookup, LookupView};
use vstd::prelude::*;

verus! {

/// The triple that identifies a dialog: the call identifier, the local tag
/// and the remote tag. The remote tag is empty until the peer has chosen
/// one.
#[derive(Clone, Debug, Hash)]
pub struct DialogId {
    pub call_id: String,
    pub from_tag: String,
    pub to_tag: String,
}

/// What a [`DialogId`] is in contracts.
pub struct DialogIdView {
    pub call_id: Seq<char>,
    pub from_tag: Seq<char>,
    pub to_tag: Seq<char>,
}

impl View for DialogId {
    type V = DialogIdView;

    open spec fn view(&self) -> DialogIdView {
        DialogIdView { call_id: self.call_id@, from_tag: self.from_tag@, to_tag: self.to_tag@ }
    }
}

/// The identifier that a request carries, or the error that says what the
/// request lacks: the value of `Call-ID`, the tag of `From`, which must be
/// there, and the tag of `To`, empty where there is none.
pub open spec fn dialog_id_of(req: RequestView) -> Result<DialogIdView, ErrorView> {
    match header_value(req.headers, "Call-ID"@) {
        None => Err(ErrorView::ParseError("missing header: Call-ID"@)),
        Some(call_id) => match header_value(req.headers, "From"@) {
            None => Err(ErrorView::ParseError("missing header: From"@)),
            Some(from) => match from_tag_of(from) {
                LookupView::Invalid => Err(ErrorView::ParseError("invalid header: From"@)),
                LookupView::Absent => Err(ErrorView::ParseError("from tag not found"@)),
                LookupView::Found(from_tag) => match header_value(req.headers, "To"@) {
                    None => Err(ErrorView::ParseError("missing header: To"@)),
                    Some(to) => match to_tag_of(to) {
                        LookupView::Invalid => Err(ErrorView::ParseError("invalid header: To"@)),
                        LookupView::Absent => Ok(
                            DialogIdView { call_id, from_tag, to_tag: Seq::empty() },
                        ),
                        LookupView::Found(to_tag) => Ok(DialogIdView { call_id, from_tag, to_tag }),
                    },
                },
            },
        },
    }
}

impl DialogId {
    pub fn new(call_id: &str, from_tag: &str, to_tag: &str) -> (id: DialogId)
        ensures
            id@ == (DialogIdView { call_id: call_id@, from_tag: from_tag@, to_tag: to_tag@ }),
    {
        DialogId {
            call_id: call_id.to_owned(),
            from_tag: from_tag.to_owned(),
            to_tag: to_tag.to_owned(),
        }
    }

    /// A copy of the identifier.
    pub fn duplicate(&self) -> (id: DialogId)
        ensures
            id@ == self@,
    {
        DialogId {
            call_id: self.call_id.clone(),
            from_tag: self.from_tag.clone(),
            to_tag: self.to_tag.clone(),
        }
    }

    /// Whether the two identifiers agree in all three parts.
    pub fn same(&self, other: &DialogId) -> (b: bool)
        ensures
            b == (self@ == other@),
    {
        self.call_id == other.call_id && self.from_tag == other.from_tag && self.to_tag
            == other.to_tag
    }

    /// The identifier that `req` carries.
    pub fn from_request(req: &Request) -> (r: Result<DialogId, Error>)
        ensures
            match r {
                Ok(id) => dialog_id_of(req@) == Ok::<DialogIdView, ErrorView>(id@),
                Err(e) => dialog_id_of(req@) == Err::<DialogIdView, ErrorView>(e@),
            },
    {
        let call_id = match req.header("Call-ID") {
            Some(v) => v.to_owned(),
            None => return Err(Error::parse("missing header: Call-ID")),
        };
        let from_tag = match req.header("From") {
            None => return Err(Error::parse("missing header: From")),
            Some(v) => match read_from_tag(v) {
                Lookup::Invalid => return Err(Error::parse("invalid header: From")),
                Lookup::Absent => return Err(Error::parse("from tag not found")),
                Lookup::Found(t) => t,
            },
        };
        let to_tag = match req.header("To") {
            None => return Err(Error::parse("missing header: To")),
            Some(v) => match read_to_tag(v) {
                Lookup::Invalid => return Err(Error::parse("invalid header: To")),
                Lookup::Absent => String::new(),
                Lookup::Found(t) => t,
            },
        };
        Ok(DialogId { call_id, from_tag, to_tag })
    }
}

impl PartialEq for DialogId {
    fn eq(&self, other: &DialogId) -> (b: bool) {
        self.same(other)
    }
}

impl Eq for DialogId {}

impl vstd::std_specs::cmp::PartialEqSpecImpl for DialogId {
    open spec fn obeys_eq_spec() -> bool {
        true
    }

    open spec fn eq_spec(&self, other: &DialogId) -> bool {
        self@ == other@
    }
}

} // verus!
