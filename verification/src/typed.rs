//! Reading and writing the typed parts of header values.
//!
//! The grammar of header values is that of the `rsip` crate. Each function
//! here hands one value to `rsip` and returns what it read as plain values.
//! What `rsip` reads is a function of the value alone, so each result has a
//! name that contracts can speak of; nothing is proved of the names.

use vstd::prelude::*;

verus! {

/// The outcome of looking for a parameter in a header value.
#[derive(Clone, Debug, PartialEq, Eq)]
pub enum Lookup {
    /// The value is not a well-formed value of its header.
    Invalid,
    /// The value is well formed and has no such parameter.
    Absent,
    /// The parameter's value.
    Found(String),
}

/// What a [`Lookup`] is in contracts.
pub enum LookupView {
    Invalid,
    Absent,
    Found(Seq<char>),
}

impl View for Lookup {
    type V = LookupView;

    open spec fn view(&self) -> LookupView {
        match self {
            Lookup::Invalid => LookupView::Invalid,
            Lookup::Absent => LookupView::Absent,
            Lookup::Found(s) => LookupView::Found(s@),
        }
    }
}

/// The sequence number that `rsip` reads from the value of a `CSeq`
/// header, or `None` where it reads none.
pub uninterp spec fn cseq_number_of(value: Seq<char>) -> Option<u32>;

/// The `tag` parameter that `rsip` finds in the value of a `To` header.
pub uninterp spec fn to_tag_of(value: Seq<char>) -> LookupView;

/// The `tag` parameter that `rsip` finds in the value of a `From` header.
pub uninterp spec fn from_tag_of(value: Seq<char>) -> LookupView;

/// The `branch` parameter that `rsip` finds in the value of a `Via` header.
pub uninterp spec fn via_branch_of(value: Seq<char>) -> LookupView;

/// The value of a `To` header that `rsip` writes after it has set the
/// `tag` parameter of `value` to `tag`, or `None` where it cannot read
/// `value`.
pub uninterp spec fn to_with_tag_of(value: Seq<char>, tag: Seq<char>) -> Option<Seq<char>>;

/// The status line text that `rsip` prints for a status code: the code, a
/// space and the name that `rsip` has for it.
pub uninterp spec fn status_text_of(code: u16) -> Seq<char>;

/// The URI that `rsip` reads from the value of a `Contact` header, as
/// `rsip` prints it, or `None` where it reads none.
pub uninterp spec fn contact_uri_of(value: Seq<char>) -> Option<Seq<char>>;

/// Calls `rsip::headers::Contact::uri` on a `Contact` header with the
/// given value and prints the URI, `None` where `rsip` returned an error.
#[verifier::external_body]
pub(crate) fn read_contact_uri(value: &str) -> (r: Option<String>)
    ensures
        match r {
            Some(s) => contact_uri_of(value@) == Some(s@),
            None => contact_uri_of(value@).is_none(),
        },
{
    rsip::headers::Contact::from(value).uri().ok().map(|u| u.to_string())
}

/// The value of a `CSeq` header that `rsip` writes after it has set the
/// number in `value` to `seq`, or `None` where it cannot read `value`.
pub uninterp spec fn cseq_with_number_of(value: Seq<char>, seq: u32) -> Option<Seq<char>>;

/// Calls `rsip::headers::CSeq::mut_seq` on a `CSeq` header with the given
/// value and returns the new value's text, `None` where `rsip` returned an
/// error.
#[verifier::external_body]
pub(crate) fn write_cseq_number(value: &str, seq: u32) -> (r: Option<String>)
    ensures
        match r {
            Some(s) => cseq_with_number_of(value@, seq) == Some(s@),
            None => cseq_with_number_of(value@, seq).is_none(),
        },
{
    let mut header = rsip::headers::CSeq::from(value);
    header.mut_seq(seq).ok()?;
    Some(String::from(header))
}

/// Calls `rsip::headers::CSeq::seq` on a `CSeq` header with the given
/// value. The result is the number `rsip` parsed, `None` where it returned
/// an error.
#[verifier::external_body]
pub(crate) fn read_cseq_number(value: &str) -> (r: Option<u32>)
    ensures
        r == cseq_number_of(value@),
{
    rsip::headers::CSeq::from(value).seq().ok()
}

/// Calls `rsip::headers::To::tag` on a `To` header with the given value.
/// `Invalid` stands for the error that `rsip` returned, `Absent` for
/// `Ok(None)`, `Found` holds the tag's text.
#[verifier::external_body]
pub(crate) fn read_to_tag(value: &str) -> (r: Lookup)
    ensures
        r@ == to_tag_of(value@),
{
    match rsip::headers::To::from(value).tag() {
        Ok(Some(tag)) => Lookup::Found(tag.value().to_string()),
        Ok(None) => Lookup::Absent,
        Err(_) => Lookup::Invalid,
    }
}

/// Calls `rsip::headers::From::tag` on a `From` header with the given
/// value. `Invalid` stands for the error that `rsip` returned, `Absent`
/// for `Ok(None)`, `Found` holds the tag's text.
#[verifier::external_body]
pub(crate) fn read_from_tag(value: &str) -> (r: Lookup)
    ensures
        r@ == from_tag_of(value@),
{
    match rsip::headers::From::from(value).tag() {
        Ok(Some(tag)) => Lookup::Found(tag.value().to_string()),
        Ok(None) => Lookup::Absent,
        Err(_) => Lookup::Invalid,
    }
}

/// Calls `rsip::headers::Via::params` on a `Via` header with the given
/// value and picks the first `branch` parameter. `Invalid` stands for the
/// error that `rsip` returned, `Absent` for a list without a branch.
#[verifier::external_body]
pub(crate) fn read_via_branch(value: &str) -> (r: Lookup)
    ensures
        r@ == via_branch_of(value@),
{
    match rsip::headers::Via::from(value).params() {
        Ok(params) => match params.into_iter().find(|p| matches!(p, rsip::Param::Branch(_))) {
            Some(rsip::Param::Branch(b)) => Lookup::Found(b.value().to_string()),
            _ => Lookup::Absent,
        },
        Err(_) => Lookup::Invalid,
    }
}

/// Calls `rsip::headers::To::with_tag` on a `To` header with the given
/// value and returns the new value's text, `None` where `rsip` returned an
/// error.
#[verifier::external_body]
pub(crate) fn write_to_tag(value: &str, tag: &str) -> (r: Option<String>)
    ensures
        match r {
            Some(s) => to_with_tag_of(value@, tag@) == Some(s@),
            None => to_with_tag_of(value@, tag@).is_none(),
        },
{
    rsip::headers::To::from(value).with_tag(rsip::param::Tag::new(tag)).ok().map(String::from)
}

/// Prints `rsip::StatusCode::from(code)` with its `Display`.
#[verifier::external_body]
pub(crate) fn write_status_text(code: u16) -> (r: String)
    ensures
        r@ == status_text_of(code),
{
    rsip::StatusCode::from(code).to_string()
}

} // verus!
