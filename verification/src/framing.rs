//! Framing of SIP messages on a reliable byte stream.
//!
//! A stream carries messages and, between them, keepalives: two line ends
//! ask for an answer, one line end is the answer. A message is its head,
//! which ends with an empty line, and the body, whose length the head
//! gives in `Content-Length`.

use crate::message::{SipMessage, SipMessageView};
use crate::wire::{decode_message, message_of_bytes};
use vstd::prelude::*;
use vstd::slice::slice_subrange;

verus! {

/// The keepalive that asks for an answer: two line ends.
pub const KEEPALIVE_REQUEST: [u8; 4] = [13, 10, 13, 10];

/// The answer to a keepalive: one line end.
pub const KEEPALIVE_RESPONSE: [u8; 2] = [13, 10];

/// The greatest body length that a head may announce.
pub const MAX_BODY_LENGTH: u64 = 4294967295;

/// A line end starts at position `i` of `s`.
pub open spec fn crlf_at(s: Seq<u8>, i: int) -> bool {
    0 <= i && i + 1 < s.len() && s[i] == 13 && s[i + 1] == 10
}

/// An empty line, that is two line ends, starts at position `i` of `s`.
pub open spec fn blank_line_at(s: Seq<u8>, i: int) -> bool {
    crlf_at(s, i) && crlf_at(s, i + 2)
}

/// The position of the first line end of `s` at or after `from`; the
/// length of `s` where there is none.
pub open spec fn crlf_from(s: Seq<u8>, from: int) -> int
    decreases s.len() - from,
{
    if from < 0 || from >= s.len() {
        s.len() as int
    } else if crlf_at(s, from) {
        from
    } else {
        crlf_from(s, from + 1)
    }
}

/// The position of the first empty line of `s` at or after `from`; the
/// length of `s` where there is none.
pub open spec fn blank_line_from(s: Seq<u8>, from: int) -> int
    decreases s.len() - from,
{
    if from < 0 || from >= s.len() {
        s.len() as int
    } else if blank_line_at(s, from) {
        from
    } else {
        blank_line_from(s, from + 1)
    }
}

/// The position of the first byte `b` of `s` at or after `from`; the
/// length of `s` where there is none.
pub open spec fn byte_from(s: Seq<u8>, b: u8, from: int) -> int
    decreases s.len() - from,
{
    if from < 0 || from >= s.len() {
        s.len() as int
    } else if s[from] == b {
        from
    } else {
        byte_from(s, b, from + 1)
    }
}

/// A space or a tab.
pub open spec fn is_blank(b: u8) -> bool {
    b == 32 || b == 9
}

/// A byte of ASCII white space: space, tab, line feed, form feed or
/// carriage return.
pub open spec fn is_space(b: u8) -> bool {
    b == 32 || b == 9 || b == 10 || b == 12 || b == 13
}

/// The position after the last byte of the first `n` of `s` that is not
/// blank.
pub open spec fn trimmed_end(s: Seq<u8>, from: int, n: int) -> int
    decreases n - from,
{
    if from < n && n <= s.len() && is_blank(s[n - 1]) {
        trimmed_end(s, from, n - 1)
    } else {
        n
    }
}

/// The position of the first byte of `s` between `from` and `to` that is
/// not blank; `to` where all are.
pub open spec fn trimmed_start(s: Seq<u8>, from: int, to: int) -> int
    decreases to - from,
{
    if 0 <= from < to && to <= s.len() && is_blank(s[from]) {
        trimmed_start(s, from + 1, to)
    } else {
        from
    }
}

/// The lower-case form of an ASCII letter; any other byte as it is.
pub open spec fn lower(b: u8) -> u8 {
    if 65 <= b <= 90 {
        (b + 32) as u8
    } else {
        b
    }
}

/// The name `content-length`, in lower case.
pub open spec fn content_length_name() -> Seq<u8> {
    seq![99u8, 111u8, 110u8, 116u8, 101u8, 110u8, 116u8, 45u8, 108u8, 101u8, 110u8, 103u8, 116u8, 104u8]
}

/// `name` is the name of the header that gives the length of the body:
/// `Content-Length` or its short form `l`, in upper or lower case.
pub open spec fn names_length(name: Seq<u8>) -> bool {
    ||| name.len() == 1 && lower(name[0]) == 108
    ||| name.len() == 14 && forall|i: int|
        0 <= i < 14 ==> lower(#[trigger] name[i]) == content_length_name()[i]
}

/// Every byte of `s` is a decimal digit.
pub open spec fn all_digits(s: Seq<u8>) -> bool {
    forall|i: int| 0 <= i < s.len() ==> 48 <= #[trigger] s[i] <= 57
}

/// The number that the decimal digits `s` write.
pub open spec fn digits_value(s: Seq<u8>) -> nat
    decreases s.len(),
{
    if s.len() == 0 {
        0
    } else {
        (digits_value(s.drop_last()) * 10 + (s.last() - 48)) as nat
    }
}

/// What a head says of the length of the body.
#[derive(Clone, Copy, Debug, PartialEq, Eq, Structural)]
pub enum LengthField {
    /// No header gives the length.
    Absent,
    /// The header that gives the length has a value that is no number, or
    /// a number above [`MAX_BODY_LENGTH`].
    Invalid,
    /// The length.
    Value(u64),
}

/// What a value says of the length of the body: the number that it
/// writes, once blanks round it are taken off.
pub open spec fn length_of_value(value: Seq<u8>) -> LengthField {
    let start = trimmed_start(value, 0, value.len() as int);
    let end = trimmed_end(value, start, value.len() as int);
    let digits = value.subrange(start, end);
    if digits.len() > 0 && all_digits(digits) && digits_value(digits) <= MAX_BODY_LENGTH {
        LengthField::Value(digits_value(digits) as u64)
    } else {
        LengthField::Invalid
    }
}

/// What one line of a head says of the length of the body; `None` where
/// the line is no header that gives the length.
pub open spec fn length_of_line(line: Seq<u8>) -> Option<LengthField> {
    let colon = byte_from(line, 58, 0);
    if colon < line.len() && names_length(line.subrange(0, trimmed_end(line, 0, colon))) {
        Some(length_of_value(line.subrange(colon + 1, line.len() as int)))
    } else {
        None
    }
}

/// What the lines of `head` from position `from` on say of the length of
/// the body: what the first header says that gives the length.
pub open spec fn length_from(head: Seq<u8>, from: int) -> LengthField
    decreases head.len() - from,
{
    if from < 0 || from >= head.len() {
        LengthField::Absent
    } else {
        let end = crlf_from(head, from);
        match length_of_line(head.subrange(from, end)) {
            Some(f) => f,
            None => if from < end + 2 <= head.len() {
                length_from(head, end + 2)
            } else {
                LengthField::Absent
            },
        }
    }
}

/// What a head says of the length of the body. The first line of a head
/// is the start line and is passed over.
pub open spec fn length_of_head(head: Seq<u8>) -> LengthField {
    length_from(head, crlf_from(head, 0) + 2)
}

/// What [`crlf_from`] finds is the first line end at or after `from`:
/// none stands before it, and it lies within `s` or is the length of `s`.
pub proof fn lemma_crlf_from_bounds(s: Seq<u8>, from: int)
    requires
        0 <= from <= s.len(),
    ensures
        from <= crlf_from(s, from) <= s.len(),
        crlf_from(s, from) < s.len() ==> crlf_at(s, crlf_from(s, from)),
        forall|j: int| from <= j < crlf_from(s, from) ==> !crlf_at(s, j),
    decreases s.len() - from,
{
    if from < s.len() && !crlf_at(s, from) {
        lemma_crlf_from_bounds(s, from + 1);
    }
}

/// What [`blank_line_from`] finds is the first empty line at or after
/// `from`: none stands before it, and it lies within `s` or is the length
/// of `s`.
pub proof fn lemma_blank_line_from_bounds(s: Seq<u8>, from: int)
    requires
        0 <= from <= s.len(),
    ensures
        from <= blank_line_from(s, from) <= s.len(),
        blank_line_from(s, from) < s.len() ==> blank_line_at(s, blank_line_from(s, from)),
        forall|j: int| from <= j < blank_line_from(s, from) ==> !blank_line_at(s, j),
    decreases s.len() - from,
{
    if from < s.len() && !blank_line_at(s, from) {
        lemma_blank_line_from_bounds(s, from + 1);
    }
}

/// Finds the first line end at or after `from`.
pub fn find_crlf(buf: &[u8], from: usize) -> (r: usize)
    requires
        from <= buf.len(),
    ensures
        r == crlf_from(buf@, from as int),
        from <= r <= buf.len(),
{
    let mut i: usize = from;
    while i < buf.len()
        invariant
            from <= i <= buf.len(),
            crlf_from(buf@, from as int) == crlf_from(buf@, i as int),
        decreases buf.len() - i,
    {
        if buf[i] == 13 && i + 1 < buf.len() && buf[i + 1] == 10 {
            return i;
        }
        i += 1;
    }
    i
}

/// Finds the first empty line at or after `from`.
pub fn find_blank_line(buf: &[u8], from: usize) -> (r: usize)
    requires
        from <= buf.len(),
    ensures
        r == blank_line_from(buf@, from as int),
        from <= r <= buf.len(),
        r < buf.len() ==> r + 4 <= buf.len(),
{
    let mut i: usize = from;
    while i < buf.len()
        invariant
            from <= i <= buf.len(),
            blank_line_from(buf@, from as int) == blank_line_from(buf@, i as int),
        decreases buf.len() - i,
    {
        if buf.len() - i >= 4 && buf[i] == 13 && buf[i + 1] == 10 && buf[i + 2] == 13 && buf[i
            + 3] == 10 {
            return i;
        }
        i += 1;
    }
    i
}

/// Finds the first byte `b` at or after `from`.
pub fn find_byte(buf: &[u8], b: u8, from: usize) -> (r: usize)
    requires
        from <= buf.len(),
    ensures
        r == byte_from(buf@, b, from as int),
        from <= r <= buf.len(),
{
    let mut i: usize = from;
    while i < buf.len()
        invariant
            from <= i <= buf.len(),
            byte_from(buf@, b, from as int) == byte_from(buf@, b, i as int),
        decreases buf.len() - i,
    {
        if buf[i] == b {
            return i;
        }
        i += 1;
    }
    i
}

#[verifier::loop_isolation(false)]
fn trim_end(buf: &[u8], from: usize, n: usize) -> (r: usize)
    requires
        from <= n <= buf.len(),
    ensures
        r == trimmed_end(buf@, from as int, n as int),
        from <= r <= n,
{
    let mut k: usize = n;
    while k > from && (buf[k - 1] == 32 || buf[k - 1] == 9)
        invariant
            from <= k <= n,
            trimmed_end(buf@, from as int, n as int) == trimmed_end(buf@, from as int, k as int),
        decreases k,
    {
        k -= 1;
    }
    k
}

#[verifier::loop_isolation(false)]
fn trim_start(buf: &[u8], from: usize, to: usize) -> (r: usize)
    requires
        from <= to <= buf.len(),
    ensures
        r == trimmed_start(buf@, from as int, to as int),
        from <= r <= to,
{
    let mut k: usize = from;
    while k < to && (buf[k] == 32 || buf[k] == 9)
        invariant
            from <= k <= to,
            trimmed_start(buf@, from as int, to as int) == trimmed_start(
                buf@,
                k as int,
                to as int,
            ),
        decreases to - k,
    {
        k += 1;
    }
    k
}

fn lower_byte(b: u8) -> (r: u8)
    ensures
        r == lower(b),
{
    if 65 <= b && b <= 90 {
        b + 32
    } else {
        b
    }
}

/// Whether the bytes are the name of the header that gives the length of
/// the body.
pub fn is_length_name(name: &[u8]) -> (r: bool)
    ensures
        r == names_length(name@),
{
    if name.len() == 1 {
        return lower_byte(name[0]) == 108;
    }
    if name.len() != 14 {
        return false;
    }
    let wanted: [u8; 14] = [99, 111, 110, 116, 101, 110, 116, 45, 108, 101, 110, 103, 116, 104];
    assert(wanted@ =~= content_length_name());
    let mut i: usize = 0;
    while i < 14
        invariant
            i <= 14,
            name.len() == 14,
            wanted@ == content_length_name(),
            forall|j: int| 0 <= j < i ==> lower(#[trigger] name@[j]) == content_length_name()[j],
        decreases 14 - i,
    {
        if lower_byte(name[i]) != wanted[i] {
            return false;
        }
        i += 1;
    }
    true
}

proof fn lemma_digits_value_grows(s: Seq<u8>, n: int)
    requires
        all_digits(s),
        0 <= n <= s.len(),
    ensures
        digits_value(s.take(n)) <= digits_value(s),
    decreases s.len() - n,
{
    if n < s.len() {
        lemma_digits_value_grows(s, n + 1);
        assert(s.take(n + 1).drop_last() =~= s.take(n));
        assert(s.take(n + 1).last() == s[n]);
    } else {
        assert(s.take(n) =~= s);
    }
}

/// Reads what a value says of the length of the body.
#[verifier::loop_isolation(false)]
pub fn read_length(value: &[u8]) -> (r: LengthField)
    ensures
        r == length_of_value(value@),
{
    let start = trim_start(value, 0, value.len());
    let end = trim_end(value, start, value.len());
    let ghost digits = value@.subrange(start as int, end as int);
    if start == end {
        return LengthField::Invalid;
    }
    let mut acc: u64 = 0;
    let mut i: usize = start;
    while i < end
        invariant
            start <= i <= end <= value.len(),
            digits == value@.subrange(start as int, end as int),
            all_digits(digits.take(i - start)),
            acc == digits_value(digits.take(i - start)),
            acc <= MAX_BODY_LENGTH,
        decreases end - i,
    {
        let b = value[i];
        assert(digits[i - start] == b);
        if b < 48 || b > 57 {
            assert(!all_digits(digits));
            return LengthField::Invalid;
        }
        let next = acc * 10 + (b - 48) as u64;
        proof {
            let longer = digits.take(i - start + 1);
            assert(longer.drop_last() =~= digits.take(i - start));
            assert(longer.last() == b);
            assert(digits_value(longer) == next);
            assert(all_digits(longer)) by {
                assert forall|j: int| 0 <= j < longer.len() implies 48 <= #[trigger] longer[j]
                    <= 57 by {
                    if j < i - start {
                        assert(digits.take(i - start)[j] == longer[j]);
                    }
                }
            }
            if next > MAX_BODY_LENGTH && all_digits(digits) {
                lemma_digits_value_grows(digits, i - start + 1);
            }
        }
        if next > MAX_BODY_LENGTH {
            return LengthField::Invalid;
        }
        acc = next;
        i += 1;
    }
    assert(digits.take(end - start) =~= digits);
    LengthField::Value(acc)
}

/// Reads what one line of a head says of the length of the body.
pub fn read_length_line(line: &[u8]) -> (r: Option<LengthField>)
    ensures
        r == length_of_line(line@),
{
    let colon = find_byte(line, 58, 0);
    if colon >= line.len() {
        return None;
    }
    let name_end = trim_end(line, 0, colon);
    if !is_length_name(slice_subrange(line, 0, name_end)) {
        return None;
    }
    Some(read_length(slice_subrange(line, colon + 1, line.len())))
}

/// Reads what a head says of the length of the body.
#[verifier::loop_isolation(false)]
pub fn read_head_length(head: &[u8]) -> (r: LengthField)
    ensures
        r == length_of_head(head@),
{
    let first = find_crlf(head, 0);
    proof {
        lemma_crlf_from_bounds(head@, 0);
    }
    if first >= head.len() {
        return LengthField::Absent;
    }
    let mut from: usize = first + 2;
    while from < head.len()
        invariant
            from <= head.len(),
            length_of_head(head@) == length_from(head@, from as int),
        decreases head.len() - from,
    {
        let end = find_crlf(head, from);
        proof {
            lemma_crlf_from_bounds(head@, from as int);
        }
        match read_length_line(slice_subrange(head, from, end)) {
            Some(f) => {
                return f;
            },
            None => {},
        }
        if end >= head.len() {
            return LengthField::Absent;
        }
        from = end + 2;
    }
    LengthField::Absent
}

/// What stands at the front of a stream.
#[derive(Clone, Copy, Debug, PartialEq, Eq, Structural)]
pub enum Frame {
    /// Nothing yet: more bytes are needed.
    Incomplete,
    /// A keepalive that asks for an answer, of four bytes.
    KeepaliveRequest,
    /// The answer to a keepalive, of two bytes.
    KeepaliveResponse,
    /// One byte of white space.
    Blank,
    /// A message of that many bytes.
    Message(usize),
    /// A head of that many bytes whose length field is invalid.
    Malformed(usize),
}

/// The number of bytes that a frame takes from the stream.
pub open spec fn frame_len(f: Frame) -> int {
    match f {
        Frame::Incomplete => 0,
        Frame::KeepaliveRequest => 4,
        Frame::KeepaliveResponse => 2,
        Frame::Blank => 1,
        Frame::Message(n) => n as int,
        Frame::Malformed(n) => n as int,
    }
}

/// `s` is the beginning of a keepalive request and not yet all of it.
pub open spec fn begins_keepalive(s: Seq<u8>) -> bool {
    &&& 0 < s.len() < 4
    &&& s[0] == 13
    &&& s.len() > 1 ==> s[1] == 10
    &&& s.len() > 2 ==> s[2] == 13
}

/// The frame at the front of a message, which begins at the front of `s`:
/// the head reaches to the first empty line, and the body has the length
/// that the head gives, 0 where it gives none.
pub open spec fn message_frame(s: Seq<u8>) -> Frame {
    let end = blank_line_from(s, 0);
    if end >= s.len() {
        Frame::Incomplete
    } else {
        match length_of_head(s.subrange(0, end)) {
            LengthField::Absent => Frame::Message((end + 4) as usize),
            LengthField::Invalid => Frame::Malformed((end + 4) as usize),
            LengthField::Value(n) => if s.len() - (end + 4) >= n {
                Frame::Message((end + 4 + n) as usize)
            } else {
                Frame::Incomplete
            },
        }
    }
}

/// The frame at the front of the stream `s`.
pub open spec fn frame_of(s: Seq<u8>) -> Frame {
    if s.len() == 0 || begins_keepalive(s) {
        Frame::Incomplete
    } else if blank_line_at(s, 0) {
        Frame::KeepaliveRequest
    } else if crlf_at(s, 0) {
        Frame::KeepaliveResponse
    } else if is_space(s[0]) {
        Frame::Blank
    } else {
        message_frame(s)
    }
}

/// A frame that is there takes at least one byte and no more than the
/// stream holds.
pub proof fn lemma_frame_fits(s: Seq<u8>)
    requires
        s.len() <= usize::MAX,
    ensures
        frame_of(s) != Frame::Incomplete ==> 0 < frame_len(frame_of(s)) <= s.len(),
{
    lemma_blank_line_from_bounds(s, 0);
}

/// Says what stands at the front of the stream.
pub fn next_frame(buf: &[u8]) -> (f: Frame)
    ensures
        f == frame_of(buf@),
        f != Frame::Incomplete ==> 0 < frame_len(f) <= buf.len(),
{
    proof {
        lemma_frame_fits(buf@);
    }
    let n = buf.len();
    if n == 0 {
        return Frame::Incomplete;
    }
    if buf[0] == 13 {
        if n == 1 {
            return Frame::Incomplete;
        }
        if buf[1] == 10 {
            if n == 2 {
                return Frame::Incomplete;
            }
            if buf[2] == 13 {
                if n == 3 {
                    return Frame::Incomplete;
                }
                if buf[3] == 10 {
                    return Frame::KeepaliveRequest;
                }
            }
            return Frame::KeepaliveResponse;
        }
        return Frame::Blank;
    }
    if buf[0] == 32 || buf[0] == 9 || buf[0] == 10 || buf[0] == 12 {
        return Frame::Blank;
    }
    let end = find_blank_line(buf, 0);
    if end >= n {
        return Frame::Incomplete;
    }
    match read_head_length(slice_subrange(buf, 0, end)) {
        LengthField::Absent => Frame::Message(end + 4),
        LengthField::Invalid => Frame::Malformed(end + 4),
        LengthField::Value(len) => {
            if ((n - (end + 4)) as u64) >= len {
                Frame::Message(end + 4 + len as usize)
            } else {
                Frame::Incomplete
            }
        },
    }
}

/// What the reader of a stream does for its owner.
#[derive(Clone, Debug, PartialEq, Eq)]
pub enum ReadAction {
    /// Answer a keepalive: write [`KEEPALIVE_RESPONSE`].
    Pong,
    /// Hand on a message that has arrived.
    Deliver(SipMessage),
}

/// What a [`ReadAction`] is in contracts.
pub enum ReadActionView {
    Pong,
    Deliver(SipMessageView),
}

impl View for ReadAction {
    type V = ReadActionView;

    open spec fn view(&self) -> ReadActionView {
        match self {
            ReadAction::Pong => ReadActionView::Pong,
            ReadAction::Deliver(m) => ReadActionView::Deliver(m@),
        }
    }
}

/// The views of a run of actions, in order.
pub open spec fn actions_view(a: Seq<ReadAction>) -> Seq<ReadActionView> {
    a.map_values(|x: ReadAction| x@)
}

/// What follows from one frame, whose bytes are `bytes`: a keepalive
/// request is answered; a message is handed on where its bytes can be
/// read as a message and dropped where they cannot; nothing follows from
/// the rest.
pub open spec fn actions_of_frame(f: Frame, bytes: Seq<u8>) -> Seq<ReadActionView> {
    match f {
        Frame::KeepaliveRequest => seq![ReadActionView::Pong],
        Frame::Message(_) => match message_of_bytes(bytes) {
            Some(m) => seq![ReadActionView::Deliver(m)],
            None => Seq::empty(),
        },
        _ => Seq::empty(),
    }
}

/// What is left of the stream `s` once every frame at its front has been
/// taken, and what follows from those frames, in their order.
pub open spec fn drained(s: Seq<u8>) -> (Seq<u8>, Seq<ReadActionView>)
    decreases s.len(),
{
    let f = frame_of(s);
    let n = frame_len(f);
    if f == Frame::Incomplete || n <= 0 || n > s.len() {
        (s, Seq::empty())
    } else {
        let later = drained(s.skip(n));
        (later.0, actions_of_frame(f, s.take(n)) + later.1)
    }
}

/// The reader of one stream: the bytes that have arrived and belong to no
/// frame yet.
#[derive(Clone, Debug, PartialEq, Eq)]
pub struct StreamReader {
    pub buffer: Vec<u8>,
}

impl View for StreamReader {
    type V = Seq<u8>;

    open spec fn view(&self) -> Seq<u8> {
        self.buffer@
    }
}

impl StreamReader {
    /// A reader that has read nothing.
    pub fn new() -> (r: StreamReader)
        ensures
            r@ == Seq::<u8>::empty(),
    {
        StreamReader { buffer: Vec::new() }
    }

    /// Takes the bytes that one read has brought and says what follows
    /// from the frames that are complete now.
    pub fn feed(&mut self, data: &[u8]) -> (actions: Vec<ReadAction>)
        ensures
            (final(self)@, actions_view(actions@)) == drained(old(self)@ + data@),
    {
        self.buffer.extend_from_slice(data);
        let ghost all = self.buffer@;
        let total = self.buffer.len();
        let mut actions: Vec<ReadAction> = Vec::new();
        let mut pos: usize = 0;
        let mut done = false;
        assert(all.skip(0) =~= all);
        assert(actions_view(actions@) + drained(all).1 =~= drained(all).1);
        while !done
            invariant
                pos <= total,
                total == self.buffer.len(),
                all == self.buffer@,
                all == old(self)@ + data@,
                drained(all).0 == drained(all.skip(pos as int)).0,
                drained(all).1 == actions_view(actions@) + drained(all.skip(pos as int)).1,
                done ==> drained(all.skip(pos as int)) == (
                    all.skip(pos as int),
                    Seq::<ReadActionView>::empty(),
                ),
            decreases total - pos + (if done { 0int } else { 1int }),
        {
            let rest = slice_subrange(self.buffer.as_slice(), pos, total);
            assert(rest@ =~= all.skip(pos as int));
            let f = next_frame(rest);
            let n: usize = match f {
                Frame::Incomplete => 0,
                Frame::KeepaliveRequest => 4,
                Frame::KeepaliveResponse => 2,
                Frame::Blank => 1,
                Frame::Message(n) => n,
                Frame::Malformed(n) => n,
            };
            if n == 0 {
                done = true;
            } else {
                let ghost before = actions_view(actions@);
                let bytes = slice_subrange(self.buffer.as_slice(), pos, pos + n);
                assert(bytes@ =~= all.skip(pos as int).take(n as int));
                match f {
                    Frame::KeepaliveRequest => {
                        actions.push(ReadAction::Pong);
                        assert(actions_view(actions@) =~= before + actions_of_frame(f, bytes@));
                    },
                    Frame::Message(_) => match decode_message(bytes) {
                        Some(m) => {
                            actions.push(ReadAction::Deliver(m));
                            assert(actions_view(actions@) =~= before + actions_of_frame(f, bytes@));
                        },
                        None => {
                            assert(actions_view(actions@) =~= before + actions_of_frame(f, bytes@));
                        },
                    },
                    _ => {
                        assert(actions_view(actions@) =~= before + actions_of_frame(f, bytes@));
                    },
                }
                assert(all.skip(pos as int).skip(n as int) =~= all.skip(pos + n));
                assert(before + (actions_of_frame(f, bytes@) + drained(all.skip(pos + n)).1)
                    =~= (before + actions_of_frame(f, bytes@)) + drained(all.skip(pos + n)).1);
                pos += n;
            }
        }
        let rest = self.buffer.split_off(pos);
        assert(rest@ =~= all.skip(pos as int));
        assert(actions_view(actions@) + Seq::<ReadActionView>::empty() =~= actions_view(actions@));
        self.buffer = rest;
        actions
    }
}

proof fn lemma_blank_line_in_prefix(s: Seq<u8>, t: Seq<u8>, from: int)
    requires
        0 <= from <= s.len(),
        blank_line_from(s, from) < s.len(),
    ensures
        blank_line_from(s + t, from) == blank_line_from(s, from),
    decreases s.len() - from,
{
    let u = s + t;
    if from < s.len() {
        if blank_line_at(s, from) {
            assert(u[from] == s[from] && u[from + 1] == s[from + 1] && u[from + 2] == s[from + 2]
                && u[from + 3] == s[from + 3]);
        } else {
            if from + 3 < s.len() {
                assert(u[from] == s[from] && u[from + 1] == s[from + 1] && u[from + 2] == s[from
                    + 2] && u[from + 3] == s[from + 3]);
                lemma_blank_line_in_prefix(s, t, from + 1);
            } else {
                lemma_blank_line_from_bounds(s, from + 1);
                let e = blank_line_from(s, from + 1);
                assert(false) by {
                    if e < s.len() {
                        assert(blank_line_at(s, e));
                    }
                }
            }
        }
    }
}

/// A frame that is complete stays what it is when more bytes follow: what
/// stands at the front of a stream does not depend on what comes after
/// it.
pub proof fn lemma_frame_is_stable(s: Seq<u8>, t: Seq<u8>)
    requires
        frame_of(s) != Frame::Incomplete,
        s.len() + t.len() <= usize::MAX,
    ensures
        frame_of(s + t) == frame_of(s),
{
    let u = s + t;
    assert(u[0] == s[0]);
    if s.len() > 1 {
        assert(u[1] == s[1]);
    }
    if s.len() > 2 {
        assert(u[2] == s[2]);
    }
    if s.len() > 3 {
        assert(u[3] == s[3]);
    }
    if blank_line_at(s, 0) {
    } else if crlf_at(s, 0) {
    } else if is_space(s[0]) {
    } else {
        let end = blank_line_from(s, 0);
        lemma_blank_line_from_bounds(s, 0);
        lemma_blank_line_in_prefix(s, t, 0);
        assert(u.subrange(0, end) =~= s.subrange(0, end));
    }
}

/// However a stream is cut into reads, the same frames come out of it:
/// to take the frames of `a`, and then those of what was left together
/// with `b`, is to take the frames of `a` followed by `b`.
pub proof fn lemma_reads_can_be_split(a: Seq<u8>, b: Seq<u8>)
    requires
        a.len() + b.len() <= usize::MAX,
    ensures
        drained(a + b).0 == drained(drained(a).0 + b).0,
        drained(a + b).1 == drained(a).1 + drained(drained(a).0 + b).1,
    decreases a.len(),
{
    let f = frame_of(a);
    let n = frame_len(f);
    lemma_frame_fits(a);
    if f == Frame::Incomplete {
        assert(drained(a) == (a, Seq::<ReadActionView>::empty()));
        assert(drained(a).1 + drained(a + b).1 =~= drained(a + b).1);
    } else {
        lemma_frame_is_stable(a, b);
        let u = a + b;
        assert(u.skip(n) =~= a.skip(n) + b);
        assert(u.take(n) =~= a.take(n));
        lemma_reads_can_be_split(a.skip(n), b);
        let first = actions_of_frame(f, a.take(n));
        let later = drained(a.skip(n));
        let rest = drained(later.0 + b);
        assert(drained(a) == (later.0, first + later.1));
        assert(drained(u) == (drained(u.skip(n)).0, first + drained(u.skip(n)).1));
        assert(first + (later.1 + rest.1) =~= (first + later.1) + rest.1);
    }
}

} // verus!
