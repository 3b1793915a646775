//! What it takes for a written message to come out of the stream as one
//! frame: the framer cuts a message exactly where the writer ended it.

use crate::dialog::{
    built_request, built_response, contact_headers, cseq_value, header_of, local_tag, mirrored,
    mirrored_to, named_reversed, request_seq, route_headers, tagged_to_value, via_value,
    DialogView,
};
use crate::framing::{
    all_digits, blank_line_at, blank_line_from, byte_from, crlf_at, crlf_from, digits_value,
    drained, frame_of, is_blank, is_space, lemma_blank_line_from_bounds, lemma_crlf_from_bounds,
    lemma_frame_fits, length_from, length_of_head, length_of_line, length_of_value, names_length,
    trimmed_end, trimmed_start, Frame, LengthField, ReadActionView, MAX_BODY_LENGTH,
};
use crate::message::{
    header_value, header_value_from, method_name, HeaderView, Method, RequestView,
    SipMessageView,
};
use crate::text::{decimal_of, digit_char};
use crate::typed::status_text_of;
use crate::wire::{
    bytes_of, header_block, header_line, message_bytes, message_of_bytes, request_bytes,
    response_bytes,
};
use vstd::prelude::*;
use vstd::utf8::{is_ascii_chars, is_ascii_chars_encode_utf8};

verus! {

/// The bytes of a line end.
pub open spec fn line_end() -> Seq<u8> {
    seq![13u8, 10u8]
}

/// No byte of `s` is a carriage return or a line feed.
pub open spec fn clean(s: Seq<u8>) -> bool {
    forall|i: int| 0 <= i < s.len() ==> #[trigger] s[i] != 13 && s[i] != 10
}

/// The lines, each followed by a line end.
pub open spec fn lines_bytes(lines: Seq<Seq<u8>>) -> Seq<u8>
    decreases lines.len(),
{
    if lines.len() == 0 {
        Seq::empty()
    } else {
        lines[0] + line_end() + lines_bytes(lines.drop_first())
    }
}

/// What the first of the lines that gives the length of the body says of
/// it.
pub open spec fn length_of_lines(lines: Seq<Seq<u8>>) -> LengthField
    decreases lines.len(),
{
    if lines.len() == 0 {
        LengthField::Absent
    } else {
        match length_of_line(lines[0]) {
            Some(f) => f,
            None => length_of_lines(lines.drop_first()),
        }
    }
}

proof fn lemma_crlf_shift(s: Seq<u8>, from: int)
    requires
        0 <= from <= s.len(),
    ensures
        crlf_from(s, from) == from + crlf_from(s.skip(from), 0),
    decreases s.len() - from,
{
    let t = s.skip(from);
    lemma_crlf_from_bounds(s, from);
    lemma_crlf_from_bounds(t, 0);
    let a = crlf_from(s, from);
    let b = crlf_from(t, 0);
    assert forall|j: int| 0 <= j < t.len() implies crlf_at(t, j) == crlf_at(s, from + j) by {
        if j + 1 < t.len() {
            assert(t[j] == s[from + j] && t[j + 1] == s[from + j + 1]);
        }
    }
    if a < s.len() {
        assert(crlf_at(t, a - from));
        if b < a - from {
            assert(crlf_at(s, from + b));
        }
    }
    if b < t.len() {
        assert(crlf_at(s, from + b));
    }
}

proof fn lemma_blank_line_shift(s: Seq<u8>, from: int)
    requires
        0 <= from <= s.len(),
    ensures
        blank_line_from(s, from) == from + blank_line_from(s.skip(from), 0),
{
    let t = s.skip(from);
    lemma_blank_line_from_bounds(s, from);
    lemma_blank_line_from_bounds(t, 0);
    let a = blank_line_from(s, from);
    let b = blank_line_from(t, 0);
    assert forall|j: int| 0 <= j < t.len() implies blank_line_at(t, j) == blank_line_at(
        s,
        from + j,
    ) by {
        if j + 3 < t.len() {
            assert(t[j] == s[from + j] && t[j + 1] == s[from + j + 1] && t[j + 2] == s[from + j
                + 2] && t[j + 3] == s[from + j + 3]);
        }
    }
    if a < s.len() {
        assert(blank_line_at(t, a - from));
        if b < a - from {
            assert(blank_line_at(s, from + b));
        }
    }
    if b < t.len() {
        assert(blank_line_at(s, from + b));
    }
}

proof fn lemma_length_shift(s: Seq<u8>, from: int)
    requires
        0 <= from <= s.len(),
    ensures
        length_from(s, from) == length_from(s.skip(from), 0),
    decreases s.len() - from,
{
    let t = s.skip(from);
    if from < s.len() {
        lemma_crlf_shift(s, from);
        lemma_crlf_from_bounds(s, from);
        lemma_crlf_from_bounds(t, 0);
        let end = crlf_from(s, from);
        let tend = crlf_from(t, 0);
        assert(s.subrange(from, end) =~= t.subrange(0, tend));
        if length_of_line(s.subrange(from, end)) is None {
            if end + 2 <= s.len() {
                lemma_length_shift(s, end + 2);
                lemma_length_shift(t, tend + 2);
                assert(s.skip(end + 2) =~= t.skip(tend + 2));
            }
        }
    }
}

proof fn lemma_clean_line_ends(line: Seq<u8>, rest: Seq<u8>)
    requires
        clean(line),
    ensures
        crlf_from(line + line_end() + rest, 0) == line.len(),
        crlf_from(line, 0) == line.len(),
{
    let s = line + line_end() + rest;
    lemma_crlf_from_bounds(s, 0);
    lemma_crlf_from_bounds(line, 0);
    let n = line.len() as int;
    assert(s[n] == 13 && s[n + 1] == 10);
    assert(crlf_at(s, n));
    let a = crlf_from(s, 0);
    if a < line.len() {
        assert(s[a] == line[a]);
    }
    let b = crlf_from(line, 0);
    if b < line.len() {
        assert(line[b] == 13);
    }
}

/// The lines are clean and none of them is empty.
pub open spec fn all_clean(lines: Seq<Seq<u8>>) -> bool {
    forall|i: int| 0 <= i < lines.len() ==> clean(#[trigger] lines[i]) && lines[i].len() > 0
}

proof fn lemma_lines_bytes_len(lines: Seq<Seq<u8>>)
    requires
        lines.len() > 0,
    ensures
        lines_bytes(lines).len() >= lines[0].len() + 2,
        lines_bytes(lines).len() >= 2,
    decreases lines.len(),
{
}

proof fn lemma_blank_line_after_lines(lines: Seq<Seq<u8>>, tail: Seq<u8>)
    requires
        lines.len() > 0,
        all_clean(lines),
    ensures
        blank_line_from(lines_bytes(lines) + line_end() + tail, 0) == lines_bytes(lines).len() - 2,
    decreases lines.len(),
{
    let l = lines[0];
    let later = lines.drop_first();
    let r = lines_bytes(later) + line_end() + tail;
    let s = lines_bytes(lines) + line_end() + tail;
    assert(s =~= l + line_end() + r);
    assert(clean(l) && l.len() > 0);
    let n = l.len() as int;
    lemma_blank_line_from_bounds(s, 0);
    assert forall|j: int| 0 <= j < n implies !blank_line_at(s, j) by {
        assert(s[j] == l[j]);
    }
    assert(s[n] == 13 && s[n + 1] == 10);
    if later.len() == 0 {
        assert(lines_bytes(later) =~= Seq::<u8>::empty());
        assert(r =~= line_end() + tail);
        assert(s[n + 2] == 13 && s[n + 3] == 10);
        assert(blank_line_at(s, n));
        assert(lines_bytes(lines) =~= l + line_end());
    } else {
        assert forall|i: int| 0 <= i < later.len() implies clean(#[trigger] later[i])
            && later[i].len() > 0 by {
            assert(later[i] == lines[i + 1]);
        }
        lemma_blank_line_after_lines(later, tail);
        lemma_lines_bytes_len(later);
        assert(clean(later[0]) && later[0].len() > 0);
        assert(r[0] == later[0][0]);
        assert(s[n + 2] == r[0]);
        assert(!blank_line_at(s, n));
        assert(!blank_line_at(s, n + 1));
        lemma_blank_line_shift(s, n + 2);
        assert(s.skip(n + 2) =~= r);
        let b = blank_line_from(s, 0);
        lemma_blank_line_from_bounds(s, n + 2);
        let c = blank_line_from(s, n + 2);
        if c < s.len() {
            assert(blank_line_at(s, c));
            if b < c {
            }
        }
        assert(b >= n + 2);
        if b < s.len() {
            assert(blank_line_at(s, b));
        }
        assert(b == c);
        assert(lines_bytes(lines).len() == n + 2 + lines_bytes(later).len());
    }
}

/// The lines with a line end between each two of them.
pub open spec fn joined(lines: Seq<Seq<u8>>) -> Seq<u8>
    decreases lines.len(),
{
    if lines.len() == 0 {
        Seq::empty()
    } else if lines.len() == 1 {
        lines[0]
    } else {
        lines[0] + line_end() + joined(lines.drop_first())
    }
}

proof fn lemma_lines_bytes_is_joined(lines: Seq<Seq<u8>>)
    requires
        lines.len() > 0,
    ensures
        lines_bytes(lines) == joined(lines) + line_end(),
    decreases lines.len(),
{
    let later = lines.drop_first();
    if lines.len() == 1 {
        assert(lines_bytes(later) =~= Seq::<u8>::empty());
        assert(lines_bytes(lines) =~= joined(lines) + line_end());
    } else {
        lemma_lines_bytes_is_joined(later);
        assert(lines_bytes(lines) =~= joined(lines) + line_end());
    }
}

proof fn lemma_all_clean_later(lines: Seq<Seq<u8>>)
    requires
        lines.len() > 0,
        all_clean(lines),
    ensures
        all_clean(lines.drop_first()),
        clean(lines[0]),
        lines[0].len() > 0,
{
    let later = lines.drop_first();
    assert forall|i: int| 0 <= i < later.len() implies clean(#[trigger] later[i]) && later[i].len()
        > 0 by {
        assert(later[i] == lines[i + 1]);
    }
}

proof fn lemma_length_of_joined(lines: Seq<Seq<u8>>)
    requires
        lines.len() > 0,
        all_clean(lines),
    ensures
        length_from(joined(lines), 0) == length_of_lines(lines),
        crlf_from(joined(lines), 0) == lines[0].len(),
    decreases lines.len(),
{
    let l = lines[0];
    let later = lines.drop_first();
    let h = joined(lines);
    lemma_all_clean_later(lines);
    if lines.len() == 1 {
        lemma_clean_line_ends(l, Seq::empty());
        assert(h.subrange(0, l.len() as int) =~= l);
        assert(length_of_lines(later) == LengthField::Absent);
    } else {
        lemma_clean_line_ends(l, joined(later));
        assert(h.subrange(0, l.len() as int) =~= l);
        lemma_length_of_joined(later);
        lemma_length_shift(h, (l.len() + 2) as int);
        assert(h.skip((l.len() + 2) as int) =~= joined(later));
    }
}

/// The stream that begins with the lines, an empty line and the body is
/// cut after the body, where the first line does not begin with white
/// space, no line is empty or holds a line end within it, and the lines
/// after the first give the length of the body, or give none and the body
/// is empty.
pub proof fn lemma_lines_and_body_are_one_frame(
    lines: Seq<Seq<u8>>,
    body: Seq<u8>,
    rest: Seq<u8>,
)
    requires
        lines.len() > 0,
        all_clean(lines),
        !is_space(lines[0][0]),
        match length_of_lines(lines.drop_first()) {
            LengthField::Absent => body.len() == 0,
            LengthField::Invalid => false,
            LengthField::Value(n) => n == body.len(),
        },
        lines_bytes(lines).len() + 2 + body.len() + rest.len() <= usize::MAX,
    ensures
        frame_of(lines_bytes(lines) + line_end() + body + rest) == Frame::Message(
            (lines_bytes(lines).len() + 2 + body.len()) as usize,
        ),
{
    let s = lines_bytes(lines) + line_end() + body + rest;
    let tail = body + rest;
    assert(s =~= lines_bytes(lines) + line_end() + tail);
    lemma_blank_line_after_lines(lines, tail);
    lemma_lines_bytes_is_joined(lines);
    lemma_all_clean_later(lines);
    lemma_lines_bytes_len(lines);
    let end = blank_line_from(s, 0);
    let head = s.subrange(0, end);
    assert(head =~= joined(lines));
    assert(s[0] == lines[0][0]);
    lemma_length_of_joined(lines);
    let later = lines.drop_first();
    if later.len() == 0 {
        assert(length_from(head, (lines[0].len() + 2) as int) == LengthField::Absent);
    } else {
        lemma_length_of_joined(later);
        lemma_length_shift(head, (lines[0].len() + 2) as int);
        assert(head.skip((lines[0].len() + 2) as int) =~= joined(later));
    }
    assert(length_of_head(head) == length_of_lines(later));
}

proof fn lemma_ascii_bytes(t: Seq<char>)
    requires
        is_ascii_chars(t),
    ensures
        bytes_of(t) == Seq::new(t.len(), |i: int| t[i] as u8),
{
    is_ascii_chars_encode_utf8(t);
    assert(bytes_of(t) =~= Seq::new(t.len(), |i: int| t[i] as u8));
}

proof fn lemma_separator_bytes()
    ensures
        bytes_of(": "@) == seq![58u8, 32u8],
        bytes_of("\r\n"@) == line_end(),
        bytes_of(" "@) == seq![32u8],
        bytes_of(" SIP/2.0\r\n"@) == bytes_of(" SIP/2.0"@) + line_end(),
        bytes_of(" SIP/2.0"@) == seq![32u8, 83u8, 73u8, 80u8, 47u8, 50u8, 46u8, 48u8],
        bytes_of("SIP/2.0 "@) == seq![83u8, 73u8, 80u8, 47u8, 50u8, 46u8, 48u8, 32u8],
{
    reveal_strlit(": ");
    reveal_strlit("\r\n");
    reveal_strlit(" ");
    reveal_strlit(" SIP/2.0\r\n");
    reveal_strlit(" SIP/2.0");
    reveal_strlit("SIP/2.0 ");
    lemma_ascii_bytes(": "@);
    lemma_ascii_bytes("\r\n"@);
    lemma_ascii_bytes(" "@);
    lemma_ascii_bytes(" SIP/2.0\r\n"@);
    lemma_ascii_bytes(" SIP/2.0"@);
    lemma_ascii_bytes("SIP/2.0 "@);
    assert(bytes_of(": "@) =~= seq![58u8, 32u8]);
    assert(bytes_of("\r\n"@) =~= line_end());
    assert(bytes_of(" "@) =~= seq![32u8]);
    assert(bytes_of(" SIP/2.0"@) =~= seq![32u8, 83u8, 73u8, 80u8, 47u8, 50u8, 46u8, 48u8]);
    assert(bytes_of("SIP/2.0 "@) =~= seq![83u8, 73u8, 80u8, 47u8, 50u8, 46u8, 48u8, 32u8]);
    assert(bytes_of(" SIP/2.0\r\n"@) =~= bytes_of(" SIP/2.0"@) + line_end());
}

/// An upper-case letter.
pub open spec fn is_upper(b: u8) -> bool {
    65 <= b <= 90
}

proof fn lemma_method_name_bytes(m: Method)
    ensures
        bytes_of(method_name(m)).len() > 0,
        forall|i: int|
            0 <= i < bytes_of(method_name(m)).len() ==> is_upper(
                #[trigger] bytes_of(method_name(m))[i],
            ),
{
    reveal_strlit("ACK");
    reveal_strlit("BYE");
    reveal_strlit("CANCEL");
    reveal_strlit("INFO");
    reveal_strlit("INVITE");
    reveal_strlit("MESSAGE");
    reveal_strlit("NOTIFY");
    reveal_strlit("OPTIONS");
    reveal_strlit("PRACK");
    reveal_strlit("PUBLISH");
    reveal_strlit("REFER");
    reveal_strlit("REGISTER");
    reveal_strlit("SUBSCRIBE");
    reveal_strlit("UPDATE");
    let t = method_name(m);
    assert(is_ascii_chars(t));
    lemma_ascii_bytes(t);
}

/// The bytes of the decimal numeral of `n`.
pub open spec fn decimal_bytes(n: nat) -> Seq<u8> {
    bytes_of(decimal_of(n))
}

proof fn lemma_decimal_is_ascii(n: nat)
    ensures
        is_ascii_chars(decimal_of(n)),
        decimal_of(n).len() > 0,
        forall|i: int|
            0 <= i < decimal_of(n).len() ==> 48 <= (#[trigger] decimal_of(n)[i]) as u8 <= 57,
    decreases n,
{
    if n >= 10 {
        lemma_decimal_is_ascii(n / 10);
    }
}

proof fn lemma_decimal_bytes(n: nat)
    ensures
        decimal_bytes(n).len() > 0,
        all_digits(decimal_bytes(n)),
        digits_value(decimal_bytes(n)) == n,
    decreases n,
{
    lemma_decimal_is_ascii(n);
    lemma_ascii_bytes(decimal_of(n));
    let d = decimal_bytes(n);
    if n < 10 {
        assert(d =~= seq![digit_char(n as int) as u8]);
        assert(d.drop_last() =~= Seq::<u8>::empty());
        assert(digits_value(d.drop_last()) == 0);
        assert(d.last() == 48 + n);
    } else {
        lemma_decimal_bytes(n / 10);
        lemma_decimal_is_ascii(n / 10);
        lemma_ascii_bytes(decimal_of(n / 10));
        assert(d.drop_last() =~= decimal_bytes(n / 10));
        assert(d.last() == digit_char((n % 10) as int) as u8);
        assert(d.last() == 48 + n % 10);
    }
}

proof fn lemma_byte_from_is(s: Seq<u8>, b: u8, r: int)
    requires
        0 <= r <= s.len(),
        forall|j: int| 0 <= j < r ==> #[trigger] s[j] != b,
        r < s.len() ==> s[r] == b,
    ensures
        byte_from(s, b, 0) == r,
{
    lemma_byte_from_steps(s, b, 0, r);
}

proof fn lemma_byte_from_steps(s: Seq<u8>, b: u8, from: int, r: int)
    requires
        0 <= from <= r <= s.len(),
        forall|j: int| from <= j < r ==> #[trigger] s[j] != b,
        r < s.len() ==> s[r] == b,
    ensures
        byte_from(s, b, from) == r,
    decreases r - from,
{
    if from < r {
        lemma_byte_from_steps(s, b, from + 1, r);
    }
}

proof fn lemma_trimmed_start_steps(s: Seq<u8>, from: int, r: int, to: int)
    requires
        0 <= from <= r <= to <= s.len(),
        forall|j: int| from <= j < r ==> is_blank(#[trigger] s[j]),
        r < to ==> !is_blank(s[r]),
    ensures
        trimmed_start(s, from, to) == r,
    decreases r - from,
{
    if from < r {
        lemma_trimmed_start_steps(s, from + 1, r, to);
    }
}

/// The value of a header that gives the length `n` is read as `n`: a
/// space, then the decimal numeral.
proof fn lemma_length_value_is_read(n: nat)
    requires
        n <= MAX_BODY_LENGTH,
    ensures
        length_of_value(seq![32u8] + decimal_bytes(n)) == LengthField::Value(n as u64),
{
    lemma_decimal_bytes(n);
    let d = decimal_bytes(n);
    let v = seq![32u8] + d;
    assert(v[0] == 32);
    assert(v[1] == d[0]);
    assert(48 <= d[0] <= 57);
    lemma_trimmed_start_steps(v, 0, 1, v.len() as int);
    assert(v[v.len() - 1] == d[d.len() - 1]);
    assert(48 <= d[d.len() - 1] <= 57);
    assert(trimmed_end(v, 1, v.len() as int) == v.len());
    assert(v.subrange(1, v.len() as int) =~= d);
}

/// The bytes of one header line, without the line's end.
pub open spec fn header_content(h: HeaderView) -> Seq<u8> {
    bytes_of(h.name) + seq![58u8, 32u8] + bytes_of(h.value)
}

/// The bytes of the lines of the headers, each without the line's end.
pub open spec fn header_contents(hs: Seq<HeaderView>) -> Seq<Seq<u8>> {
    hs.map_values(|h: HeaderView| header_content(h))
}

/// The name of a header can be written: its bytes hold no line end and no
/// colon, and the last of them is no blank.
pub open spec fn writable_name(name: Seq<char>) -> bool {
    let b = bytes_of(name);
    &&& clean(b)
    &&& forall|i: int| 0 <= i < b.len() ==> #[trigger] b[i] != 58
    &&& b.len() > 0 ==> !is_blank(b[b.len() - 1])
}

/// A text can be written within a line: its bytes hold no line end.
pub open spec fn writable(text: Seq<char>) -> bool {
    clean(bytes_of(text))
}

/// Every header can be written.
pub open spec fn writable_headers(hs: Seq<HeaderView>) -> bool {
    forall|i: int|
        0 <= i < hs.len() ==> writable_name((#[trigger] hs[i]).name) && writable(hs[i].value)
}

/// The value of the first header that gives the length of the body: the
/// first whose name is `Content-Length` or `l`, in upper or lower case.
pub open spec fn announced_length(hs: Seq<HeaderView>) -> Option<Seq<char>>
    decreases hs.len(),
{
    if hs.len() == 0 {
        None
    } else if names_length(bytes_of(hs[0].name)) {
        Some(hs[0].value)
    } else {
        announced_length(hs.drop_first())
    }
}

/// The headers say how long the body `body` is: the first header that
/// gives the length gives that of `body` as a decimal numeral, or no
/// header gives the length and `body` is empty.
pub open spec fn announces(hs: Seq<HeaderView>, body: Seq<u8>) -> bool {
    match announced_length(hs) {
        Some(v) => v == decimal_of(body.len()),
        None => body.len() == 0,
    }
}

/// The message can be framed: its start line and headers can be written,
/// the headers say how long the body is, and the body is no longer than
/// [`MAX_BODY_LENGTH`].
pub open spec fn framable(m: SipMessageView) -> bool {
    match m {
        SipMessageView::Request(r) => {
            &&& writable(r.uri)
            &&& writable_headers(r.headers)
            &&& announces(r.headers, r.body)
            &&& r.body.len() <= MAX_BODY_LENGTH
        },
        SipMessageView::Response(r) => {
            &&& writable(r.status_text)
            &&& writable_headers(r.headers)
            &&& announces(r.headers, r.body)
            &&& r.body.len() <= MAX_BODY_LENGTH
        },
    }
}

proof fn lemma_lines_bytes_push(lines: Seq<Seq<u8>>, l: Seq<u8>)
    ensures
        lines_bytes(lines.push(l)) == lines_bytes(lines) + l + line_end(),
    decreases lines.len(),
{
    let all = lines.push(l);
    if lines.len() == 0 {
        assert(all.drop_first() =~= Seq::<Seq<u8>>::empty());
        assert(lines_bytes(all.drop_first()) =~= Seq::<u8>::empty());
        assert(lines_bytes(lines) =~= Seq::<u8>::empty());
        assert(lines_bytes(all) =~= lines_bytes(lines) + l + line_end());
    } else {
        assert(all.drop_first() =~= lines.drop_first().push(l));
        lemma_lines_bytes_push(lines.drop_first(), l);
        assert(lines_bytes(all) =~= lines_bytes(lines) + l + line_end());
    }
}

proof fn lemma_header_block_is_lines(hs: Seq<HeaderView>, n: int)
    requires
        0 <= n <= hs.len(),
    ensures
        header_block(hs, n) == lines_bytes(header_contents(hs).take(n)),
    decreases n,
{
    let c = header_contents(hs);
    if n == 0 {
        assert(c.take(0) =~= Seq::<Seq<u8>>::empty());
    } else {
        lemma_header_block_is_lines(hs, n - 1);
        lemma_separator_bytes();
        assert(c.take(n) =~= c.take(n - 1).push(header_content(hs[n - 1])));
        lemma_lines_bytes_push(c.take(n - 1), header_content(hs[n - 1]));
        assert(header_line(hs[n - 1]) =~= header_content(hs[n - 1]) + line_end());
        assert(header_block(hs, n) =~= lines_bytes(c.take(n)));
    }
}

proof fn lemma_header_content_is_clean(h: HeaderView)
    requires
        writable_name(h.name),
        writable(h.value),
    ensures
        clean(header_content(h)),
        header_content(h).len() > 0,
        length_of_line(header_content(h)) == (if names_length(bytes_of(h.name)) {
            Some(length_of_value(seq![32u8] + bytes_of(h.value)))
        } else {
            None
        }),
{
    let nb = bytes_of(h.name);
    let vb = bytes_of(h.value);
    let c = header_content(h);
    let n = nb.len() as int;
    assert(c[n] == 58 && c[n + 1] == 32);
    assert forall|i: int| 0 <= i < c.len() implies #[trigger] c[i] != 13 && c[i] != 10 by {
        if i < n {
            assert(c[i] == nb[i]);
        } else if i >= n + 2 {
            assert(c[i] == vb[i - n - 2]);
        }
    }
    assert forall|j: int| 0 <= j < n implies #[trigger] c[j] != 58 by {
        assert(c[j] == nb[j]);
    }
    lemma_byte_from_is(c, 58, n);
    if n > 0 {
        assert(c[n - 1] == nb[n - 1]);
    }
    assert(trimmed_end(c, 0, n) == n);
    assert(c.subrange(0, n) =~= nb);
    assert(c.subrange(n + 1, c.len() as int) =~= seq![32u8] + vb);
}

proof fn lemma_length_of_header_lines(hs: Seq<HeaderView>)
    requires
        writable_headers(hs),
    ensures
        all_clean(header_contents(hs)),
        length_of_lines(header_contents(hs)) == (match announced_length(hs) {
            Some(v) => length_of_value(seq![32u8] + bytes_of(v)),
            None => LengthField::Absent,
        }),
    decreases hs.len(),
{
    let c = header_contents(hs);
    assert forall|i: int| 0 <= i < c.len() implies clean(#[trigger] c[i]) && c[i].len() > 0 by {
        assert(writable_name(hs[i].name) && writable(hs[i].value));
        lemma_header_content_is_clean(hs[i]);
    }
    if hs.len() > 0 {
        let later = hs.drop_first();
        assert forall|i: int| 0 <= i < later.len() implies writable_name(
            (#[trigger] later[i]).name,
        ) && writable(later[i].value) by {
            assert(later[i] == hs[i + 1]);
        }
        lemma_length_of_header_lines(later);
        assert(writable_name(hs[0].name) && writable(hs[0].value));
        lemma_header_content_is_clean(hs[0]);
        assert(c.drop_first() =~= header_contents(later));
    }
}

/// The start line and the header lines of a frame with a clean start line
/// are one frame with the body.
proof fn lemma_start_line_and_headers(
    start: Seq<u8>,
    hs: Seq<HeaderView>,
    body: Seq<u8>,
    rest: Seq<u8>,
)
    requires
        clean(start),
        start.len() > 0,
        !is_space(start[0]),
        writable_headers(hs),
        announces(hs, body),
        body.len() <= MAX_BODY_LENGTH,
        start.len() + 2 + header_block(hs, hs.len() as int).len() + 2 + body.len() + rest.len()
            <= usize::MAX,
    ensures
        frame_of(
            start + line_end() + header_block(hs, hs.len() as int) + line_end() + body + rest,
        ) == Frame::Message(
            (start.len() + 2 + header_block(hs, hs.len() as int).len() + 2 + body.len()) as usize,
        ),
{
    let c = header_contents(hs);
    let lines = seq![start] + c;
    lemma_header_block_is_lines(hs, hs.len() as int);
    assert(c.take(hs.len() as int) =~= c);
    assert(lines.drop_first() =~= c);
    assert(lines[0] == start);
    assert(lines_bytes(lines) =~= start + line_end() + lines_bytes(c));
    lemma_length_of_header_lines(hs);
    assert forall|i: int| 0 <= i < lines.len() implies clean(#[trigger] lines[i]) && lines[i].len()
        > 0 by {
        if i > 0 {
            assert(lines[i] == c[i - 1]);
        }
    }
    lemma_length_value_is_read(body.len());
    lemma_lines_and_body_are_one_frame(lines, body, rest);
    assert(start + line_end() + header_block(hs, hs.len() as int) + line_end() + body + rest
        =~= lines_bytes(lines) + line_end() + body + rest);
}

/// A message that can be framed comes out of the stream as the writer
/// wrote it: whatever follows it, the frame at the front of the stream is
/// the message, from its first byte to the last byte of its body.
pub proof fn lemma_written_message_is_one_frame(m: SipMessageView, rest: Seq<u8>)
    requires
        framable(m),
        message_bytes(m).len() + rest.len() <= usize::MAX,
    ensures
        frame_of(message_bytes(m) + rest) == Frame::Message(message_bytes(m).len() as usize),
{
    lemma_separator_bytes();
    match m {
        SipMessageView::Request(r) => {
            lemma_method_name_bytes(r.method);
            let name = bytes_of(method_name(r.method));
            let uri = bytes_of(r.uri);
            let start = name + seq![32u8] + uri + bytes_of(" SIP/2.0"@);
            assert(start[0] == name[0]);
            assert(is_upper(name[0]));
            assert forall|i: int| 0 <= i < start.len() implies #[trigger] start[i] != 13
                && start[i] != 10 by {
                if i < name.len() {
                    assert(start[i] == name[i]);
                    assert(is_upper(name[i]));
                } else if i == name.len() {
                } else if i < name.len() + 1 + uri.len() {
                    assert(start[i] == uri[i - name.len() - 1]);
                } else {
                    assert(start[i] == bytes_of(" SIP/2.0"@)[i - name.len() - 1 - uri.len()]);
                }
            }
            let block = header_block(r.headers, r.headers.len() as int);
            assert(request_bytes(r) =~= start + line_end() + block + line_end() + r.body);
            lemma_start_line_and_headers(start, r.headers, r.body, rest);
            assert(message_bytes(m) + rest =~= start + line_end() + block + line_end() + r.body
                + rest);
        },
        SipMessageView::Response(r) => {
            let text = bytes_of(r.status_text);
            let start = bytes_of("SIP/2.0 "@) + text;
            assert(start[0] == 83);
            assert forall|i: int| 0 <= i < start.len() implies #[trigger] start[i] != 13
                && start[i] != 10 by {
                if i >= 8 {
                    assert(start[i] == text[i - 8]);
                }
            }
            let block = header_block(r.headers, r.headers.len() as int);
            assert(response_bytes(r) =~= start + line_end() + block + line_end() + r.body);
            lemma_start_line_and_headers(start, r.headers, r.body, rest);
            assert(message_bytes(m) + rest =~= start + line_end() + block + line_end() + r.body
                + rest);
        },
    }
}

/// The reader hands on a written message that can be framed as what its
/// bytes read as, and goes on with what follows it.
pub proof fn lemma_written_message_is_delivered(m: SipMessageView, rest: Seq<u8>)
    requires
        framable(m),
        message_bytes(m).len() + rest.len() <= usize::MAX,
    ensures
        drained(message_bytes(m) + rest).0 == drained(rest).0,
        drained(message_bytes(m) + rest).1 == (match message_of_bytes(message_bytes(m)) {
            Some(read) => seq![ReadActionView::Deliver(read)],
            None => Seq::empty(),
        }) + drained(rest).1,
{
    let bytes = message_bytes(m);
    let s = bytes + rest;
    lemma_written_message_is_one_frame(m, rest);
    lemma_frame_fits(s);
    let n = bytes.len() as int;
    assert(s.take(n) =~= bytes);
    assert(s.skip(n) =~= rest);
}

/// The bytes of two texts, one after the other, are the bytes of the one
/// and then of the other.
pub proof fn lemma_bytes_of_concat(a: Seq<char>, b: Seq<char>)
    ensures
        bytes_of(a + b) == bytes_of(a) + bytes_of(b),
    decreases a.len(),
{
    if a.len() == 0 {
        assert(a + b =~= b);
        assert(bytes_of(a) =~= Seq::<u8>::empty());
        assert(bytes_of(a) + bytes_of(b) =~= bytes_of(b));
    } else {
        assert((a + b).drop_first() =~= a.drop_first() + b);
        assert((a + b)[0] == a[0]);
        lemma_bytes_of_concat(a.drop_first(), b);
        assert(bytes_of(a + b) =~= bytes_of(a) + bytes_of(b));
    }
}

proof fn lemma_writable_concat(a: Seq<char>, b: Seq<char>)
    requires
        writable(a),
        writable(b),
    ensures
        writable(a + b),
{
    lemma_bytes_of_concat(a, b);
    let x = bytes_of(a);
    let y = bytes_of(b);
    assert forall|i: int| 0 <= i < (x + y).len() implies #[trigger] (x + y)[i] != 13 && (x + y)[i]
        != 10 by {
        if i < x.len() {
            assert((x + y)[i] == x[i]);
        } else {
            assert((x + y)[i] == y[i - x.len()]);
        }
    }
}

/// A text of ASCII characters other than the line ends can be written.
proof fn lemma_ascii_is_writable(t: Seq<char>)
    requires
        is_ascii_chars(t),
        forall|i: int| 0 <= i < t.len() ==> #[trigger] t[i] != '\r' && t[i] != '\n',
    ensures
        writable(t),
{
    lemma_ascii_bytes(t);
    let b = bytes_of(t);
    assert forall|i: int| 0 <= i < b.len() implies #[trigger] b[i] != 13 && b[i] != 10 by {
        assert(b[i] == t[i] as u8);
    }
}

/// The name of a header that the library writes itself, other than the
/// one that gives the length of the body.
pub open spec fn is_own_name(name: Seq<char>) -> bool {
    name == "Via"@ || name == "Call-ID"@ || name == "From"@ || name == "To"@ || name == "CSeq"@
        || name == "Contact"@ || name == "Route"@ || name == "Max-Forwards"@ || name
        == "Record-Route"@
}

proof fn lemma_own_names(name: Seq<char>)
    requires
        is_own_name(name) || name == "Content-Length"@,
    ensures
        writable_name(name),
        names_length(bytes_of(name)) == (name == "Content-Length"@),
{
    reveal_strlit("Via");
    reveal_strlit("Call-ID");
    reveal_strlit("From");
    reveal_strlit("To");
    reveal_strlit("CSeq");
    reveal_strlit("Contact");
    reveal_strlit("Route");
    reveal_strlit("Max-Forwards");
    reveal_strlit("Record-Route");
    reveal_strlit("Content-Length");
    assert(is_ascii_chars(name));
    lemma_ascii_bytes(name);
    let b = bytes_of(name);
    if name == "Content-Length"@ {
        assert(b =~= seq![
            67u8, 111u8, 110u8, 116u8, 101u8, 110u8, 116u8, 45u8, 76u8, 101u8, 110u8, 103u8, 116u8,
            104u8,
        ]);
    }
}

proof fn lemma_announced_concat(a: Seq<HeaderView>, b: Seq<HeaderView>)
    ensures
        announced_length(a + b) == (match announced_length(a) {
            Some(v) => Some(v),
            None => announced_length(b),
        }),
    decreases a.len(),
{
    if a.len() == 0 {
        assert(a + b =~= b);
    } else {
        assert((a + b).drop_first() =~= a.drop_first() + b);
        assert((a + b)[0] == a[0]);
        lemma_announced_concat(a.drop_first(), b);
    }
}

proof fn lemma_writable_concat_headers(a: Seq<HeaderView>, b: Seq<HeaderView>)
    requires
        writable_headers(a),
        writable_headers(b),
    ensures
        writable_headers(a + b),
{
    assert forall|i: int| 0 <= i < (a + b).len() implies writable_name(
        (#[trigger] (a + b)[i]).name,
    ) && writable((a + b)[i].value) by {
        if i < a.len() {
            assert((a + b)[i] == a[i]);
        } else {
            assert((a + b)[i] == b[i - a.len()]);
        }
    }
}

/// Headers with names of the library's own and values that can be
/// written can be written, and none of them gives the length of the body.
proof fn lemma_own_headers(hs: Seq<HeaderView>)
    requires
        forall|i: int|
            0 <= i < hs.len() ==> is_own_name((#[trigger] hs[i]).name) && writable(hs[i].value),
    ensures
        writable_headers(hs),
        announced_length(hs) is None,
    decreases hs.len(),
{
    reveal_strlit("Via");
    reveal_strlit("Call-ID");
    reveal_strlit("From");
    reveal_strlit("To");
    reveal_strlit("CSeq");
    reveal_strlit("Contact");
    reveal_strlit("Route");
    reveal_strlit("Max-Forwards");
    reveal_strlit("Record-Route");
    reveal_strlit("Content-Length");
    assert forall|i: int| 0 <= i < hs.len() implies writable_name((#[trigger] hs[i]).name)
        && writable(hs[i].value) && !names_length(bytes_of(hs[i].name)) by {
        assert(is_own_name(hs[i].name));
        assert(hs[i].name != "Content-Length"@) by {
            assert("Content-Length"@.len() == 14);
        }
        lemma_own_names(hs[i].name);
    }
    if hs.len() > 0 {
        let later = hs.drop_first();
        assert forall|i: int| 0 <= i < later.len() implies is_own_name(
            (#[trigger] later[i]).name,
        ) && writable(later[i].value) by {
            assert(later[i] == hs[i + 1]);
        }
        lemma_own_headers(later);
        assert(!names_length(bytes_of(hs[0].name)));
    }
}

/// The last header of what the library builds: the length of the body.
proof fn lemma_length_header(body: Seq<u8>)
    ensures
        writable_headers(seq![header_of("Content-Length"@, decimal_of(body.len()))]),
        announced_length(seq![header_of("Content-Length"@, decimal_of(body.len()))]) == Some(
            decimal_of(body.len()),
        ),
{
    let h = header_of("Content-Length"@, decimal_of(body.len()));
    lemma_own_names("Content-Length"@);
    lemma_decimal_is_ascii(body.len());
    lemma_ascii_is_writable(decimal_of(body.len()));
    assert(seq![h][0] == h);
}

/// The texts can be written.
pub open spec fn all_writable(texts: Seq<Seq<char>>) -> bool {
    forall|i: int| 0 <= i < texts.len() ==> writable(#[trigger] texts[i])
}

/// A text that may be absent can be written.
pub open spec fn writable_or_absent(t: Option<Seq<char>>) -> bool {
    match t {
        Some(t) => writable(t),
        None => true,
    }
}

/// The requests that a dialog builds can be framed, where the texts that
/// the dialog and the caller supply can be written, none of the extra
/// headers gives the length of the body, and the body is no longer than
/// [`MAX_BODY_LENGTH`].
pub proof fn lemma_built_request_is_framable(
    d: DialogView,
    method: Method,
    cseq: Option<u32>,
    contact: Option<Seq<char>>,
    branch: Option<Seq<char>>,
    extra: Seq<HeaderView>,
    body: Seq<u8>,
)
    requires
        writable(d.local_via),
        writable(d.id.call_id),
        writable(d.from),
        writable(d.to),
        writable(d.remote_uri),
        writable_or_absent(d.local_contact),
        all_writable(d.route_set),
        writable_or_absent(contact),
        writable_or_absent(branch),
        writable_headers(extra),
        announced_length(extra) is None,
        body.len() <= MAX_BODY_LENGTH,
    ensures
        framable(
            SipMessageView::Request(built_request(d, method, cseq, contact, branch, extra, body)),
        ),
{
    let r = built_request(d, method, cseq, contact, branch, extra, body);
    reveal_strlit(";branch=");
    reveal_strlit(" ");
    reveal_strlit("70");
    lemma_ascii_is_writable(";branch="@);
    lemma_ascii_is_writable(" "@);
    lemma_ascii_is_writable("70"@);
    match branch {
        Some(b) => {
            lemma_writable_concat(d.local_via, ";branch="@);
            lemma_writable_concat(d.local_via + ";branch="@, b);
        },
        None => {},
    }
    let seq_no = request_seq(d, method, cseq);
    lemma_decimal_is_ascii(seq_no as nat);
    lemma_ascii_is_writable(decimal_of(seq_no as nat));
    lemma_method_name_bytes(method);
    assert(writable(method_name(method))) by {
        let b = bytes_of(method_name(method));
        assert forall|i: int| 0 <= i < b.len() implies #[trigger] b[i] != 13 && b[i] != 10 by {
            assert(is_upper(b[i]));
        }
    }
    lemma_writable_concat(decimal_of(seq_no as nat), " "@);
    lemma_writable_concat(decimal_of(seq_no as nat) + " "@, method_name(method));
    let first = seq![
        header_of("Via"@, via_value(d.local_via, branch)),
        header_of("Call-ID"@, d.id.call_id),
        header_of("From"@, d.from),
        header_of("To"@, d.to),
        header_of("CSeq"@, cseq_value(seq_no, method)),
    ];
    let contacts = contact_headers(d, contact);
    let routes = route_headers(d.route_set);
    let hops = seq![header_of("Max-Forwards"@, "70"@)];
    let own = first + contacts + routes + hops;
    assert forall|i: int| 0 <= i < own.len() implies is_own_name((#[trigger] own[i]).name)
        && writable(own[i].value) by {
        if i < 5 {
            assert(own[i] == first[i]);
        } else if i < 5 + contacts.len() {
            assert(own[i] == contacts[i - 5]);
        } else if i < 5 + contacts.len() + routes.len() {
            assert(own[i] == routes[i - 5 - contacts.len()]);
            assert(writable(d.route_set[i - 5 - contacts.len()]));
        } else {
            assert(own[i] == hops[0]);
        }
    }
    lemma_own_headers(own);
    let last = seq![header_of("Content-Length"@, decimal_of(body.len()))];
    lemma_length_header(body);
    lemma_writable_concat_headers(own, extra);
    lemma_writable_concat_headers(own + extra, last);
    lemma_announced_concat(own, extra);
    lemma_announced_concat(own + extra, last);
    assert(r.headers =~= own + extra + last);
}

/// Every value of the headers can be written.
pub open spec fn writable_values(hs: Seq<HeaderView>) -> bool {
    forall|i: int| 0 <= i < hs.len() ==> writable((#[trigger] hs[i]).value)
}

proof fn lemma_found_value_is_writable(hs: Seq<HeaderView>, name: Seq<char>, from: int)
    requires
        writable_values(hs),
        0 <= from,
    ensures
        header_value_from(hs, name, from) matches Some(v) ==> writable(v),
    decreases hs.len() - from,
{
    if from < hs.len() {
        assert(writable(hs[from].value));
        if hs[from].name != name {
            lemma_found_value_is_writable(hs, name, from + 1);
        }
    }
}

proof fn lemma_mirrored_is_own(hs: Seq<HeaderView>, name: Seq<char>)
    requires
        writable_values(hs),
        is_own_name(name),
    ensures
        forall|i: int|
            0 <= i < mirrored(hs, name).len() ==> is_own_name(
                (#[trigger] mirrored(hs, name)[i]).name,
            ) && writable(mirrored(hs, name)[i].value),
{
    lemma_found_value_is_writable(hs, name, 0);
}

proof fn lemma_named_reversed_is_own(hs: Seq<HeaderView>, name: Seq<char>, n: int)
    requires
        writable_values(hs),
        is_own_name(name),
        0 <= n <= hs.len(),
    ensures
        forall|i: int|
            0 <= i < named_reversed(hs, name, n).len() ==> is_own_name(
                (#[trigger] named_reversed(hs, name, n)[i]).name,
            ) && writable(named_reversed(hs, name, n)[i].value),
    decreases n,
{
    if n > 0 {
        lemma_named_reversed_is_own(hs, name, n - 1);
        let r = named_reversed(hs, name, n);
        let before = named_reversed(hs, name, n - 1);
        assert forall|i: int| 0 <= i < r.len() implies is_own_name((#[trigger] r[i]).name)
            && writable(r[i].value) by {
            if hs[n - 1].name == name {
                if i == 0 {
                    assert(r[0] == hs[n - 1]);
                    assert(writable(hs[n - 1].value));
                } else {
                    assert(r[i] == before[i - 1]);
                }
            }
        }
    }
}

proof fn lemma_own_concat(a: Seq<HeaderView>, b: Seq<HeaderView>)
    requires
        forall|i: int|
            0 <= i < a.len() ==> is_own_name((#[trigger] a[i]).name) && writable(a[i].value),
        forall|i: int|
            0 <= i < b.len() ==> is_own_name((#[trigger] b[i]).name) && writable(b[i].value),
    ensures
        forall|i: int|
            0 <= i < (a + b).len() ==> is_own_name((#[trigger] (a + b)[i]).name) && writable(
                (a + b)[i].value,
            ),
{
    assert forall|i: int| 0 <= i < (a + b).len() implies is_own_name((#[trigger] (a + b)[i]).name)
        && writable((a + b)[i].value) by {
        if i < a.len() {
            assert((a + b)[i] == a[i]);
        } else {
            assert((a + b)[i] == b[i - a.len()]);
        }
    }
}

/// The responses that a dialog builds can be framed, where the values of
/// the request's headers, the status text and the `To` with this side's
/// tag can be written, none of the extra headers gives the length of the
/// body, and the body is no longer than [`MAX_BODY_LENGTH`].
pub proof fn lemma_built_response_is_framable(
    d: DialogView,
    req: RequestView,
    status: u16,
    extra: Seq<HeaderView>,
    body: Seq<u8>,
)
    requires
        writable_values(req.headers),
        writable(status_text_of(status)),
        header_value(req.headers, "To"@) matches Some(to) ==> writable(
            tagged_to_value(to, local_tag(d)),
        ),
        writable_headers(extra),
        announced_length(extra) is None,
        body.len() <= MAX_BODY_LENGTH,
    ensures
        framable(SipMessageView::Response(built_response(d, req, status, extra, body))),
{
    let r = built_response(d, req, status, extra, body);
    let hs = req.headers;
    let via = mirrored(hs, "Via"@);
    let from = mirrored(hs, "From"@);
    let to = mirrored_to(hs, local_tag(d));
    let call_id = mirrored(hs, "Call-ID"@);
    let cseq = mirrored(hs, "CSeq"@);
    let routes = named_reversed(hs, "Record-Route"@, hs.len() as int);
    lemma_mirrored_is_own(hs, "Via"@);
    lemma_mirrored_is_own(hs, "From"@);
    lemma_mirrored_is_own(hs, "Call-ID"@);
    lemma_mirrored_is_own(hs, "CSeq"@);
    lemma_named_reversed_is_own(hs, "Record-Route"@, hs.len() as int);
    assert forall|i: int| 0 <= i < to.len() implies is_own_name((#[trigger] to[i]).name)
        && writable(to[i].value) by {}
    lemma_own_concat(via, from);
    lemma_own_concat(via + from, to);
    lemma_own_concat(via + from + to, call_id);
    lemma_own_concat(via + from + to + call_id, cseq);
    lemma_own_concat(via + from + to + call_id + cseq, routes);
    let own = via + from + to + call_id + cseq + routes;
    lemma_own_headers(own);
    let last = seq![header_of("Content-Length"@, decimal_of(body.len()))];
    lemma_length_header(body);
    lemma_writable_concat_headers(own, extra);
    lemma_writable_concat_headers(own + extra, last);
    lemma_announced_concat(own, extra);
    lemma_announced_concat(own + extra, last);
    assert(r.headers =~= own + extra + last);
}

} // verus!
