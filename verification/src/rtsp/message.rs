//! Requests, and the text of replies.
use crate::bytes::extend;
use crate::text::{
    chars, decimal_of, find_char, find_word_end, from_chars, from_utf8_lossy, index_of_char, is_space,
    lemma_word_end, lowered, parse_unsigned, push_decimal, read_lossy, same, to_lowered, trim, trimmed,
    unsigned_of, word_end,
};
use vstd::prelude::*;
use vstd::slice::{slice_subrange, slice_to_vec};
use vstd::utf8::encode_utf8;

verus! {

pub const USER_AGENT: &'static str = "AirPlay/935.7.1";

/// A header line.
#[derive(Clone, Debug)]
pub struct Header {
    pub name: String,
    pub value: String,
}

impl View for Header {
    type V = (Seq<char>, Seq<char>);

    open spec fn view(&self) -> (Seq<char>, Seq<char>) {
        (self.name@, self.value@)
    }
}

/// The names and values of header lines.
pub open spec fn header_pairs(h: Seq<Header>) -> Seq<(Seq<char>, Seq<char>)> {
    h.map_values(|x: Header| x@)
}

pub(crate) fn header(name: &str, value: &str) -> (r: Header)
    ensures
        r@ == (name@, value@),
{
    Header { name: name.to_owned(), value: value.to_owned() }
}

/// Header lines as they are sent.
pub open spec fn header_text(h: Seq<(Seq<char>, Seq<char>)>) -> Seq<char>
    decreases h.len(),
{
    if h.len() == 0 {
        Seq::empty()
    } else {
        header_text(h.drop_last()) + h.last().0 + ": "@ + h.last().1 + "\r\n"@
    }
}

fn push_headers(out: &mut String, headers: &[Header])
    ensures
        final(out)@ == old(out)@ + header_text(header_pairs(headers@)),
{
    let ghost start = out@;
    let ghost all = header_pairs(headers@);
    let mut i: usize = 0;
    assert(out@ =~= start + header_text(all.take(0)));
    while i < headers.len()
        invariant
            i <= headers@.len(),
            all == header_pairs(headers@),
            out@ == start + header_text(all.take(i as int)),
        decreases headers.len() - i,
    {
        let ghost before = out@;
        out.push_str(headers[i].name.as_str());
        out.push_str(": ");
        out.push_str(headers[i].value.as_str());
        out.push_str("\r\n");
        let ghost next = all.take(i + 1);
        assert(next.drop_last() =~= all.take(i as int));
        assert(next.last() == headers@[i as int]@);
        assert(out@ =~= start + header_text(next));
        i += 1;
    }
    assert(all.take(i as int) =~= all);
}

/// The head of a request: the request line, the sequence number, the agent, the given headers, the
/// type of the body where there is one, and its length.
pub open spec fn request_head(
    method: Seq<char>,
    path: Seq<char>,
    content_type: Seq<char>,
    len: nat,
    headers: Seq<(Seq<char>, Seq<char>)>,
    seq: u64,
) -> Seq<char> {
    method + " "@ + path + " RTSP/1.0\r\nCSeq: "@ + decimal_of(seq as nat) + "\r\nUser-Agent: "@
        + USER_AGENT@ + "\r\n"@ + header_text(headers) + (if content_type.len() > 0 && len > 0 {
        "Content-Type: "@ + content_type + "\r\n"@
    } else {
        Seq::empty()
    }) + "Content-Length: "@ + decimal_of(len) + "\r\n\r\n"@
}

/// The head of a raw request, which names the protocol version and ends in the sequence number.
pub open spec fn raw_request_head(
    method: Seq<char>,
    path: Seq<char>,
    content_type: Seq<char>,
    len: nat,
    headers: Seq<(Seq<char>, Seq<char>)>,
    seq: u64,
) -> Seq<char> {
    method + " "@ + path + " RTSP/1.0\r\nContent-Type: "@ + content_type + "\r\nUser-Agent: "@
        + USER_AGENT@ + "\r\nX-Apple-ProtocolVersion: 1\r\n"@ + header_text(headers)
        + "Content-Length: "@ + decimal_of(len) + "\r\nCSeq: "@ + decimal_of(seq as nat)
        + "\r\n\r\n"@
}

/// A request in the clear.
pub fn request_bytes(
    method: &str,
    path: &str,
    content_type: &str,
    body: &[u8],
    headers: &[Header],
    seq: u64,
) -> (r: Vec<u8>)
    ensures
        r@ == encode_utf8(
            request_head(
                method@,
                path@,
                content_type@,
                body@.len(),
                header_pairs(headers@),
                seq,
            ),
        ) + body@,
{
    let mut head: String = method.to_owned();
    head.push_str(" ");
    head.push_str(path);
    head.push_str(" RTSP/1.0\r\nCSeq: ");
    push_decimal(&mut head, seq);
    head.push_str("\r\nUser-Agent: ");
    head.push_str(USER_AGENT);
    head.push_str("\r\n");
    push_headers(&mut head, headers);
    let typed: bool = !content_type.is_empty() && body.len() > 0;
    let ghost before = head@;
    if typed {
        head.push_str("Content-Type: ");
        head.push_str(content_type);
        head.push_str("\r\n");
    }
    assert(head@ =~= before + (if content_type@.len() > 0 && body@.len() > 0 {
        "Content-Type: "@ + content_type@ + "\r\n"@
    } else {
        Seq::empty()
    }));
    head.push_str("Content-Length: ");
    push_decimal(&mut head, body.len() as u64);
    head.push_str("\r\n\r\n");
    let mut out: Vec<u8> = slice_to_vec(head.as_str().as_bytes());
    extend(&mut out, body);
    out
}

/// A raw request in the clear.
pub fn raw_request_bytes(
    method: &str,
    path: &str,
    content_type: &str,
    body: &[u8],
    headers: &[Header],
    seq: u64,
) -> (r: Vec<u8>)
    ensures
        r@ == encode_utf8(
            raw_request_head(
                method@,
                path@,
                content_type@,
                body@.len(),
                header_pairs(headers@),
                seq,
            ),
        ) + body@,
{
    let mut head: String = method.to_owned();
    head.push_str(" ");
    head.push_str(path);
    head.push_str(" RTSP/1.0\r\nContent-Type: ");
    head.push_str(content_type);
    head.push_str("\r\nUser-Agent: ");
    head.push_str(USER_AGENT);
    head.push_str("\r\nX-Apple-ProtocolVersion: 1\r\n");
    push_headers(&mut head, headers);
    head.push_str("Content-Length: ");
    push_decimal(&mut head, body.len() as u64);
    head.push_str("\r\nCSeq: ");
    push_decimal(&mut head, seq);
    head.push_str("\r\n\r\n");
    let mut out: Vec<u8> = slice_to_vec(head.as_str().as_bytes());
    extend(&mut out, body);
    out
}

/// Where a list of headers holds a name from `i` on.
pub open spec fn header_index(h: Seq<(Seq<char>, Seq<char>)>, name: Seq<char>, i: int) -> Option<
    int,
>
    decreases h.len() - i,
{
    if i >= h.len() {
        None
    } else if h[i].0 == name {
        Some(i)
    } else {
        header_index(h, name, i + 1)
    }
}

/// The list with a name set to a value, in place where it is there already.
pub open spec fn header_put(h: Seq<(Seq<char>, Seq<char>)>, name: Seq<char>, value: Seq<char>) -> Seq<
    (Seq<char>, Seq<char>),
> {
    match header_index(h, name, 0) {
        Some(i) => h.update(i, (name, value)),
        None => h.push((name, value)),
    }
}

/// The value of a name.
pub open spec fn header_get(h: Seq<(Seq<char>, Seq<char>)>, name: Seq<char>) -> Option<Seq<char>> {
    match header_index(h, name, 0) {
        Some(i) => Some(h[i].1),
        None => None,
    }
}

fn find_header(h: &[Header], name: &str) -> (r: Option<usize>)
    ensures
        match header_index(header_pairs(h@), name@, 0) {
            Some(i) => r matches Some(k) && k == i && i < h@.len(),
            None => r is None,
        },
{
    let ghost all = header_pairs(h@);
    let mut i: usize = 0;
    while i < h.len()
        invariant
            i <= h@.len(),
            all == header_pairs(h@),
            header_index(all, name@, 0) == header_index(all, name@, i as int),
        decreases h.len() - i,
    {
        assert(all[i as int] == h@[i as int]@);
        if same(h[i].name.as_str(), name) {
            return Some(i);
        }
        i += 1;
    }
    None
}

/// The value of a header.
pub fn get_header<'a>(h: &'a [Header], name: &str) -> (r: Option<&'a String>)
    ensures
        match header_get(header_pairs(h@), name@) {
            Some(v) => r matches Some(found) && found@ == v,
            None => r is None,
        },
{
    match find_header(h, name) {
        Some(i) => Some(&h[i].value),
        None => None,
    }
}

fn put_header(h: &mut Vec<Header>, name: String, value: String)
    ensures
        header_pairs(final(h)@) == header_put(header_pairs(old(h)@), name@, value@),
{
    match find_header(h.as_slice(), name.as_str()) {
        Some(i) => {
            h[i] = Header { name, value };
            assert(header_pairs(h@) =~= header_pairs(old(h)@).update(i as int, (name@, value@)));
        },
        None => {
            h.push(Header { name, value });
            assert(header_pairs(h@) =~= header_pairs(old(h)@).push((name@, value@)));
        },
    }
}

/// Where the line that starts at `i` ends: before the next line break, or at the end of the text.
pub open spec fn line_end(s: Seq<char>, i: int) -> int
    decreases s.len() - i,
{
    if i + 1 >= s.len() {
        s.len() as int
    } else if s[i] == '\r' && s[i + 1] == '\n' {
        i
    } else {
        line_end(s, i + 1)
    }
}

/// The first word of a line, from `i` on, that is a number of 16 bits; 0 when there is none.
pub open spec fn status_from(s: Seq<char>, i: int) -> u16
    decreases s.len() - i,
    when 0 <= i
    via status_from_ends
{
    if i >= s.len() {
        0
    } else if is_space(s[i]) {
        status_from(s, i + 1)
    } else {
        let end = word_end(s, i);
        match unsigned_of(s.subrange(i, end), 65535) {
            Some(n) => n as u16,
            None => status_from(s, end),
        }
    }
}

#[via_fn]
proof fn status_from_ends(s: Seq<char>, i: int) {
    if i < s.len() && !is_space(s[i]) {
        lemma_word_end(s, i + 1);
    }
}

proof fn lemma_line_end(s: Seq<char>, i: int)
    requires
        0 <= i <= s.len(),
    ensures
        i <= line_end(s, i) <= s.len(),
        line_end(s, i) < s.len() ==> line_end(s, i) + 2 <= s.len(),
    decreases s.len() - i,
{
    if i + 1 < s.len() && !(s[i] == '\r' && s[i + 1] == '\n') {
        lemma_line_end(s, i + 1);
    }
}

/// What the head of a reply states.
#[verifier::ext_equal]
pub struct HeadView {
    pub status: u16,
    pub content_length: nat,
    pub headers: Seq<(Seq<char>, Seq<char>)>,
}

/// A header line taken in: a name in lower case before the first colon, a value after it, both
/// without the white space around them. A line without a name counts for nothing. The length of
/// the body is taken from its header, 0 when that is no number.
pub open spec fn line_taken(h: HeadView, line: Seq<char>) -> HeadView {
    let colon = index_of_char(line, ':', 0);
    let name = lowered(trimmed(line.take(colon)));
    let value = trimmed(line.skip(colon + 1));
    if colon >= line.len() || name.len() == 0 {
        h
    } else {
        HeadView {
            headers: header_put(h.headers, name, value),
            content_length: if name == "content-length"@ {
                match unsigned_of(value, usize::MAX as nat) {
                    Some(n) => n,
                    None => 0,
                }
            } else {
                h.content_length
            },
            ..h
        }
    }
}

/// The lines from `i` on taken in.
pub open spec fn lines_taken(h: HeadView, s: Seq<char>, i: int) -> HeadView
    decreases s.len() - i,
    when 0 <= i <= s.len()
    via lines_taken_ends
{
    let end = line_end(s, i);
    let next = line_taken(h, s.subrange(i, end));
    if end >= s.len() {
        next
    } else {
        lines_taken(next, s, end + 2)
    }
}

#[via_fn]
proof fn lines_taken_ends(h: HeadView, s: Seq<char>, i: int) {
    lemma_line_end(s, i);
}

/// What the head of a reply states: the status in its first line, the headers in the others.
pub open spec fn head_of(s: Seq<char>) -> HeadView {
    let end = line_end(s, 0);
    let first = HeadView {
        status: status_from(s.take(end), 0),
        content_length: 0,
        headers: Seq::empty(),
    };
    if end >= s.len() {
        first
    } else {
        lines_taken(first, s, end + 2)
    }
}

/// The head of a reply.
pub struct Head {
    pub status: u16,
    pub content_length: usize,
    pub headers: Vec<Header>,
}

impl View for Head {
    type V = HeadView;

    open spec fn view(&self) -> HeadView {
        HeadView {
            status: self.status,
            content_length: self.content_length as nat,
            headers: header_pairs(self.headers@),
        }
    }
}

fn find_line_end(s: &[char], from: usize) -> (r: usize)
    requires
        from <= s@.len(),
    ensures
        r == line_end(s@, from as int),
        from <= r <= s@.len(),
        r < s@.len() ==> r + 2 <= s@.len(),
{
    let mut i: usize = from;
    while i < s.len() && s.len() - i > 1
        invariant
            from <= i <= s@.len(),
            line_end(s@, from as int) == line_end(s@, i as int),
        decreases s.len() - i,
    {
        if s[i] == '\r' && s[i + 1] == '\n' {
            return i;
        }
        i += 1;
    }
    s.len()
}

fn read_status(line: &[char]) -> (r: u16)
    ensures
        r == status_from(line@, 0),
{
    let mut i: usize = 0;
    while i < line.len()
        invariant
            i <= line@.len(),
            status_from(line@, 0) == status_from(line@, i as int),
        decreases line.len() - i,
    {
        if is_space(line[i]) {
            i += 1;
        } else {
            let end: usize = find_word_end(line, i);
            proof {
                lemma_word_end(line@, i + 1);
            }
            match parse_unsigned(slice_subrange(line, i, end), 65535) {
                Some(n) => {
                    return n as u16;
                },
                None => {
                    i = end;
                },
            }
        }
    }
    0
}

fn take_line(h: &mut Head, line: &[char])
    ensures
        final(h)@ == line_taken(old(h)@, line@),
{
    let colon: usize = find_char(line, ':', 0);
    if colon >= line.len() {
        return ;
    }
    let before: &[char] = slice_subrange(line, 0, colon);
    let after: &[char] = slice_subrange(line, colon + 1, line.len());
    assert(before@ =~= line@.take(colon as int));
    assert(after@ =~= line@.skip(colon + 1));
    let name: Vec<char> = to_lowered(trim(before).as_slice());
    let value: Vec<char> = trim(after);
    if name.len() == 0 {
        return ;
    }
    let name = from_chars(name.as_slice());
    if same(name.as_str(), "content-length") {
        h.content_length = match parse_unsigned(value.as_slice(), usize::MAX as u64) {
            Some(n) => n as usize,
            None => 0,
        };
    }
    put_header(&mut h.headers, name, from_chars(value.as_slice()));
}

/// Reads the head of a reply.
pub fn parse_http_header(header: &[u8]) -> (r: Head)
    ensures
        r@ == head_of(read_lossy(header@)),
{
    let text: Vec<char> = chars(from_utf8_lossy(header).as_str());
    parse_head(text.as_slice())
}

/// Reads the head of a reply from its characters.
pub fn parse_head(text: &[char]) -> (r: Head)
    ensures
        r@ == head_of(text@),
{
    let mut end: usize = find_line_end(text, 0);
    let first: &[char] = slice_subrange(text, 0, end);
    assert(first@ =~= text@.take(end as int));
    let mut h = Head { status: read_status(first), content_length: 0, headers: Vec::new() };
    assert(header_pairs(h.headers@) =~= Seq::empty());
    let ghost want = head_of(text@);
    while end < text.len()
        invariant
            end <= text@.len(),
            end < text@.len() ==> end + 2 <= text@.len(),
            want == (if end >= text@.len() {
                h@
            } else {
                lines_taken(h@, text@, end + 2)
            }),
        decreases text.len() - end,
    {
        let start: usize = end + 2;
        end = find_line_end(text, start);
        take_line(&mut h, slice_subrange(text, start, end));
    }
    h
}

proof fn lemma_header_index(h: Seq<(Seq<char>, Seq<char>)>, name: Seq<char>, i: int)
    requires
        0 <= i,
    ensures
        match header_index(h, name, i) {
            Some(k) => i <= k < h.len() && h[k].0 == name && (forall|j: int|
                i <= j < k ==> h[j].0 != name),
            None => forall|j: int| i <= j < h.len() ==> h[j].0 != name,
        },
    decreases h.len() - i,
{
    if i < h.len() && h[i].0 != name {
        lemma_header_index(h, name, i + 1);
    }
}

/// A header that was set is read back; every other one is as it was.
pub proof fn lemma_put_then_get(
    h: Seq<(Seq<char>, Seq<char>)>,
    name: Seq<char>,
    value: Seq<char>,
    other: Seq<char>,
)
    ensures
        header_get(header_put(h, name, value), name) == Some(value),
        other != name ==> header_get(header_put(h, name, value), other) == header_get(h, other),
{
    let after = header_put(h, name, value);
    lemma_header_index(h, name, 0);
    lemma_header_index(after, name, 0);
    lemma_header_index(h, other, 0);
    lemma_header_index(after, other, 0);
    match header_index(h, name, 0) {
        Some(i) => {
            assert(after[i].0 == name);
            assert forall|j: int| 0 <= j < h.len() && j != i implies after[j] == h[j] by {}
        },
        None => {
            assert(after[h.len() as int].0 == name);
            assert forall|j: int| 0 <= j < h.len() implies after[j] == h[j] by {}
        },
    }
}

} // verus!
