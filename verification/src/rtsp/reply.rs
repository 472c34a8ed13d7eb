//! Replies: how far they have come in, and what they are.
use crate::rtsp::message::{
    head_of, header_pairs, parse_http_header, Head, HeadView, Header,
};
use crate::text::read_lossy;
use vstd::prelude::*;
use vstd::slice::{slice_subrange, slice_to_vec};

verus! {

/// The longest head that is read.
pub const HEAD_LIMIT: usize = 16384;

/// A reply that reports success.
pub struct Response {
    pub status: u16,
    pub headers: Vec<Header>,
    pub body: Vec<u8>,
}

#[verifier::ext_equal]
pub struct ResponseView {
    pub status: u16,
    pub headers: Seq<(Seq<char>, Seq<char>)>,
    pub body: Seq<u8>,
}

impl View for Response {
    type V = ResponseView;

    open spec fn view(&self) -> ResponseView {
        ResponseView {
            status: self.status,
            headers: header_pairs(self.headers@),
            body: self.body@,
        }
    }
}

/// Why there is no reply to use.
pub enum ReplyError {
    /// The receiver answered with another status than success.
    Status { status: u16, body: Vec<u8> },
    /// The head is longer than any that is read.
    HeadTooLarge,
}

/// Whether a status reports success.
#[verifier::allow_in_spec]
pub fn is_success(status: u16) -> bool
    returns
        status >= 200 && status < 300,
{
    status >= 200 && status < 300
}

/// Whether a result is the reply that a head and a body make: the reply itself if its status
/// reports success, else the status and the body.
pub open spec fn is_reply(r: Result<Response, ReplyError>, h: HeadView, body: Seq<u8>) -> bool {
    if is_success(h.status) {
        r matches Ok(got) && got@ == (ResponseView { status: h.status, headers: h.headers, body })
    } else {
        r is Err && r->Err_0 is Status && r->Err_0->status == h.status && r->Err_0->body@ == body
    }
}

/// Makes a reply of a head and a body.
pub fn finish_response(head: Head, body: Vec<u8>) -> (r: Result<Response, ReplyError>)
    ensures
        is_reply(r, head@, body@),
{
    if !is_success(head.status) {
        return Err(ReplyError::Status { status: head.status, body });
    }
    Ok(Response { status: head.status, headers: head.headers, body })
}

/// Whether a byte string stands at a place in another.
pub open spec fn occurs_at(h: Seq<u8>, needle: Seq<u8>, i: int) -> bool {
    0 <= i && i + needle.len() <= h.len() && h.subrange(i, i + needle.len()) == needle
}

/// Where a byte string first occurs in another from `i` on; an empty one occurs nowhere.
pub open spec fn found_at(h: Seq<u8>, needle: Seq<u8>, i: int) -> Option<int>
    decreases h.len() - i,
{
    if needle.len() == 0 || i + needle.len() > h.len() {
        None
    } else if occurs_at(h, needle, i) {
        Some(i)
    } else {
        found_at(h, needle, i + 1)
    }
}

/// Where a byte string first occurs in another.
pub fn find_subslice(haystack: &[u8], needle: &[u8]) -> (r: Option<usize>)
    ensures
        match found_at(haystack@, needle@, 0) {
            Some(i) => r matches Some(k) && k == i && i + needle@.len() <= haystack@.len(),
            None => r is None,
        },
{
    if needle.len() == 0 || haystack.len() < needle.len() {
        return None;
    }
    let last: usize = haystack.len() - needle.len();
    let mut i: usize = 0;
    while i <= last
        invariant
            i <= last + 1,
            last + needle.len() == haystack.len(),
            needle@.len() > 0,
            found_at(haystack@, needle@, 0) == found_at(haystack@, needle@, i as int),
        decreases last + 1 - i,
    {
        if crate::bytes::same_bytes(
            slice_subrange(haystack, i, i + needle.len()),
            needle,
        ) {
            return Some(i);
        }
        i += 1;
    }
    None
}

/// The end of a head.
pub const HEAD_END: [u8; 4] = [0x0d, 0x0a, 0x0d, 0x0a];

/// How far a head in the clear has come in, byte by byte.
#[derive(Clone, Copy, Debug, PartialEq, Eq, Structural)]
pub enum HeadProgress {
    More,
    Complete,
    TooLarge,
}

/// Whether a head that is read byte by byte is complete with its last byte.
pub fn head_progress(head: &[u8]) -> (r: HeadProgress)
    ensures
        r == (if head@.len() >= 4 && head@.skip(head@.len() - 4) == HEAD_END@ {
            HeadProgress::Complete
        } else if head@.len() > HEAD_LIMIT {
            HeadProgress::TooLarge
        } else {
            HeadProgress::More
        }),
{
    let n: usize = head.len();
    if n >= 4 {
        let tail: &[u8] = slice_subrange(head, n - 4, n);
        assert(tail@ =~= head@.skip(n - 4));
        if crate::bytes::same_bytes(tail, &HEAD_END) {
            return HeadProgress::Complete;
        }
    }
    if n > HEAD_LIMIT {
        HeadProgress::TooLarge
    } else {
        HeadProgress::More
    }
}

/// Makes a reply of what was read in the clear: a complete head, and a body of the length that it
/// states.
pub fn plain_response(head: &[u8], body: Vec<u8>) -> (r: Result<Response, ReplyError>)
    ensures
        is_reply(r, head_of(read_lossy(head@)), body@),
{
    finish_response(parse_http_header(head), body)
}

/// What the plaintext of the frames so far comes to.
pub enum ReadStep {
    /// More frames are needed.
    More,
    Done(Response),
}

/// Whether a result is what the plaintext so far comes to: the reply once its head and the body
/// that it announces are there; an error when there is too much without an end of the head.
pub open spec fn is_step(r: Result<ReadStep, ReplyError>, got: Seq<u8>) -> bool {
    match found_at(got, HEAD_END@, 0) {
        None => if got.len() > HEAD_LIMIT {
            r is Err && r->Err_0 is HeadTooLarge
        } else {
            r is Ok && r->Ok_0 is More
        },
        Some(i) => {
            let head = head_of(read_lossy(got.take(i + 4)));
            if got.len() - (i + 4) < head.content_length {
                r is Ok && r->Ok_0 is More
            } else {
                let body = got.subrange(i + 4, i + 4 + head.content_length);
                if is_success(head.status) {
                    r is Ok && r->Ok_0 is Done && r->Ok_0->Done_0@ == (ResponseView {
                        status: head.status,
                        headers: head.headers,
                        body,
                    })
                } else {
                    r is Err && r->Err_0 is Status && r->Err_0->status == head.status
                        && r->Err_0->body@ == body
                }
            }
        },
    }
}

/// Gathers the plaintext of frames into a reply.
pub struct FramedReply {
    pub got: Vec<u8>,
}

impl FramedReply {
    pub fn new() -> (r: FramedReply)
        ensures
            r.got@ == Seq::<u8>::empty(),
    {
        let r = FramedReply { got: Vec::new() };
        assert(r.got@ =~= Seq::<u8>::empty());
        r
    }

    /// Takes the plaintext of the next frame.
    pub fn push(&mut self, plain: &[u8]) -> (r: Result<ReadStep, ReplyError>)
        ensures
            final(self).got@ == old(self).got@ + plain@,
            is_step(r, final(self).got@),
    {
        crate::bytes::extend(&mut self.got, plain);
        let total: usize = self.got.len();
        match find_subslice(self.got.as_slice(), &HEAD_END) {
            None => {
                if total > HEAD_LIMIT {
                    Err(ReplyError::HeadTooLarge)
                } else {
                    Ok(ReadStep::More)
                }
            },
            Some(i) => {
                let start: usize = i + 4;
                let bytes: &[u8] = slice_subrange(self.got.as_slice(), 0, start);
                assert(bytes@ =~= self.got@.take(i + 4));
                let head = parse_http_header(bytes);
                if total - start < head.content_length {
                    return Ok(ReadStep::More);
                }
                let end: usize = start + head.content_length;
                let body: Vec<u8> = slice_to_vec(
                    slice_subrange(self.got.as_slice(), start, end),
                );
                match finish_response(head, body) {
                    Ok(response) => Ok(ReadStep::Done(response)),
                    Err(e) => Err(e),
                }
            },
        }
    }
}

pub(crate) proof fn lemma_found_bounds(h: Seq<u8>, needle: Seq<u8>, i: int)
    requires
        0 <= i,
    ensures
        match found_at(h, needle, i) {
            Some(k) => i <= k && occurs_at(h, needle, k) && (forall|j: int|
                i <= j < k ==> !occurs_at(h, needle, j)),
            None => needle.len() > 0 ==> forall|j: int| i <= j ==> !occurs_at(h, needle, j),
        },
    decreases h.len() - i,
{
    if needle.len() > 0 && i + needle.len() <= h.len() && !occurs_at(h, needle, i) {
        lemma_found_bounds(h, needle, i + 1);
    }
}

/// More bytes never move the end of a head that is there.
pub proof fn lemma_head_end_stays(got: Seq<u8>, more: Seq<u8>)
    requires
        found_at(got, HEAD_END@, 0) is Some,
    ensures
        found_at(got + more, HEAD_END@, 0) == found_at(got, HEAD_END@, 0),
{
    let all = got + more;
    let k = found_at(got, HEAD_END@, 0)->Some_0;
    lemma_found_bounds(got, HEAD_END@, 0);
    lemma_found_bounds(all, HEAD_END@, 0);
    assert(all.subrange(k, k + 4) =~= got.subrange(k, k + 4));
    assert(occurs_at(all, HEAD_END@, k));
    assert forall|j: int| 0 <= j < k implies !occurs_at(all, HEAD_END@, j) by {
        assert(!occurs_at(got, HEAD_END@, j));
        assert(all.subrange(j, j + 4) =~= got.subrange(j, j + 4));
    }
}

} // verus!
