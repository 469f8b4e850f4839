//! What is noted of the HTTP traffic through a tunnel: the method and the path of
//! the request, and the status of the response.
use crate::text;
use vstd::prelude::*;

verus! {

/// How many headers a request or a response may have to be understood.
pub const MAX_HEADERS: usize = 32;

/// What became of reading the head of a request or of a response.
#[derive(Debug, Clone, Copy, PartialEq, Eq, Structural)]
pub enum HeadStatus {
    /// All of the head is there.
    Complete,
    /// More bytes are needed.
    Partial,
    /// This is no head, or one with too many headers.
    Invalid,
}

/// What `httparse` reads of the head of a request that may have `max_headers`
/// headers: how far it comes, the method and the path.
pub uninterp spec fn request_head(bytes: Seq<u8>, max_headers: usize) -> (
    HeadStatus,
    Option<Seq<char>>,
    Option<Seq<char>>,
);

/// What `httparse` reads of the head of a response that may have `max_headers`
/// headers: how far it comes, and the status code.
pub uninterp spec fn response_head(bytes: Seq<u8>, max_headers: usize) -> (HeadStatus, Option<u16>);

/// `httparse::Request::parse` into a new request: the outcome, the method and the
/// path are a function of the bytes and of the number of headers there is room
/// for. What function that is, is not stated.
#[verifier::external_body]
fn parse_request(bytes: &[u8], max_headers: usize) -> (r: (
    HeadStatus,
    Option<String>,
    Option<String>,
))
    requires
        max_headers <= MAX_HEADERS,
    ensures
        (r.0, text::optional(r.1), text::optional(r.2)) == request_head(bytes@, max_headers),
{
    let mut headers = vec![httparse::EMPTY_HEADER; max_headers];
    let mut request = httparse::Request::new(&mut headers);
    let status = match request.parse(bytes) {
        Ok(httparse::Status::Complete(_)) => HeadStatus::Complete,
        Ok(httparse::Status::Partial) => HeadStatus::Partial,
        Err(_) => HeadStatus::Invalid,
    };
    (status, request.method.map(String::from), request.path.map(String::from))
}

/// `httparse::Response::parse` into a new response: the outcome and the code are
/// a function of the bytes and of the number of headers there is room for, and a
/// complete head has a code. What function it is, is not stated.
#[verifier::external_body]
fn parse_response(bytes: &[u8], max_headers: usize) -> (r: (HeadStatus, Option<u16>))
    requires
        max_headers <= MAX_HEADERS,
    ensures
        r == response_head(bytes@, max_headers),
        r.0 == HeadStatus::Complete ==> r.1 is Some,
{
    let mut headers = vec![httparse::EMPTY_HEADER; max_headers];
    let mut response = httparse::Response::new(&mut headers);
    let status = match response.parse(bytes) {
        Ok(httparse::Status::Complete(_)) => HeadStatus::Complete,
        Ok(httparse::Status::Partial) => HeadStatus::Partial,
        Err(_) => HeadStatus::Invalid,
    };
    (status, response.code)
}

/// The method and the path of a request; a part that was not read is empty.
#[derive(Debug)]
pub struct RequestLine {
    pub method: String,
    pub path: String,
}

/// A request line with its texts as sequences.
pub struct RequestLineView {
    pub method: Seq<char>,
    pub path: Seq<char>,
}

impl View for RequestLine {
    type V = RequestLineView;

    open spec fn view(&self) -> RequestLineView {
        RequestLineView { method: self.method@, path: self.path@ }
    }
}

/// A text, or the empty one where it is missing.
pub open spec fn or_empty(text: Option<Seq<char>>) -> Seq<char> {
    match text {
        Some(text) => text,
        None => Seq::empty(),
    }
}

/// What is noted of the head of a request: nothing if it is invalid.
pub open spec fn noted_request(
    head: (HeadStatus, Option<Seq<char>>, Option<Seq<char>>),
) -> Option<RequestLineView> {
    if head.0 == HeadStatus::Invalid {
        None
    } else {
        Some(RequestLineView { method: or_empty(head.1), path: or_empty(head.2) })
    }
}

/// A text, or the empty one where it is missing.
fn text_or_empty(text: Option<String>) -> (r: String)
    ensures
        r@ == or_empty(text::optional(text)),
{
    match text {
        Some(text) => text,
        None => {
            let r: String = String::new();
            assert(r@ =~= Seq::empty());
            r
        },
    }
}

/// A request line that may be missing.
pub open spec fn line_view(line: Option<RequestLine>) -> Option<RequestLineView> {
    match line {
        Some(line) => Some(line@),
        None => None,
    }
}

/// Notes the method and the path of a request from what was read of its head.
pub fn note_request(status: HeadStatus, method: Option<String>, path: Option<String>) -> (r: Option<
    RequestLine,
>)
    ensures
        line_view(r) == noted_request((status, text::optional(method), text::optional(path))),
{
    match status {
        HeadStatus::Invalid => None,
        _ => Some(RequestLine { method: text_or_empty(method), path: text_or_empty(path) }),
    }
}

/// Reads the method and the path off the first bytes of a request, which need not
/// be all of it. `None` if they are no request.
pub fn read_request_line(bytes: &[u8]) -> (r: Option<RequestLine>)
    ensures
        line_view(r) == noted_request(request_head(bytes@, MAX_HEADERS)),
{
    let (status, method, path) = parse_request(bytes, MAX_HEADERS);
    note_request(status, method, path)
}

/// The status code that is known after the head of a response was looked for: the
/// new one if all of a head is there, else the one that was known before.
pub open spec fn noted_code(known: Option<u16>, head: (HeadStatus, Option<u16>)) -> Option<u16> {
    if head.0 == HeadStatus::Complete && head.1 is Some {
        head.1
    } else {
        known
    }
}

/// Notes the status code from what was read of the head of a response.
pub fn note_code(known: Option<u16>, status: HeadStatus, code: Option<u16>) -> (r: Option<u16>)
    ensures
        r == noted_code(known, (status, code)),
{
    match (status, code) {
        (HeadStatus::Complete, Some(code)) => Some(code),
        _ => known,
    }
}

/// Watches the bytes of a stream as they are read, for the status codes of the
/// responses in them.
#[derive(Debug, Clone, Copy, PartialEq, Eq, Structural)]
pub struct PeekReader {
    pub status_code: Option<u16>,
}

impl PeekReader {
    /// A reader that has seen nothing.
    pub fn new() -> (r: PeekReader)
        ensures
            r.status_code is None,
    {
        PeekReader { status_code: None }
    }

    /// Looks at what a read brought: the buffer is filled up to the end of `filled`,
    /// and was up to `pre_filled` before. What one read brings is looked at by
    /// itself, and only if the read is `ready`: done, and without an error.
    pub fn poll_read(&mut self, ready: bool, filled: &[u8], pre_filled: usize)
        requires
            pre_filled <= filled@.len(),
        ensures
            !ready ==> *final(self) == *old(self),
            ready ==> final(self).status_code == noted_code(
                old(self).status_code,
                response_head(filled@.skip(pre_filled as int), MAX_HEADERS),
            ),
            ready && response_head(filled@.skip(pre_filled as int), MAX_HEADERS).0
                == HeadStatus::Complete ==> final(self).status_code is Some,
            ready && response_head(filled@.skip(pre_filled as int), MAX_HEADERS).0
                == HeadStatus::Complete ==> final(self).status_code == response_head(
                filled@.skip(pre_filled as int),
                MAX_HEADERS,
            ).1,
    {
        if !ready {
            return;
        }
        let n: usize = filled.len();
        let new_bytes: &[u8] = vstd::slice::slice_subrange(filled, pre_filled, n);
        assert(new_bytes@ =~= filled@.skip(pre_filled as int));
        let (status, code) = parse_response(new_bytes, MAX_HEADERS);
        self.status_code = note_code(self.status_code, status, code);
    }
}

/// A read without all of a head leaves the status code that is known, and it
/// never gets lost.
pub proof fn law_known_code_is_kept(known: u16, head: (HeadStatus, Option<u16>))
    ensures
        noted_code(Some(known), head) is Some,
        head.0 != HeadStatus::Complete ==> noted_code(Some(known), head) == Some(known),
{
}

/// A request is noted whether all of its head has arrived or only a part of it,
/// with the method and the path that were read, and with nothing in place of one that
/// was not. Only what is no request is not noted.
pub proof fn law_request_is_noted_as_read(
    status: HeadStatus,
    method: Option<Seq<char>>,
    path: Option<Seq<char>>,
)
    ensures
        noted_request((status, method, path)) is None <==> status == HeadStatus::Invalid,
        noted_request((status, method, path)) matches Some(line) ==> {
            &&& method matches Some(read) ==> line.method == read
            &&& path matches Some(read) ==> line.path == read
            &&& method is None ==> line.method.len() == 0
            &&& path is None ==> line.path.len() == 0
        },
        MAX_HEADERS == 32,
{
}

/// The latest complete head decides the status code: its code takes the place of any
/// that was known, and nothing but a complete head with a code changes it.
pub proof fn law_latest_complete_head_decides(
    known: Option<u16>,
    status: HeadStatus,
    code: Option<u16>,
    new: u16,
)
    ensures
        noted_code(known, (HeadStatus::Complete, Some(new))) == Some(new),
        status != HeadStatus::Complete || code is None ==> noted_code(known, (status, code))
            == known,
{
}

/// A request line is seen as it is.
pub proof fn law_request_line_is_seen_whole(line: RequestLine)
    ensures
        line@.method == line.method@,
        line@.path == line.path@,
        line_view(Some(line)) == Some(line@),
        line_view(None) is None,
{
}

} // verus!
