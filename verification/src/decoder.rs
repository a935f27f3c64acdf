//! The request decoder: a state machine over what a connection yields.
//!
//! The decoder does no reading itself. It says what it waits for, one line
//! or a body of a given length, and is handed what was read. The head of a
//! request is gathered line by line until it ends in an empty line; then
//! the request line and the headers are read, and the body is asked for by
//! the length that the headers state.

use vstd::prelude::*;
use vstd::pervasive::unreached;
use vstd::slice::{slice_subrange, slice_to_vec};
use vstd::utf8::{decode_utf8, valid_utf8};
use crate::headers::Headers;
use crate::keyed::{as_map, has_key};
use crate::message::{headers_of_block, parse_headers};
use crate::method::HTTPMethod;
use crate::number::{parse_decimal, parse_usize};
use crate::request::{request_line, request_of_parts, sections, Request, RequestView};
use crate::search::{find, lemma_find_some, occurs_at};
use crate::status_codes::StatusCodes;
use crate::text::string_from_utf8;

verus! {

/// The four bytes that end the head of a request: CR LF CR LF.
pub open spec fn terminator() -> Seq<u8> {
    seq![13u8, 10u8, 13u8, 10u8]
}

/// The bytes end in the terminator.
pub open spec fn ends_head(bytes: Seq<u8>) -> bool {
    bytes.len() >= 4 && bytes.subrange(bytes.len() - 4, bytes.len() as int) == terminator()
}

/// The length of the body that a header table states: the number written
/// under `content-length`, and 0 where the table does not have that header.
/// There is none where what is written there is no number.
pub open spec fn content_length(headers: Seq<(Seq<char>, Seq<char>)>) -> Option<nat> {
    if has_key(headers, "content-length"@) {
        parse_decimal(as_map(headers)["content-length"@])
    } else {
        Some(0)
    }
}

/// What the head of a request states.
pub struct HeadView {
    pub method: HTTPMethod,
    pub target: Seq<char>,
    pub headers: Seq<(Seq<char>, Seq<char>)>,
    pub length: nat,
}

/// What the text of a head states: the request line is read first, then
/// the header block, then the length of the body, which must fit in a
/// machine word. Whatever fails is a bad request, but for a token in the
/// request line that is no verb.
pub open spec fn head_of_text(text: Seq<char>) -> Result<HeadView, StatusCodes> {
    match sections(text) {
        Err(status) => Err(status),
        Ok((line, block, _)) => match request_line(line) {
            Err(status) => Err(status),
            Ok((method, target)) => match headers_of_block(block) {
                None => Err(StatusCodes::BadRequest),
                Some(headers) => match content_length(headers) {
                    Some(length) if length <= usize::MAX => Ok(
                        HeadView { method, target, headers, length },
                    ),
                    _ => Err(StatusCodes::BadRequest),
                },
            },
        },
    }
}

/// The state of a decoder.
pub enum DecoderView {
    /// The head is being gathered; these bytes of it were read.
    Head(Seq<u8>),
    /// The head was read, and the body is waited for.
    Body(HeadView),
    /// The request was decoded.
    Done(RequestView),
    /// Decoding failed with this status.
    Failed(StatusCodes),
}

/// What happened on the connection.
pub enum DecodeEvent {
    /// A line was read: these bytes, up to and with the next LF, or up to
    /// the end of the stream. No bytes: the stream has ended.
    Line(Vec<u8>),
    /// The bytes of the body were read.
    Body(Vec<u8>),
    /// The stream ended, or failed, before what was asked for had come.
    Closed,
}

/// What a decoder asks its driver to do next.
#[derive(Debug, Clone, Copy, PartialEq, Eq, Structural)]
pub enum DecodeAction {
    /// Read one line and hand it over.
    ReadLine,
    /// Read this many bytes and hand them over.
    ReadBody(usize),
    /// Nothing more: take the result.
    Finish,
}

/// The state after a line was read while the head was gathered.
pub open spec fn after_line(head: Seq<u8>, chunk: Seq<u8>) -> DecoderView {
    let bytes = head + chunk;
    if chunk.len() == 0 {
        DecoderView::Failed(StatusCodes::BadRequest)
    } else if !ends_head(bytes) {
        DecoderView::Head(bytes)
    } else if !valid_utf8(bytes) {
        DecoderView::Failed(StatusCodes::BadRequest)
    } else {
        match head_of_text(decode_utf8(bytes)) {
            Ok(head) => DecoderView::Body(head),
            Err(status) => DecoderView::Failed(status),
        }
    }
}

/// The state after the body was read: the request, where the bytes are as
/// many as the head states and are valid UTF-8.
pub open spec fn after_body(head: HeadView, bytes: Seq<u8>) -> DecoderView {
    if bytes.len() == head.length && valid_utf8(bytes) {
        DecoderView::Done(
            request_of_parts(head.method, head.target, head.headers, decode_utf8(bytes)),
        )
    } else {
        DecoderView::Failed(StatusCodes::BadRequest)
    }
}

/// The state after an event. A finished decoder stays as it is. Before
/// that, the end of the stream fails the request, and so does an event that
/// the state does not wait for.
pub open spec fn after_event(state: DecoderView, event: DecodeEvent) -> DecoderView {
    match (state, event) {
        (DecoderView::Done(_), _) => state,
        (DecoderView::Failed(_), _) => state,
        (DecoderView::Head(head), DecodeEvent::Line(chunk)) => after_line(head, chunk@),
        (DecoderView::Body(head), DecodeEvent::Body(bytes)) => after_body(head, bytes@),
        _ => DecoderView::Failed(StatusCodes::BadRequest),
    }
}

/// What a state asks for.
pub open spec fn action_of(state: DecoderView) -> DecodeAction {
    match state {
        DecoderView::Head(_) => DecodeAction::ReadLine,
        DecoderView::Body(head) => DecodeAction::ReadBody(head.length as usize),
        _ => DecodeAction::Finish,
    }
}

/// The head of a request, read and waiting for its body.
pub struct Head {
    pub method: HTTPMethod,
    pub target: String,
    pub headers: Headers,
    pub length: usize,
}

impl View for Head {
    type V = HeadView;

    open spec fn view(&self) -> HeadView {
        HeadView {
            method: self.method,
            target: self.target@,
            headers: self.headers@,
            length: self.length as nat,
        }
    }
}

impl Head {
    /// Reads the text of a head.
    pub fn parse(text: &str) -> (r: Result<Head, StatusCodes>)
        ensures
            match r {
                Ok(head) => head_of_text(text@) == Ok::<_, StatusCodes>(head@),
                Err(status) => head_of_text(text@) == Err::<HeadView, _>(status),
            },
    {
        let (line, block, _) = match Request::get_sections(text) {
            Ok(parts) => parts,
            Err(status) => {
                return Err(status);
            },
        };
        let (method, target) = match Request::parse_request_line(line) {
            Ok(parts) => parts,
            Err(status) => {
                return Err(status);
            },
        };
        let headers = match parse_headers(block) {
            Ok(headers) => headers,
            Err(status) => {
                return Err(status);
            },
        };
        let length = match headers.get("content-length") {
            Some(written) => match parse_usize(written.as_str()) {
                Some(length) => length,
                None => {
                    return Err(StatusCodes::BadRequest);
                },
            },
            None => 0,
        };
        Ok(Head { method, target, headers, length })
    }
}

/// A request decoder.
pub enum RequestDecoder {
    /// The head is being gathered; these bytes of it were read.
    Head(Vec<u8>),
    /// The head was read, and the body is waited for.
    Body(Head),
    /// The request was decoded.
    Done(Request),
    /// Decoding failed with this status.
    Failed(StatusCodes),
}

impl View for RequestDecoder {
    type V = DecoderView;

    open spec fn view(&self) -> DecoderView {
        match self {
            RequestDecoder::Head(bytes) => DecoderView::Head(bytes@),
            RequestDecoder::Body(head) => DecoderView::Body(head@),
            RequestDecoder::Done(request) => DecoderView::Done(request@),
            RequestDecoder::Failed(status) => DecoderView::Failed(*status),
        }
    }
}

/// Whether the bytes end in the terminator.
fn at_end_of_head(bytes: &Vec<u8>) -> (r: bool)
    ensures
        r == ends_head(bytes@),
{
    let n = bytes.len();
    if n < 4 {
        return false;
    }
    let r = bytes[n - 4] == 13 && bytes[n - 3] == 10 && bytes[n - 2] == 13 && bytes[n - 1] == 10;
    proof {
        let tail = bytes@.subrange(n - 4, n as int);
        if r {
            assert(tail =~= terminator());
        }
    }
    r
}

impl RequestDecoder {
    /// A decoder at the start of a request.
    pub fn new() -> (r: RequestDecoder)
        ensures
            r@ == DecoderView::Head(Seq::<u8>::empty()),
    {
        RequestDecoder::Head(Vec::new())
    }

    /// What the decoder asks for next.
    pub fn action(&self) -> (r: DecodeAction)
        ensures
            r == action_of(self@),
    {
        match self {
            RequestDecoder::Head(_) => DecodeAction::ReadLine,
            RequestDecoder::Body(head) => DecodeAction::ReadBody(head.length),
            _ => DecodeAction::Finish,
        }
    }

    /// The decoder after an event.
    pub fn step(self, event: DecodeEvent) -> (next: RequestDecoder)
        ensures
            next@ == after_event(self@, event),
    {
        match self {
            RequestDecoder::Done(request) => RequestDecoder::Done(request),
            RequestDecoder::Failed(status) => RequestDecoder::Failed(status),
            RequestDecoder::Head(head) => match event {
                DecodeEvent::Line(chunk) => RequestDecoder::line(head, chunk),
                _ => RequestDecoder::Failed(StatusCodes::BadRequest),
            },
            RequestDecoder::Body(head) => match event {
                DecodeEvent::Body(bytes) => RequestDecoder::body(head, bytes),
                _ => RequestDecoder::Failed(StatusCodes::BadRequest),
            },
        }
    }

    /// The decoder after a line was read while the head was gathered.
    fn line(head: Vec<u8>, chunk: Vec<u8>) -> (next: RequestDecoder)
        ensures
            next@ == after_line(head@, chunk@),
    {
        if chunk.len() == 0 {
            return RequestDecoder::Failed(StatusCodes::BadRequest);
        }
        let mut bytes = head;
        let mut chunk = chunk;
        bytes.append(&mut chunk);
        if !at_end_of_head(&bytes) {
            return RequestDecoder::Head(bytes);
        }
        let text = match string_from_utf8(bytes) {
            Some(text) => text,
            None => {
                return RequestDecoder::Failed(StatusCodes::BadRequest);
            },
        };
        match Head::parse(text.as_str()) {
            Ok(head) => RequestDecoder::Body(head),
            Err(status) => RequestDecoder::Failed(status),
        }
    }

    /// The decoder after the body was read.
    fn body(head: Head, bytes: Vec<u8>) -> (next: RequestDecoder)
        ensures
            next@ == after_body(head@, bytes@),
    {
        if bytes.len() != head.length {
            return RequestDecoder::Failed(StatusCodes::BadRequest);
        }
        match string_from_utf8(bytes) {
            Some(body) => RequestDecoder::Done(
                Request::from_parts(head.method, head.target.as_str(), head.headers, body),
            ),
            None => RequestDecoder::Failed(StatusCodes::BadRequest),
        }
    }

    /// The result of the decoding, once the decoder has finished.
    pub fn finish(self) -> (r: Option<Result<Request, StatusCodes>>)
        ensures
            match r {
                Some(Ok(request)) => self@ == DecoderView::Done(request@),
                Some(Err(status)) => self@ == DecoderView::Failed(status),
                None => action_of(self@) != DecodeAction::Finish,
            },
    {
        match self {
            RequestDecoder::Done(request) => Some(Ok(request)),
            RequestDecoder::Failed(status) => Some(Err(status)),
            _ => None,
        }
    }
}

/// The request that a whole stream states. The head ends with the first
/// terminator in the stream; the body is made of the bytes that follow, as
/// many as the head states, and the stream must hold that many. What comes
/// after the body is not looked at.
pub open spec fn request_of_stream(stream: Seq<u8>) -> Result<RequestView, StatusCodes> {
    match find(stream, terminator()) {
        None => Err(StatusCodes::BadRequest),
        Some(i) => {
            let head_bytes = stream.take(i + 4);
            let rest = stream.skip(i + 4);
            if !valid_utf8(head_bytes) {
                Err(StatusCodes::BadRequest)
            } else {
                match head_of_text(decode_utf8(head_bytes)) {
                    Err(status) => Err(status),
                    Ok(head) => if rest.len() >= head.length && valid_utf8(rest.take(head.length as int)) {
                        Ok(
                            request_of_parts(
                                head.method,
                                head.target,
                                head.headers,
                                decode_utf8(rest.take(head.length as int)),
                            ),
                        )
                    } else {
                        Err(StatusCodes::BadRequest)
                    },
                }
            }
        },
    }
}

/// The framing of the body. Where the head of a stream is well formed, a
/// stream that closes before the body has its stated length is a bad
/// request; and a head without `content-length` states the empty body,
/// whatever follows it in the stream.
pub proof fn lemma_body_framing(stream: Seq<u8>, i: int, head: HeadView)
    requires
        find(stream, terminator()) == Some(i),
        valid_utf8(stream.take(i + 4)),
        head_of_text(decode_utf8(stream.take(i + 4))) == Ok::<_, StatusCodes>(head),
    ensures
        stream.len() < i + 4 + head.length ==> request_of_stream(stream) == Err::<RequestView, _>(
            StatusCodes::BadRequest,
        ),
        !has_key(head.headers, "content-length"@) ==> request_of_stream(stream) == Ok::<
            _,
            StatusCodes,
        >(request_of_parts(head.method, head.target, head.headers, Seq::empty())),
{
}

/// A decoder that was handed the first `pos` bytes of a stream, line by
/// line and then as a body, is in step with what the stream states.
pub open spec fn in_step(state: DecoderView, stream: Seq<u8>, pos: int) -> bool {
    &&& 0 <= pos <= stream.len()
    &&& match state {
        DecoderView::Head(head) => {
            &&& head == stream.take(pos)
            &&& forall|j: int| 0 <= j && j + 4 <= pos ==> !occurs_at(stream, terminator(), j)
        },
        DecoderView::Body(head) => {
            &&& pos >= 4
            &&& find(stream, terminator()) == Some(pos - 4)
            &&& valid_utf8(stream.take(pos))
            &&& head_of_text(decode_utf8(stream.take(pos))) == Ok::<_, StatusCodes>(head)
        },
        DecoderView::Done(request) => request_of_stream(stream) == Ok::<_, StatusCodes>(request),
        DecoderView::Failed(status) => request_of_stream(stream) == Err::<RequestView, _>(status),
    }
}

/// How far a decoder is from its end.
pub open spec fn steps_left(state: DecoderView) -> nat {
    match state {
        DecoderView::Head(_) => 2,
        DecoderView::Body(_) => 1,
        _ => 0,
    }
}

/// The end of the line that begins at `from`: the place behind the next LF,
/// or the end of the stream where there is none.
fn line_end(stream: &[u8], from: usize) -> (end: usize)
    requires
        from <= stream@.len(),
    ensures
        from <= end <= stream@.len(),
        from < stream@.len() ==> from < end,
        forall|k: int| from <= k < end - 1 ==> stream@[k] != 10,
{
    let mut end = from;
    while end < stream.len()
        invariant
            from <= end <= stream@.len(),
            forall|k: int| from <= k < end ==> stream@[k] != 10,
        decreases stream@.len() - end,
    {
        if stream[end] == 10 {
            return end + 1;
        }
        end += 1;
    }
    end
}

/// A line that is handed to a decoder in step keeps it in step.
proof fn lemma_line_in_step(stream: Seq<u8>, pos: int, end: int)
    requires
        in_step(DecoderView::Head(stream.take(pos)), stream, pos),
        pos <= end <= stream.len(),
        pos < stream.len() ==> pos < end,
        forall|k: int| pos <= k < end - 1 ==> stream[k] != 10,
    ensures
        in_step(after_line(stream.take(pos), stream.subrange(pos, end)), stream, end),
{
    let head = stream.take(pos);
    let chunk = stream.subrange(pos, end);
    let bytes = head + chunk;
    assert(bytes =~= stream.take(end));
    if chunk.len() > 0 {
        if ends_head(bytes) {
            assert(bytes.subrange(end - 4, end) =~= stream.subrange(end - 4, end));
            lemma_find_some(stream, terminator(), end - 4);
        } else {
            assert forall|j: int| 0 <= j && j + 4 <= end implies !occurs_at(
                stream,
                terminator(),
                j,
            ) by {
                if j + 4 == end && occurs_at(stream, terminator(), j) {
                    assert(bytes.subrange(end - 4, end) =~= stream.subrange(j, j + 4));
                }
            }
        }
    }
}

/// Decodes the request that a stream held in memory states, as a decoder
/// does that is handed the stream line by line and then its body.
pub fn decode_stream(stream: &[u8]) -> (r: Result<Request, StatusCodes>)
    ensures
        match r {
            Ok(request) => request_of_stream(stream@) == Ok::<_, StatusCodes>(request@),
            Err(status) => request_of_stream(stream@) == Err::<RequestView, _>(status),
        },
{
    let mut decoder = RequestDecoder::new();
    let mut pos: usize = 0;
    assert(stream@.take(0) =~= Seq::<u8>::empty());
    loop
        invariant
            in_step(decoder@, stream@, pos as int),
        decreases steps_left(decoder@), stream@.len() - pos,
    {
        match decoder.action() {
            DecodeAction::ReadLine => {
                let end = line_end(stream, pos);
                let chunk = slice_to_vec(slice_subrange(stream, pos, end));
                proof {
                    lemma_line_in_step(stream@, pos as int, end as int);
                }
                decoder = decoder.step(DecodeEvent::Line(chunk));
                pos = end;
            },
            DecodeAction::ReadBody(length) => {
                let ghost rest = stream@.skip(pos as int);
                if length <= stream.len() - pos {
                    let bytes = slice_to_vec(slice_subrange(stream, pos, pos + length));
                    assert(bytes@ =~= rest.take(length as int));
                    decoder = decoder.step(DecodeEvent::Body(bytes));
                    pos = pos + length;
                } else {
                    decoder = decoder.step(DecodeEvent::Closed);
                }
            },
            DecodeAction::Finish => {
                return match decoder {
                    RequestDecoder::Done(request) => Ok(request),
                    RequestDecoder::Failed(status) => Err(status),
                    _ => unreached(),
                };
            },
        }
    }
}

} // verus!
