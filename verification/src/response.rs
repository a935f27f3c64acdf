//! A response and its text on the wire.

use vstd::prelude::*;
use vstd::string::*;
use vstd::utf8::encode_utf8;
use crate::headers::Headers;
use crate::keyed::{has_key, put};
use crate::number::{decimal, usize_to_string};
use crate::status_codes::StatusCodes;
use crate::text::pairs;

verus! {

/// What a response holds.
pub struct ResponseView {
    pub status: StatusCodes,
    pub headers: Seq<(Seq<char>, Seq<char>)>,
    pub body: Seq<char>,
}

/// The header table of a response with this body: `content-length` gets
/// the number of bytes of the body, whatever it was, and `content-type`
/// gets `text/plain` where the table does not have it.
pub open spec fn response_headers(headers: Seq<(Seq<char>, Seq<char>)>, body: Seq<char>) -> Seq<
    (Seq<char>, Seq<char>),
> {
    let sized = put(headers, "content-length"@, decimal(encode_utf8(body).len()));
    if has_key(sized, "content-type"@) {
        sized
    } else {
        put(sized, "content-type"@, "text/plain"@)
    }
}

/// The header lines of a response: for each entry in order its name, a
/// colon and a space, its value, and CR LF.
pub open spec fn header_lines(headers: Seq<(Seq<char>, Seq<char>)>) -> Seq<char>
    decreases headers.len(),
{
    if headers.len() == 0 {
        Seq::empty()
    } else {
        header_lines(headers.drop_last()) + headers.last().0 + ": "@ + headers.last().1 + "\r\n"@
    }
}

/// The text of a response on the wire: the status line, the header lines,
/// an empty line and the body.
pub open spec fn wire_text(response: ResponseView) -> Seq<char> {
    "HTTP/1.1 "@ + decimal(response.status.code()) + " "@ + response.status.reason() + "\r\n"@
        + header_lines(response.headers) + "\r\n"@ + response.body
}

/// A response.
#[derive(Debug)]
pub struct Response {
    status: StatusCodes,
    headers: Headers,
    body: String,
}

impl View for Response {
    type V = ResponseView;

    closed spec fn view(&self) -> ResponseView {
        ResponseView { status: self.status, headers: self.headers@, body: self.body@ }
    }
}

impl Response {
    /// A response with this status and body. Its headers are those given,
    /// with `content-length` set from the body and `content-type` set to
    /// `text/plain` where it was not given.
    pub fn new(status: StatusCodes, headers: Headers, body: &str) -> (r: Response)
        ensures
            r@ == (ResponseView {
                status,
                headers: response_headers(headers@, body@),
                body: body@,
            }),
    {
        let mut table = headers;
        let content_length = usize_to_string(body.as_bytes().len());
        table.insert("content-length".to_owned(), content_length);
        if !table.contains_key("content-type") {
            table.insert("content-type".to_owned(), "text/plain".to_owned());
        }
        Response { status, headers: table, body: body.to_owned() }
    }

    /// The status.
    pub fn status(&self) -> (r: StatusCodes)
        ensures
            r == self@.status,
    {
        self.status
    }

    /// The header table.
    pub fn headers(&self) -> (r: &Headers)
        ensures
            r@ == self@.headers,
    {
        &self.headers
    }

    /// The body.
    pub fn body(&self) -> (r: &str)
        ensures
            r@ == self@.body,
    {
        self.body.as_str()
    }

    /// The header lines.
    fn parse_headers(&self) -> (r: String)
        ensures
            r@ == header_lines(self@.headers),
    {
        let entries = self.headers.as_vec();
        let mut headers_string = String::new();
        let mut i: usize = 0;
        while i < entries.len()
            invariant
                i <= entries@.len(),
                headers_string@ == header_lines(pairs(entries@).take(i as int)),
            decreases entries@.len() - i,
        {
            proof {
                let read = pairs(entries@).take(i + 1);
                assert(read.drop_last() =~= pairs(entries@).take(i as int));
            }
            headers_string.append(entries[i].0.as_str());
            headers_string.append(": ");
            headers_string.append(entries[i].1.as_str());
            headers_string.append("\r\n");
            i += 1;
        }
        assert(pairs(entries@).take(entries@.len() as int) =~= pairs(entries@));
        headers_string
    }

    /// The text of this response on the wire.
    pub fn to_string(&self) -> (r: String)
        ensures
            r@ == wire_text(self@),
    {
        let mut text = "HTTP/1.1 ".to_owned();
        text.append(usize_to_string(self.status.as_code() as usize).as_str());
        text.append(" ");
        text.append(self.status.as_reason_phrase());
        text.append("\r\n");
        text.append(self.parse_headers().as_str());
        text.append("\r\n");
        text.append(self.body.as_str());
        text
    }
}

impl Clone for Response {
    fn clone(&self) -> (r: Self)
        ensures
            r@ == self@,
    {
        Response { status: self.status, headers: self.headers.clone(), body: self.body.clone() }
    }
}

} // verus!
