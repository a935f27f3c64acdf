//! A decoded request, and the parsers of its text.

use vstd::prelude::*;
use crate::headers::Headers;
use crate::message::{headers_of_block, parse_headers};
use crate::method::HTTPMethod;
use crate::search::{lemma_split_once_char, split_once, str_split_once};
use crate::search_params::{decode, SearchParams};
use crate::status_codes::StatusCodes;
use crate::uri_parser::{path_and_search, without_fragment, UriParser};

verus! {

/// What a request holds.
pub struct RequestView {
    pub method: HTTPMethod,
    pub uri: Seq<char>,
    pub headers: Seq<(Seq<char>, Seq<char>)>,
    pub body: Seq<char>,
    pub search_params: Map<Seq<char>, Seq<Seq<char>>>,
}

/// A decoded request.
#[derive(Debug)]
pub struct Request {
    pub method: HTTPMethod,
    pub uri: String,
    pub headers: Headers,
    pub body: String,
    pub search_params: SearchParams,
}

impl View for Request {
    type V = RequestView;

    open spec fn view(&self) -> RequestView {
        RequestView {
            method: self.method,
            uri: self.uri@,
            headers: self.headers@,
            body: self.body@,
            search_params: self.search_params@,
        }
    }
}

/// The three sections of a request text: the request line, which ends at
/// the first CR LF; the header block, which ends at the first empty line
/// after that; and what follows the empty line.
pub open spec fn sections(text: Seq<char>) -> Result<
    (Seq<char>, Seq<char>, Seq<char>),
    StatusCodes,
> {
    match split_once(text, "\r\n"@) {
        None => Err(StatusCodes::BadRequest),
        Some((line, rest)) => match split_once(rest, "\r\n\r\n"@) {
            None => Err(StatusCodes::BadRequest),
            Some((block, body)) => Ok((line, block, body)),
        },
    }
}

/// What a request line states: the verb is what stands before the first
/// space, the target what stands between the first space and the second.
/// A line without two spaces is a bad request, and a token that is no verb
/// is a method that is not allowed. What follows the second space is not
/// looked at.
pub open spec fn request_line(line: Seq<char>) -> Result<(HTTPMethod, Seq<char>), StatusCodes> {
    match split_once(line, " "@) {
        None => Err(StatusCodes::BadRequest),
        Some((token, rest)) => match split_once(rest, " "@) {
            None => Err(StatusCodes::BadRequest),
            Some((target, _)) => match HTTPMethod::of_token(token) {
                Some(method) => Ok((method, target)),
                None => Err(StatusCodes::MethodNotAllowed),
            },
        },
    }
}

/// The request that is made of a verb, a target, a header table and a
/// body: the target is kept with its query string and without its
/// fragment, and the search parameters are read from the query string.
pub open spec fn request_of_parts(
    method: HTTPMethod,
    target: Seq<char>,
    headers: Seq<(Seq<char>, Seq<char>)>,
    body: Seq<char>,
) -> RequestView {
    let uri = without_fragment(target);
    RequestView { method, uri, headers, body, search_params: decode(path_and_search(uri).1) }
}

/// The request that a whole text states, where the body is what follows
/// the header block. The request line is read before the headers.
pub open spec fn request_of_text(text: Seq<char>) -> Result<RequestView, StatusCodes> {
    match sections(text) {
        Err(status) => Err(status),
        Ok((line, block, body)) => match request_line(line) {
            Err(status) => Err(status),
            Ok((method, target)) => match headers_of_block(block) {
                None => Err(StatusCodes::BadRequest),
                Some(headers) => Ok(request_of_parts(method, target, headers, body)),
            },
        },
    }
}

impl Request {
    /// A request with these fields.
    pub fn new(
        method: HTTPMethod,
        uri: String,
        headers: Headers,
        body: String,
        search_params: SearchParams,
    ) -> (r: Request)
        ensures
            r.method == method,
            r.uri == uri,
            r.headers == headers,
            r.body == body,
            r.search_params == search_params,
    {
        Request { method, uri, headers, body, search_params }
    }

    /// Makes a request of a verb, a target, a header table and a body.
    pub fn from_parts(method: HTTPMethod, target: &str, headers: Headers, body: String) -> (r:
        Request)
        ensures
            r@ == request_of_parts(method, target@, headers@, body@),
    {
        let uri = UriParser::extract_fragment(target);
        let search_params = SearchParams::from(UriParser::split_search(uri).1);
        Request::new(method, uri.to_owned(), headers, body, search_params)
    }

    /// Reads a request line.
    pub fn parse_request_line(request_line: &str) -> (r: Result<(HTTPMethod, String), StatusCodes>)
        ensures
            match r {
                Ok((method, uri)) => self::request_line(request_line@) == Ok::<_, StatusCodes>(
                    (method, uri@),
                ),
                Err(status) => self::request_line(request_line@) == Err::<
                    (HTTPMethod, Seq<char>),
                    _,
                >(status),
            },
    {
        let (method, rest) = match str_split_once(request_line, " ") {
            Some(parts) => parts,
            None => {
                return Err(StatusCodes::BadRequest);
            },
        };
        let (uri, _) = match str_split_once(rest, " ") {
            Some(parts) => parts,
            None => {
                return Err(StatusCodes::BadRequest);
            },
        };
        match HTTPMethod::from(method) {
            Some(parsed_method) => Ok((parsed_method, uri.to_owned())),
            None => Err(StatusCodes::MethodNotAllowed),
        }
    }

    /// Parts a request text into request line, header block and the rest.
    pub fn get_sections(request_string: &str) -> (r: Result<(&str, &str, &str), StatusCodes>)
        ensures
            match r {
                Ok((line, block, body)) => sections(request_string@) == Ok::<_, StatusCodes>(
                    (line@, block@, body@),
                ),
                Err(status) => sections(request_string@) == Err::<
                    (Seq<char>, Seq<char>, Seq<char>),
                    _,
                >(status),
            },
    {
        let (request_line, rest) = match str_split_once(request_string, "\r\n") {
            Some(parts) => parts,
            None => {
                return Err(StatusCodes::BadRequest);
            },
        };
        let (headers, body) = match str_split_once(rest, "\r\n\r\n") {
            Some(parts) => parts,
            None => {
                return Err(StatusCodes::BadRequest);
            },
        };
        Ok((request_line, headers, body))
    }

    /// Reads a request from its whole text. The body is what follows the
    /// header block.
    pub fn from(request_string: &str) -> (r: Result<Request, StatusCodes>)
        ensures
            match r {
                Ok(request) => request_of_text(request_string@) == Ok::<_, StatusCodes>(request@),
                Err(status) => request_of_text(request_string@) == Err::<RequestView, _>(status),
            },
    {
        let (request_line, headers_string, body) = match Request::get_sections(request_string) {
            Ok(parts) => parts,
            Err(status) => {
                return Err(status);
            },
        };
        let (method, uri) = match Request::parse_request_line(request_line) {
            Ok(parts) => parts,
            Err(status) => {
                return Err(status);
            },
        };
        let headers = match parse_headers(headers_string) {
            Ok(headers) => headers,
            Err(status) => {
                return Err(status);
            },
        };
        Ok(Request::from_parts(method, uri.as_str(), headers, body.to_owned()))
    }
}

/// A request line made of a token, a target and a protocol version, with a
/// space between them, states the verb of the token and the target; where
/// the token is none of the eight verbs, the method is not allowed.
pub proof fn lemma_request_line_verbs(token: Seq<char>, target: Seq<char>, version: Seq<char>)
    requires
        !token.contains(' '),
        !target.contains(' '),
    ensures
        request_line(token + " "@ + target + " "@ + version) == match HTTPMethod::of_token(token) {
            Some(method) => Ok::<_, StatusCodes>((method, target)),
            None => Err(StatusCodes::MethodNotAllowed),
        },
{
    reveal_strlit(" ");
    assert(" "@ =~= seq![' ']);
    let rest = target + seq![' '] + version;
    let line = token + seq![' '] + rest;
    assert(line =~= token + " "@ + target + " "@ + version);
    lemma_split_once_char(token, ' ', rest);
    lemma_split_once_char(target, ' ', version);
}

} // verus!
