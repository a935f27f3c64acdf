//! The request verbs.

use vstd::prelude::*;
use crate::text::str_eq;

verus! {

/// The eight request verbs the server understands. No other verb can be
/// held in a request.
#[derive(Debug, Hash, Eq, PartialEq, Clone, Copy, Structural)]
pub enum HTTPMethod {
    OPTIONS,
    GET,
    HEAD,
    POST,
    PUT,
    DELETE,
    TRACE,
    CONNECT,
}

impl HTTPMethod {
    /// The token that writes this verb on the wire.
    pub open spec fn token(self) -> Seq<char> {
        match self {
            HTTPMethod::OPTIONS => "OPTIONS"@,
            HTTPMethod::GET => "GET"@,
            HTTPMethod::HEAD => "HEAD"@,
            HTTPMethod::POST => "POST"@,
            HTTPMethod::PUT => "PUT"@,
            HTTPMethod::DELETE => "DELETE"@,
            HTTPMethod::TRACE => "TRACE"@,
            HTTPMethod::CONNECT => "CONNECT"@,
        }
    }

    /// The verb that a token writes: the token must be a verb's token
    /// letter for letter, in upper case.
    pub open spec fn of_token(s: Seq<char>) -> Option<HTTPMethod> {
        if s == "OPTIONS"@ {
            Some(HTTPMethod::OPTIONS)
        } else if s == "GET"@ {
            Some(HTTPMethod::GET)
        } else if s == "HEAD"@ {
            Some(HTTPMethod::HEAD)
        } else if s == "POST"@ {
            Some(HTTPMethod::POST)
        } else if s == "PUT"@ {
            Some(HTTPMethod::PUT)
        } else if s == "DELETE"@ {
            Some(HTTPMethod::DELETE)
        } else if s == "TRACE"@ {
            Some(HTTPMethod::TRACE)
        } else if s == "CONNECT"@ {
            Some(HTTPMethod::CONNECT)
        } else {
            None
        }
    }

    /// Reads a verb from its token.
    pub fn from(method_string: &str) -> (r: Option<HTTPMethod>)
        ensures
            r == Self::of_token(method_string@),
    {
        if str_eq(method_string, "OPTIONS") {
            Some(HTTPMethod::OPTIONS)
        } else if str_eq(method_string, "GET") {
            Some(HTTPMethod::GET)
        } else if str_eq(method_string, "HEAD") {
            Some(HTTPMethod::HEAD)
        } else if str_eq(method_string, "POST") {
            Some(HTTPMethod::POST)
        } else if str_eq(method_string, "PUT") {
            Some(HTTPMethod::PUT)
        } else if str_eq(method_string, "DELETE") {
            Some(HTTPMethod::DELETE)
        } else if str_eq(method_string, "TRACE") {
            Some(HTTPMethod::TRACE)
        } else if str_eq(method_string, "CONNECT") {
            Some(HTTPMethod::CONNECT)
        } else {
            None
        }
    }

    /// The token of this verb.
    pub fn as_str(&self) -> (r: &str)
        ensures
            r@ == self.token(),
    {
        match self {
            HTTPMethod::OPTIONS => "OPTIONS",
            HTTPMethod::GET => "GET",
            HTTPMethod::HEAD => "HEAD",
            HTTPMethod::POST => "POST",
            HTTPMethod::PUT => "PUT",
            HTTPMethod::DELETE => "DELETE",
            HTTPMethod::TRACE => "TRACE",
            HTTPMethod::CONNECT => "CONNECT",
        }
    }

    /// Reading a verb's token gives that verb back, and a token is read as a
    /// verb only where it is that verb's token: the eight tokens are read,
    /// each as its own verb, and nothing else is.
    pub proof fn lemma_token_round_trip(m: HTTPMethod, s: Seq<char>)
        ensures
            Self::of_token(m.token()) == Some(m),
            Self::of_token(s) == Some(m) <==> s == m.token(),
    {
        reveal_strlit("OPTIONS");
        reveal_strlit("GET");
        reveal_strlit("HEAD");
        reveal_strlit("POST");
        reveal_strlit("PUT");
        reveal_strlit("DELETE");
        reveal_strlit("TRACE");
        reveal_strlit("CONNECT");
        assert("GET"@.len() == 3 && "PUT"@.len() == 3);
        assert("DELETE"@.len() == 6 && "TRACE"@.len() == 5);
        assert("OPTIONS"@[0] != "CONNECT"@[0]);
        assert("GET"@[0] != "PUT"@[0]);
        assert("HEAD"@[0] != "POST"@[0]);
    }
}

} // verus!
