//! The server: where it listens and the routes that it serves.

use vstd::prelude::*;
use vstd::string::*;
use crate::headers::Headers;
use crate::request::Request;
use crate::response::{response_headers, Response, ResponseView};
use crate::routes::{answers, dispatch, may_call, not_found, selected, Route};
use crate::status_codes::StatusCodes;

verus! {

/// The error type of `std::io`, which the constructors of a server name in
/// their result and never make.
#[verifier::external_type_specification]
#[verifier::external_body]
pub struct ExIoError(std::io::Error);

/// What a server holds.
pub struct ServerView<H> {
    pub address: Seq<char>,
    pub port: Seq<char>,
    pub routes: Seq<Route<H>>,
}

/// A server: the address and the port at which it listens, and its route
/// table in the order of registration.
pub struct Server<H> {
    address: String,
    port: String,
    routes: Vec<Route<H>>,
}

impl<H> View for Server<H> {
    type V = ServerView<H>;

    closed spec fn view(&self) -> ServerView<H> {
        ServerView { address: self.address@, port: self.port@, routes: self.routes@ }
    }
}

/// The response to a request that could not be decoded: the status of the
/// failure, without body.
pub open spec fn failure(status: StatusCodes) -> ResponseView {
    ResponseView { status, headers: response_headers(Seq::empty(), Seq::empty()), body: Seq::empty() }
}

impl<H> Server<H> {
    /// A server for the loopback address and this port, without routes.
    pub fn new(port: &str) -> (r: Result<Server<H>, std::io::Error>)
        ensures
            r matches Ok(server) && server@ == (ServerView::<H> {
                address: "127.0.0.1"@,
                port: port@,
                routes: Seq::empty(),
            }),
    {
        Ok(Server { address: "127.0.0.1".to_owned(), port: port.to_owned(), routes: Vec::new() })
    }

    /// A server for this address and port, without routes.
    pub fn with_address(address: &str, port: &str) -> (r: Result<Server<H>, std::io::Error>)
        ensures
            r matches Ok(server) && server@ == (ServerView::<H> {
                address: address@,
                port: port@,
                routes: Seq::empty(),
            }),
    {
        Ok(Server { address: address.to_owned(), port: port.to_owned(), routes: Vec::new() })
    }

    /// Moves the routes in `routes` to the end of the table, in their order.
    pub fn add_routes(&mut self, routes: &mut Vec<Route<H>>)
        ensures
            final(self)@ == (ServerView::<H> {
                routes: old(self)@.routes + old(routes)@,
                ..old(self)@
            }),
            final(routes)@ == Seq::<Route<H>>::empty(),
    {
        self.routes.append(routes);
    }

    /// The route table.
    pub fn routes(&self) -> (r: &Vec<Route<H>>)
        ensures
            r@ == self@.routes,
    {
        &self.routes
    }

    /// Where the server listens: the address, a colon and the port.
    pub fn bind_address(&self) -> (r: String)
        ensures
            r@ == self@.address + ":"@ + self@.port,
    {
        let mut r = self.address.clone();
        r.append(":");
        r.append(self.port.as_str());
        r
    }
}

impl<H: Fn(&Request, &Vec<(String, String)>) -> Response> Server<H> {
    /// The responses to send on a connection, in order, for what was
    /// decoded from it: those of the routes that are for the request, or
    /// the one response that states the failure of the decoding.
    pub fn respond(&self, decoded: &Result<Request, StatusCodes>) -> (responses: Vec<Response>)
        requires
            decoded matches Ok(request) ==> may_call(self@.routes, &request),
        ensures
            match decoded {
                Err(status) => responses@.len() == 1 && responses@[0]@ == failure(*status),
                Ok(request) => {
                    let chosen = selected(self@.routes, request@);
                    if chosen.len() == 0 {
                        responses@.len() == 1 && responses@[0]@ == not_found()
                    } else {
                        &&& responses@.len() == chosen.len()
                        &&& forall|k: int|
                            0 <= k < chosen.len() ==> answers(
                                self@.routes[chosen[k]],
                                request,
                                #[trigger] responses@[k],
                            )
                    }
                },
            },
    {
        match decoded {
            Ok(request) => dispatch(request, &self.routes),
            Err(status) => {
                let mut responses: Vec<Response> = Vec::new();
                let response = Response::new(*status, Headers::new(), "");
                proof {
                    reveal_strlit("");
                    assert(""@ =~= Seq::<char>::empty());
                }
                responses.push(response);
                responses
            },
        }
    }
}

} // verus!
