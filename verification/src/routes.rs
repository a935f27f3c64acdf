//! The route table: registration of a handler under a verb and a path
//! template, and dispatch of a request to every route that it fits.

use vstd::prelude::*;
use vstd::pervasive::unreached;
use crate::headers::Headers;
use crate::method::HTTPMethod;
use crate::request::{Request, RequestView};
use crate::response::{response_headers, Response, ResponseView};
use crate::search::str_split;
use crate::status_codes::StatusCodes;
use crate::text::{pairs, str_eq};
use crate::uri_parser::{is_dynamic, is_table_of, lemma_match_binds_all, param_name, path_of, pattern_bindings, pattern_matches, segments, unique_param_names, UriParser};

verus! {

/// A handler under a verb and a pattern. The handler is called with the
/// request and with the parameters that the request's URI gives to the
/// pattern, each a name with its value, in the order of their segments.
pub struct Route<H> {
    pub handler: H,
    pub method: HTTPMethod,
    pub uri_parser: UriParser,
}

impl<H> Route<H> {
    /// No two dynamic segments of the pattern name the same parameter.
    pub open spec fn well_formed(&self) -> bool {
        unique_param_names(segments(self.uri_parser@))
    }

    /// The route is for the request: the verb is the request's, and the
    /// request's URI fits the pattern.
    pub open spec fn selects(&self, request: RequestView) -> bool {
        self.method == request.method && pattern_matches(self.uri_parser@, request.uri)
    }
}

impl<H: Clone> Clone for Route<H> {
    fn clone(&self) -> (r: Self)
        ensures
            cloned(self.handler, r.handler),
            r.method == self.method,
            r.uri_parser@ == self.uri_parser@,
    {
        Route {
            handler: self.handler.clone(),
            method: self.method,
            uri_parser: self.uri_parser.clone(),
        }
    }
}

/// The two arguments of a registration: the token of the verb and the path
/// template.
#[derive(Debug)]
pub struct Arguments {
    pub method: String,
    pub path: String,
}

/// Why a registration was refused.
#[derive(Debug)]
pub enum RouteError {
    /// There were not two arguments, but this many.
    ArgumentCount(usize),
    /// The token is none of the eight verbs.
    InvalidMethod,
    /// Two dynamic segments of the template have this name.
    DuplicateParam(String),
}

impl Arguments {
    /// Takes the arguments of a registration from a list of texts, which
    /// must hold the token of the verb and the path template and no more.
    pub fn parse(values: Vec<String>) -> (r: Result<Arguments, RouteError>)
        ensures
            match r {
                Ok(arguments) => values@.len() == 2 && arguments.method == values@[0]
                    && arguments.path == values@[1],
                Err(RouteError::ArgumentCount(found)) => found == values@.len() && found != 2,
                Err(_) => false,
            },
    {
        let mut values = values;
        if values.len() != 2 {
            return Err(RouteError::ArgumentCount(values.len()));
        }
        let path = values.remove(1);
        let method = values.remove(0);
        Ok(Arguments { method, path })
    }
}

/// The dynamic segment at `j` has the name of a dynamic segment before it.
pub open spec fn repeats_earlier(pattern: Seq<Seq<char>>, j: int) -> bool {
    &&& 0 <= j < pattern.len()
    &&& is_dynamic(pattern[j])
    &&& exists|i: int|
        0 <= i < j && is_dynamic(#[trigger] pattern[i]) && param_name(pattern[i]) == param_name(
            pattern[j],
        )
}

/// The segment at `j` is the leftmost one that repeats an earlier name.
pub open spec fn is_first_repeat(pattern: Seq<Seq<char>>, j: int) -> bool {
    repeats_earlier(pattern, j) && forall|k: int| 0 <= k < j ==> !repeats_earlier(pattern, k)
}

/// The name that the leftmost dynamic segment with a repeated name has, if
/// a name is repeated among the segments of `pattern`.
fn first_repeated_name(pattern: &UriParser) -> (r: Option<String>)
    ensures
        match r {
            Some(name) => exists|j: int| #[trigger]
                is_first_repeat(segments(pattern@), j) && name@ == param_name(
                    segments(pattern@)[j],
                ),
            None => unique_param_names(segments(pattern@)),
        },
{
    broadcast use vstd::std_specs::hash::group_hash_axioms;

    let table = pattern.dynamic_params();
    let ghost segs = segments(pattern@);
    let end = str_split(pattern.path(), "/").len();
    let mut j: usize = 0;
    while j < end
        invariant
            j <= end,
            end == segs.len(),
            segs == segments(pattern@),
            is_table_of(table@, segs),
            forall|k: int| 0 <= k < j ==> !repeats_earlier(segs, k),
        decreases end - j,
    {
        match table.get(&j) {
            None => {},
            Some(name) => {
                let mut i: usize = 0;
                while i < j
                    invariant
                        i <= j < end,
                        end == segs.len(),
                        segs == segments(pattern@),
                        is_table_of(table@, segs),
                        table@.contains_key(j),
                        is_dynamic(segs[j as int]),
                        name@ == param_name(segs[j as int]),
                        forall|k: int| 0 <= k < j ==> !repeats_earlier(segs, k),
                        forall|k: int|
                            0 <= k < i ==> !(is_dynamic(#[trigger] segs[k]) && param_name(segs[k])
                                == param_name(segs[j as int])),
                    decreases j - i,
                {
                    match table.get(&i) {
                        None => {},
                        Some(earlier) => {
                            if str_eq(earlier.as_str(), name.as_str()) {
                                assert(is_first_repeat(segs, j as int));
                                return Some(name.clone());
                            }
                        },
                    }
                    i += 1;
                }
            },
        }
        j += 1;
    }
    assert forall|a: int, b: int|
        0 <= a < b < segs.len() && is_dynamic(#[trigger] segs[a]) && is_dynamic(
            #[trigger] segs[b],
        ) implies param_name(segs[a]) != param_name(segs[b]) by {
        if param_name(segs[a]) == param_name(segs[b]) {
            assert(repeats_earlier(segs, b));
        }
    }
    None
}

/// Registers `handler` under a verb and a path template. The token must
/// be a verb, and no two dynamic segments of the template may have one
/// name. The verb is looked at first.
pub fn register<H>(method: &str, path_template: &str, handler: H) -> (r: Result<
    Route<H>,
    RouteError,
>)
    ensures
        match r {
            Ok(route) => {
                &&& HTTPMethod::of_token(method@) == Some(route.method)
                &&& route.uri_parser@ == path_of(path_template@)
                &&& route.handler == handler
                &&& route.well_formed()
            },
            Err(RouteError::InvalidMethod) => HTTPMethod::of_token(method@) is None,
            Err(RouteError::DuplicateParam(name)) => {
                &&& HTTPMethod::of_token(method@) is Some
                &&& exists|j: int| #[trigger]
                    is_first_repeat(segments(path_of(path_template@)), j) && name@ == param_name(
                        segments(path_of(path_template@))[j],
                    )
            },
            Err(RouteError::ArgumentCount(_)) => false,
        },
{
    let method = match HTTPMethod::from(method) {
        Some(method) => method,
        None => {
            return Err(RouteError::InvalidMethod);
        },
    };
    let uri_parser = UriParser::from(path_template);
    match first_repeated_name(&uri_parser) {
        Some(name) => Err(RouteError::DuplicateParam(name)),
        None => Ok(Route { handler, method, uri_parser }),
    }
}

/// Registers `handler` under the verb and the path template of
/// `arguments`.
pub fn route<H>(arguments: &Arguments, handler: H) -> (r: Result<Route<H>, RouteError>)
    ensures
        match r {
            Ok(route) => {
                &&& HTTPMethod::of_token(arguments.method@) == Some(route.method)
                &&& route.uri_parser@ == path_of(arguments.path@)
                &&& route.handler == handler
                &&& route.well_formed()
            },
            Err(RouteError::InvalidMethod) => HTTPMethod::of_token(arguments.method@) is None,
            Err(RouteError::DuplicateParam(name)) => {
                &&& HTTPMethod::of_token(arguments.method@) is Some
                &&& exists|j: int| #[trigger]
                    is_first_repeat(segments(path_of(arguments.path@)), j) && name@ == param_name(
                        segments(path_of(arguments.path@))[j],
                    )
            },
            Err(RouteError::ArgumentCount(_)) => false,
        },
{
    register(arguments.method.as_str(), arguments.path.as_str(), handler)
}

/// The places of the routes that are for the request, in the order of the
/// table.
pub open spec fn selected<H>(routes: Seq<Route<H>>, request: RequestView) -> Seq<int>
    decreases routes.len(),
{
    if routes.len() == 0 {
        Seq::empty()
    } else {
        let earlier = selected(routes.drop_last(), request);
        if routes.last().selects(request) {
            earlier.push(routes.len() - 1)
        } else {
            earlier
        }
    }
}

/// The selected places are those of all the routes that are for the
/// request, each once, in ascending order.
pub proof fn lemma_selected_all_in_order<H>(routes: Seq<Route<H>>, request: RequestView)
    ensures
        forall|k: int|
            0 <= k < selected(routes, request).len() ==> {
                let i = #[trigger] selected(routes, request)[k];
                0 <= i < routes.len() && routes[i].selects(request)
            },
        forall|k: int, l: int|
            0 <= k < l < selected(routes, request).len() ==> selected(routes, request)[k]
                < selected(routes, request)[l],
        forall|i: int|
            0 <= i < routes.len() && (#[trigger] routes[i]).selects(request) ==> selected(
                routes,
                request,
            ).contains(i),
    decreases routes.len(),
{
    if routes.len() > 0 {
        let earlier = selected(routes.drop_last(), request);
        let now = selected(routes, request);
        lemma_selected_all_in_order(routes.drop_last(), request);
        assert forall|i: int|
            0 <= i < routes.len() && (#[trigger] routes[i]).selects(request) implies now.contains(
            i,
        ) by {
            if i < routes.len() - 1 {
                assert(routes.drop_last()[i] == routes[i]);
                let k = choose|k: int| 0 <= k < earlier.len() && earlier[k] == i;
                assert(now[k] == i);
            } else {
                assert(now[now.len() - 1] == i);
            }
        }
    }
}

/// `response` is an answer of the route's handler to the request, called
/// with the parameters that the request's URI gives to the route's pattern.
pub open spec fn answers<H: Fn(&Request, &Vec<(String, String)>) -> Response>(
    route: Route<H>,
    request: &Request,
    response: Response,
) -> bool {
    exists|params: Vec<(String, String)>|
        pairs(params@) == pattern_bindings(route.uri_parser@, request@.uri) && #[trigger] call_ensures(
            route.handler,
            (request, &params),
            response,
        )
}

/// Every route that is for the request has a handler that may be called
/// with the request and the parameters that its URI gives to the route.
pub open spec fn may_call<H: Fn(&Request, &Vec<(String, String)>) -> Response>(
    routes: Seq<Route<H>>,
    request: &Request,
) -> bool {
    forall|i: int, params: Vec<(String, String)>|
        #![trigger call_requires(routes[i].handler, (request, &params))]
        0 <= i < routes.len() && routes[i].selects(request@) && pairs(params@) == pattern_bindings(
            routes[i].uri_parser@,
            request@.uri,
        ) ==> call_requires(routes[i].handler, (request, &params))
}

/// The response to a request that no route is for: not found, without body.
pub open spec fn not_found() -> ResponseView {
    ResponseView {
        status: StatusCodes::NotFound,
        headers: response_headers(Seq::empty(), Seq::empty()),
        body: Seq::empty(),
    }
}

/// Hands the request to every route that is for it, in the order of the
/// table, and gives the responses in that order. Where no route is for the
/// request, the one response is that nothing was found.
pub fn dispatch<H: Fn(&Request, &Vec<(String, String)>) -> Response>(
    request: &Request,
    routes: &Vec<Route<H>>,
) -> (responses: Vec<Response>)
    requires
        may_call(routes@, request),
    ensures
        ({
            let chosen = selected(routes@, request@);
            if chosen.len() == 0 {
                responses@.len() == 1 && responses@[0]@ == not_found()
            } else {
                &&& responses@.len() == chosen.len()
                &&& forall|k: int|
                    0 <= k < chosen.len() ==> answers(
                        routes@[chosen[k]],
                        request,
                        #[trigger] responses@[k],
                    )
            }
        }),
{
    let mut responses: Vec<Response> = Vec::new();
    let ghost mut chosen: Seq<int> = Seq::empty();
    let mut i: usize = 0;
    while i < routes.len()
        invariant
            i <= routes@.len(),
            may_call(routes@, request),
            chosen == selected(routes@.take(i as int), request@),
            responses@.len() == chosen.len(),
            forall|k: int| 0 <= k < chosen.len() ==> 0 <= #[trigger] chosen[k] < i,
            forall|k: int|
                0 <= k < chosen.len() ==> answers(routes@[chosen[k]], request, #[trigger] responses@[k]),
        decreases routes@.len() - i,
    {
        let route = &routes[i];
        let ghost before = chosen;
        proof {
            assert(routes@.take(i + 1).drop_last() =~= routes@.take(i as int));
        }
        if route.method == request.method && route.uri_parser.matches(request.uri.as_str()) {
            proof {
                lemma_match_binds_all(route.uri_parser@, request@.uri);
            }
            let params = match route.uri_parser.parse(request.uri.as_str()) {
                Ok(params) => params,
                Err(_) => unreached(),
            };
            let response = (route.handler)(request, &params);
            responses.push(response);
            proof {
                chosen = before.push(i as int);
            }
        }
        i += 1;
    }
    assert(routes@.take(routes@.len() as int) =~= routes@);
    if responses.len() == 0 {
        let response = Response::new(StatusCodes::NotFound, Headers::new(), "");
        proof {
            reveal_strlit("");
            assert(""@ =~= Seq::<char>::empty());
        }
        responses.push(response);
    }
    responses
}

} // verus!
