use rust_http_framework::{
    dispatch, register, route, Arguments, HTTPMethod, Headers, Request, Response, Route, RouteError,
    Server, StatusCodes,
};

type Handler = fn(&Request, &Vec<(String, String)>) -> Response;

fn arguments(method: &str, path: &str) -> Arguments {
    Arguments { method: method.to_string(), path: path.to_string() }
}

fn echo(_request: &Request, params: &Vec<(String, String)>) -> Response {
    let mut body = String::new();
    for (name, value) in params {
        body.push_str(name);
        body.push('=');
        body.push_str(value);
        body.push(';');
    }
    Response::new(StatusCodes::OK, Headers::new(), &body)
}

fn first(_request: &Request, _params: &Vec<(String, String)>) -> Response {
    Response::new(StatusCodes::OK, Headers::new(), "first")
}

fn second(_request: &Request, _params: &Vec<(String, String)>) -> Response {
    Response::new(StatusCodes::OK, Headers::new(), "second")
}

fn registered(method: &str, path: &str, handler: Handler) -> Route<Handler> {
    route(&arguments(method, path), handler).unwrap()
}

fn request(text: &str) -> Request {
    Request::from(text).unwrap()
}

#[test]
fn a_request_goes_to_the_one_route_it_fits() {
    let routes = vec![registered("GET", "/:x", echo), registered("GET", "/users/:y", echo)];
    let responses = dispatch(&request("GET /users/abc HTTP/1.1\r\nHost: h\r\n\r\n"), &routes);
    assert_eq!(responses.len(), 1);
    assert_eq!(responses[0].status(), StatusCodes::OK);
    assert_eq!(responses[0].body(), "y=abc;");
    let responses = dispatch(&request("GET /abc HTTP/1.1\r\nHost: h\r\n\r\n"), &routes);
    assert_eq!(responses.len(), 1);
    assert_eq!(responses[0].body(), "x=abc;");
}

#[test]
fn a_request_that_fits_no_route_is_not_found() {
    let routes = vec![registered("GET", "/:x", echo), registered("GET", "/users/:y", echo)];
    let responses = dispatch(&request("GET /a/b/c HTTP/1.1\r\nHost: h\r\n\r\n"), &routes);
    assert_eq!(responses.len(), 1);
    assert_eq!(responses[0].status(), StatusCodes::NotFound);
    assert_eq!(responses[0].body(), "");
    assert_eq!(
        responses[0].to_string(),
        "HTTP/1.1 404 Not Found\r\ncontent-length: 0\r\ncontent-type: text/plain\r\n\r\n"
    );
}

#[test]
fn an_empty_table_finds_nothing() {
    let routes: Vec<Route<Handler>> = Vec::new();
    let responses = dispatch(&request("GET / HTTP/1.1\r\nHost: h\r\n\r\n"), &routes);
    assert_eq!(responses.len(), 1);
    assert_eq!(responses[0].status(), StatusCodes::NotFound);
    assert_eq!(responses[0].body(), "");
}

#[test]
fn every_route_that_fits_answers_in_the_order_of_the_table() {
    let routes = vec![
        registered("GET", "/a/:x", second),
        registered("GET", "/b/:x", first),
        registered("GET", "/:y/1", first),
        registered("GET", "/a/1", echo),
    ];
    let responses = dispatch(&request("GET /a/1 HTTP/1.1\r\nHost: h\r\n\r\n"), &routes);
    let bodies: Vec<&str> = responses.iter().map(|r| r.body()).collect();
    assert_eq!(bodies, vec!["second", "first", ""]);
}

#[test]
fn a_route_of_another_verb_does_not_answer() {
    let routes = vec![registered("POST", "/a", first), registered("GET", "/a", second)];
    let responses = dispatch(&request("GET /a HTTP/1.1\r\nHost: h\r\n\r\n"), &routes);
    assert_eq!(responses.len(), 1);
    assert_eq!(responses[0].body(), "second");
    let responses = dispatch(&request("DELETE /a HTTP/1.1\r\nHost: h\r\n\r\n"), &routes);
    assert_eq!(responses.len(), 1);
    assert_eq!(responses[0].status(), StatusCodes::NotFound);
}

#[test]
fn a_handler_gets_the_parameters_of_its_own_pattern() {
    let routes = vec![
        registered("GET", "/accounts/:a/addresses/:b", echo),
        registered("GET", "/:p/:q/addresses/:r", echo),
    ];
    let responses =
        dispatch(&request("GET /accounts/12/addresses/home?x=1#f HTTP/1.1\r\nHost: h\r\n\r\n"), &routes);
    assert_eq!(responses.len(), 2);
    assert_eq!(responses[0].body(), "a=12;b=home;");
    assert_eq!(responses[1].body(), "p=accounts;q=12;r=home;");
}

#[test]
fn a_registration_holds_verb_and_pattern() {
    let registered = registered("DELETE", "/users/:id?x#y", first);
    assert_eq!(registered.method, HTTPMethod::DELETE);
    assert_eq!(registered.uri_parser.path(), "/users/:id");
    let copy = registered.clone();
    assert_eq!(copy.method, HTTPMethod::DELETE);
    assert_eq!(copy.uri_parser.path(), "/users/:id");
}

#[test]
fn a_registration_needs_a_verb() {
    let refused = route(&arguments("FETCH", "/a"), first as Handler).err();
    assert!(matches!(refused, Some(RouteError::InvalidMethod)));
    let refused = route(&arguments("get", "/a"), first as Handler).err();
    assert!(matches!(refused, Some(RouteError::InvalidMethod)));
    let refused = route(&arguments("FETCH", "/:a/:a"), first as Handler).err();
    assert!(matches!(refused, Some(RouteError::InvalidMethod)));
}

#[test]
fn a_registration_takes_no_parameter_name_twice() {
    match route(&arguments("GET", "/:a/x/:a"), first as Handler) {
        Err(RouteError::DuplicateParam(name)) => assert_eq!(name, "a"),
        _ => panic!("the registration was not refused for its repeated name"),
    }
    match route(&arguments("GET", "/:b/:a/:c/:a/:b"), first as Handler) {
        Err(RouteError::DuplicateParam(name)) => assert_eq!(name, "a"),
        _ => panic!("the registration was not refused for its repeated name"),
    }
    assert!(route(&arguments("GET", "/:a/a/:b/b"), first as Handler).is_ok());
    assert!(route(&arguments("GET", "/a/a"), first as Handler).is_ok());
}

#[test]
fn a_registration_by_verb_and_template() {
    let registered = register("PUT", "/a/:b", first as Handler).ok().unwrap();
    assert_eq!(registered.method, HTTPMethod::PUT);
    assert_eq!(registered.uri_parser.path(), "/a/:b");
    assert!(matches!(register("", "/a", first as Handler), Err(RouteError::InvalidMethod)));
    match register("GET", "/:x/:x", first as Handler) {
        Err(RouteError::DuplicateParam(name)) => assert_eq!(name, "x"),
        _ => panic!("the registration was not refused for its repeated name"),
    }
}

#[test]
fn the_arguments_of_a_registration_are_two() {
    let parsed = Arguments::parse(vec!["GET".to_string(), "/a".to_string()]).unwrap();
    assert_eq!(parsed.method, "GET");
    assert_eq!(parsed.path, "/a");
    assert!(matches!(Arguments::parse(vec![]), Err(RouteError::ArgumentCount(0))));
    assert!(matches!(Arguments::parse(vec!["GET".to_string()]), Err(RouteError::ArgumentCount(1))));
    assert!(matches!(
        Arguments::parse(vec!["GET".to_string(), "/a".to_string(), "x".to_string()]),
        Err(RouteError::ArgumentCount(3))
    ));
}

#[test]
fn a_server_listens_on_the_loopback_address_unless_told() {
    let server: Server<Handler> = Server::new("3000").unwrap();
    assert_eq!(server.bind_address(), "127.0.0.1:3000");
    assert_eq!(server.routes().len(), 0);
    let server: Server<Handler> = Server::with_address("0.0.0.0", "8080").unwrap();
    assert_eq!(server.bind_address(), "0.0.0.0:8080");
}

#[test]
fn routes_are_added_at_the_end_of_the_table() {
    let mut server: Server<Handler> = Server::new("3000").unwrap();
    let mut routes = vec![registered("GET", "/a", first), registered("GET", "/a", second)];
    server.add_routes(&mut routes);
    assert!(routes.is_empty());
    let mut more = vec![registered("GET", "/:x", echo)];
    server.add_routes(&mut more);
    assert_eq!(server.routes().len(), 3);
    let responses = server.respond(&Ok(request("GET /a HTTP/1.1\r\nHost: h\r\n\r\n")));
    let bodies: Vec<&str> = responses.iter().map(|r| r.body()).collect();
    assert_eq!(bodies, vec!["first", "second", "x=a;"]);
}

#[test]
fn a_failed_decoding_is_answered_with_its_status() {
    let mut server: Server<Handler> = Server::new("3000").unwrap();
    server.add_routes(&mut vec![registered("GET", "/a", first)]);
    let responses = server.respond(&Err(StatusCodes::BadRequest));
    assert_eq!(responses.len(), 1);
    assert_eq!(
        responses[0].to_string(),
        "HTTP/1.1 400 Bad Request\r\ncontent-length: 0\r\ncontent-type: text/plain\r\n\r\n"
    );
    let responses = server.respond(&Err(StatusCodes::MethodNotAllowed));
    assert_eq!(responses.len(), 1);
    assert_eq!(responses[0].status(), StatusCodes::MethodNotAllowed);
    assert_eq!(responses[0].body(), "");
}
