//! A minimal HTTP/1.1 server core: request decoding, route patterns with
//! dynamic segments, and dispatch of a decoded request over a route table.

pub mod decoder;
pub mod headers;
pub mod keyed;
pub mod message;
pub mod method;
pub mod number;
pub mod request;
pub mod response;
pub mod routes;
pub mod search;
pub mod search_params;
pub mod server;
pub mod status_codes;
pub mod text;
pub mod uri_parser;

pub use decoder::{decode_stream, DecodeAction, DecodeEvent, Head, RequestDecoder};
pub use headers::Headers;
pub use message::parse_headers;
pub use method::HTTPMethod;
pub use request::Request;
pub use response::Response;
pub use routes::{dispatch, register, route, Arguments, Route, RouteError};
pub use search_params::SearchParams;
pub use server::Server;
pub use status_codes::StatusCodes;
pub use uri_parser::{ParamCountMismatch, UriParser};
