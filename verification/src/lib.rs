//! A minimal HTTP/1.1 request/response engine: a byte-level request parser,
//! content-encoding negotiation, a fixed route table, and a response
//! serializer, all with verified contracts.
//!
//! The engine handles exactly one request per connection. The surrounding
//! process reads the raw bytes of a connection, hands them to
//! [`http_request::HttpRequest::parse_request`], routes the result through
//! [`http_response::HttpResponse::request_response`], performs any file
//! read or write the router asks for, and writes the bytes produced by
//! [`http_response::HttpResponse::compose_response`] back to the client.
pub mod encoding;

pub mod http_request;

pub mod http_response;

pub mod http_version;

pub mod wire;
