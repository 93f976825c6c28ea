//! A small HTTP/1.1 request handler: request parsing, routing, the route
//! handlers and response serialisation, with the socket and file work left to
//! the caller.
pub mod text;
pub mod request;
pub mod response;
pub mod server;
