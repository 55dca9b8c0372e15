//! The protocol core of a small HTTP/1.1 server: request parsing, the response
//! model and its wire form, and the middleware chain between them.
pub mod bytes;
pub mod headers;
pub mod request;
pub mod response;
pub mod middleware;
pub mod route;
pub mod connection;
