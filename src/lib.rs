//! A minimal HTTP/1.1 server core: request-line parsing, response
//! serialization, routing and the per-connection reply decision.

pub mod http;
pub mod routes;
pub mod server;
