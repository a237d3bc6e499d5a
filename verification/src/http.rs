//! The HTTP side of `serve`: request parsing, response framing, routing
//! decisions and streamed bodies.

pub mod response;
pub mod request;
pub mod headers;
pub mod routes;
pub mod app;
pub mod stream;
pub mod gateway;
pub mod framing;
pub mod agent;
