//! A small HTTP/1.1 server library: request-line and header parsing, header
//! validation, response encoding, routing of requests to handlers, and the
//! decisions a connection loop takes between reads and writes.
pub mod http;
pub mod reader;
pub mod text;
pub mod server;
