//! The request pipeline of a small HTTP/1.1 server for static files and a
//! few JSON endpoints, without its sockets and its file system.
//!
//! Every decision of the server is a function here, from plain values to
//! plain values, with a contract that Verus proves: the security policy and
//! the sliding-window rate limiter (`security`), the parser of requests and
//! the wire form of responses (`http`), the route table of the API (`api`),
//! the resolver of file paths inside the sandbox (`resolver`), the
//! dispatcher that puts them in order (`website_handler`), and what a
//! connection does with what it read (`server`). `text` holds the
//! operations on characters that the others share.
//!
//! What needs the outside world is asked of the caller, step by step: the
//! caller reads the socket, asks the clocks, canonicalizes paths and reads
//! files, and hands the results in.

pub mod api;
pub mod http;
pub mod resolver;
pub mod security;
pub mod server;
pub mod text;
pub mod website_handler;
