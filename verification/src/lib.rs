//! The runtime core of a typed remote-procedure framework: a registry of
//! strongly-typed endpoint handlers matched by numeric code or path, a
//! dispatch pipeline that validates each request body against its endpoint's
//! schema before any handler runs, a per-connection session state machine
//! with correlation by sequence number, a connection registry for pushes,
//! and the configuration checks a server makes before it binds a socket.
//! The embedding application supplies transports and handlers; every
//! decision this crate makes is stated in its contracts.

pub mod config;
pub mod connection;
pub mod dispatch;
pub mod docs;
pub mod gen;
pub mod handler;
pub mod http_server;
pub mod json;
pub mod registry;
pub mod response;
pub mod schema;
pub mod service;
pub mod session;
pub mod text;
pub mod utils;
pub mod validate;
pub mod ws_server;

use vstd::prelude::*;

verus! {

/// A structured error code carried by error responses on every transport.
pub struct ErrorCode {
    pub code: u32,
}

impl ErrorCode {
    pub fn new(code: u32) -> (r: ErrorCode)
        ensures
            r.code == code,
    {
        ErrorCode { code }
    }
}

/// An error of the library itself, with the text an operator sees.
#[derive(Debug)]
pub struct ServerError {
    pub message: String,
}

} // verus!
