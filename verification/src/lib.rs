//! A small page server, without its sockets and threads.
//!
//! The crate holds what such a server decides: how a request line is read
//! ([`requests`]), which page a target selects and how a connection is served
//! step by step ([`handler`]), how the page of a directory is rendered
//! ([`renderer`]), and how a pool of workers shares out its jobs
//! ([`threads`]). Reading and writing, waiting and running threads are left to
//! the program around it, which reports back what it did.

use vstd::prelude::*;

pub mod handler;
pub mod renderer;
pub mod requests;
pub mod text;
pub mod threads;

verus! {

/// How a request ended, as one flat value for reports.
#[derive(Debug, PartialEq, Eq)]
pub enum RequestResult {
    /// The request was served; the message says so.
    Success(String),
    /// No route matches the target.
    UnsupportedURI(String),
    /// The request line has fewer than two tokens.
    InvalidRequest,
    /// The request line does not begin with the one method that is served.
    InvalidMethod,
    /// The connection could not be read from or written to.
    StreamError(String),
    /// The page of the route is not available.
    FileNotFound(String),
    /// The directory of the request was not found.
    FilePathNotFound,
}

} // verus!
