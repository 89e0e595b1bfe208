//! The request line and the ways in which serving a request can fail.

use crate::renderer::RenderError;
use crate::text::{same_text, split_whitespace, tokens};
use vstd::prelude::*;
use vstd::string::*;

verus! {

/// Why a request was not served, or was served with a reservation.
#[derive(Debug, PartialEq, Eq)]
pub enum RequestError {
    /// The page of the route is not available; the message names the file.
    FileNotFound(String),
    /// The renderer failed for a reason other than an identifier.
    FilePathNotFound,
    /// The request line does not begin with `GET`.
    InvalidMethod,
    /// The request line has fewer than two tokens.
    InvalidRequest,
    /// The renderer met an identifier that it could not render.
    RenderingError(String),
    /// The connection could not be read from or written to.
    StreamError(String),
    /// No route matches the target; the not-found page was sent all the same.
    UnsupportedURI(String),
}

/// The model of a [`RequestError`].
pub enum RequestErrorView {
    FileNotFound(Seq<char>),
    FilePathNotFound,
    InvalidMethod,
    InvalidRequest,
    RenderingError(Seq<char>),
    StreamError(Seq<char>),
    UnsupportedURI(Seq<char>),
}

impl View for RequestError {
    type V = RequestErrorView;

    open spec fn view(&self) -> RequestErrorView {
        match self {
            RequestError::FileNotFound(message) => RequestErrorView::FileNotFound(message@),
            RequestError::FilePathNotFound => RequestErrorView::FilePathNotFound,
            RequestError::InvalidMethod => RequestErrorView::InvalidMethod,
            RequestError::InvalidRequest => RequestErrorView::InvalidRequest,
            RequestError::RenderingError(message) => RequestErrorView::RenderingError(message@),
            RequestError::StreamError(message) => RequestErrorView::StreamError(message@),
            RequestError::UnsupportedURI(uri) => RequestErrorView::UnsupportedURI(uri@),
        }
    }
}

impl RequestErrorView {
    /// The line that reports this error to whoever runs the server.
    pub open spec fn log_message(self) -> Seq<char> {
        match self {
            RequestErrorView::UnsupportedURI(uri) => "URI '"@ + uri
                + "' is not currently supported"@,
            RequestErrorView::InvalidRequest => "Invalid request"@,
            RequestErrorView::InvalidMethod => "HTTP method not supported"@,
            RequestErrorView::FileNotFound(message) => message,
            RequestErrorView::RenderingError(message) => message,
            RequestErrorView::StreamError(message) => message,
            RequestErrorView::FilePathNotFound => "Path specified in the url was not found"@,
        }
    }
}

/// How a failure of the renderer is reported for the request: an identifier
/// that could not be rendered keeps its message, anything else becomes
/// [`RequestError::FilePathNotFound`].
pub open spec fn render_failure(error: RenderError) -> RequestErrorView {
    match error {
        RenderError::InvalidId(message) => RequestErrorView::RenderingError(message@),
        _ => RequestErrorView::FilePathNotFound,
    }
}

impl RequestError {
    /// Reports a failure of the renderer as a failure of the request.
    pub fn from_render_error(error: RenderError) -> (reported: RequestError)
        ensures
            reported@ == render_failure(error),
    {
        match error {
            RenderError::InvalidId(message) => RequestError::RenderingError(message),
            _ => RequestError::FilePathNotFound,
        }
    }

    /// The line that reports this error to whoever runs the server.
    pub fn log_message(&self) -> (line: String)
        ensures
            line@ == self@.log_message(),
    {
        match self {
            RequestError::UnsupportedURI(uri) => {
                let mut line = String::from_str("URI '");
                line.append(uri.as_str());
                line.append("' is not currently supported");
                line
            },
            RequestError::InvalidRequest => String::from_str("Invalid request"),
            RequestError::InvalidMethod => String::from_str("HTTP method not supported"),
            RequestError::FileNotFound(message) => message.clone(),
            RequestError::RenderingError(message) => message.clone(),
            RequestError::StreamError(message) => message.clone(),
            RequestError::FilePathNotFound => String::from_str(
                "Path specified in the url was not found",
            ),
        }
    }
}

/// A request line that was accepted.
#[derive(Debug, PartialEq, Eq)]
pub struct Request {
    /// The first token: always `GET`.
    pub method: String,
    /// The second token: the target of the request.
    pub uri: String,
}

/// The model of a [`Request`].
pub struct RequestView {
    pub method: Seq<char>,
    pub uri: Seq<char>,
}

impl View for Request {
    type V = RequestView;

    open spec fn view(&self) -> RequestView {
        RequestView { method: self.method@, uri: self.uri@ }
    }
}

/// What a request line means. A line with fewer than two tokens is invalid,
/// whatever its first token; a line whose first token is not exactly `GET`
/// asks for a method that is not served; any other line is a request for its
/// second token, and what follows that token is not read.
pub open spec fn parsed_request(line: Seq<char>) -> Result<RequestView, RequestErrorView> {
    let words = tokens(line);
    if words.len() < 2 {
        Err(RequestErrorView::InvalidRequest)
    } else if words[0] != "GET"@ {
        Err(RequestErrorView::InvalidMethod)
    } else {
        Ok(RequestView { method: words[0], uri: words[1] })
    }
}

/// Parses a request line.
pub fn parse_request(line: &str) -> (result: Result<Request, RequestError>)
    ensures
        match parsed_request(line@) {
            Ok(expected) => result matches Ok(request) && request@ == expected,
            Err(expected) => result matches Err(error) && error@ == expected,
        },
{
    let words = split_whitespace(line);
    if words.len() < 2 {
        return Err(RequestError::InvalidRequest);
    }
    if !same_text(words[0].as_str(), "GET") {
        return Err(RequestError::InvalidMethod);
    }
    Ok(Request { method: words[0].clone(), uri: words[1].clone() })
}

} // verus!
