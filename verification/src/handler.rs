//! Serving one connection.
//!
//! A connection is served in steps. Between two steps the caller does what
//! the connection is waiting for ([`Connection::pending`]): it reads the
//! request line, waits, loads a page, lists a directory or sends the response.
//! It then reports what came of it as an [`Event`], and [`handle_connection`]
//! decides how the connection goes on. The connection itself touches neither
//! the socket nor the file system.

use crate::renderer::{
    listing_wanted, needs_listing, render_index_page, rendered, DirListing, DirListingView,
    RenderFlags,
};
use crate::requests::{parse_request, parsed_request, RequestError, RequestErrorView};
use crate::text::{decimal, decimal_string, has_prefix, same_text};
use vstd::prelude::*;
use vstd::string::*;
use vstd::utf8::encode_utf8;

verus! {

/// How long the route `/sleep` keeps its connection waiting, in seconds.
pub const SLEEP_SECONDS: u64 = 5;

/// The page and the policy that a target selects.
#[derive(Debug, PartialEq, Eq)]
pub enum Route {
    /// `/`
    Root,
    /// `/flowers`
    Flowers,
    /// `/sleep`: served after a delay.
    Sleep,
    /// `/fs` and whatever begins with it: the listing of a directory.
    Browse { flags: RenderFlags },
    /// Any other target.
    NotFound { uri: String },
}

/// The model of a [`Route`].
pub enum RouteView {
    Root,
    Flowers,
    Sleep,
    Browse { fs_path: Seq<char> },
    NotFound { uri: Seq<char> },
}

impl View for Route {
    type V = RouteView;

    open spec fn view(&self) -> RouteView {
        match self {
            Route::Root => RouteView::Root,
            Route::Flowers => RouteView::Flowers,
            Route::Sleep => RouteView::Sleep,
            Route::Browse { flags } => RouteView::Browse { fs_path: flags.fs_path@ },
            Route::NotFound { uri } => RouteView::NotFound { uri: uri@ },
        }
    }
}

/// The status line of a served page.
pub open spec fn status_ok() -> Seq<char> {
    "HTTP/1.1 200 OK"@
}

/// The message that reports a served request.
pub open spec fn success_message() -> Seq<char> {
    "Response successful!"@
}

impl RouteView {
    /// The file that holds the page of the route.
    pub open spec fn page_file(self) -> Seq<char> {
        match self {
            RouteView::Root => "pages/"@ + "root.html"@,
            RouteView::Flowers => "pages/"@ + "flowers.html"@,
            RouteView::Sleep => "pages/"@ + "sleep.html"@,
            RouteView::Browse { .. } => "pages/"@ + "fs.html"@,
            RouteView::NotFound { .. } => "pages/"@ + "404.html"@,
        }
    }

    /// The status line that the response begins with.
    pub open spec fn status_line(self) -> Seq<char> {
        match self {
            RouteView::NotFound { .. } => "HTTP/1.1 404 NOT FOUND"@,
            _ => status_ok(),
        }
    }

    /// How long the connection waits before the page is loaded, in seconds.
    pub open spec fn delay_seconds(self) -> u64 {
        match self {
            RouteView::Sleep => SLEEP_SECONDS,
            _ => 0,
        }
    }

    /// What is reported once the response has been sent: success, but for a
    /// target that no route matches.
    pub open spec fn outcome(self) -> Result<Seq<char>, RequestErrorView> {
        match self {
            RouteView::NotFound { uri } => Err(RequestErrorView::UnsupportedURI(uri)),
            _ => Ok(success_message()),
        }
    }
}

/// The route of a target: three fixed targets, then every target that begins
/// with `/fs`, whose remainder names the directory (`/` where nothing
/// remains), then the rest.
pub open spec fn route_of(uri: Seq<char>) -> RouteView {
    if uri == "/"@ {
        RouteView::Root
    } else if uri == "/flowers"@ {
        RouteView::Flowers
    } else if uri == "/sleep"@ {
        RouteView::Sleep
    } else if "/fs"@.is_prefix_of(uri) {
        RouteView::Browse {
            fs_path: if uri == "/fs"@ {
                "/"@
            } else {
                uri.skip("/fs"@.len() as int)
            },
        }
    } else {
        RouteView::NotFound { uri }
    }
}

/// Selects the route of a target.
pub fn route(uri: &str) -> (selected: Route)
    ensures
        selected@ == route_of(uri@),
{
    if same_text(uri, "/") {
        Route::Root
    } else if same_text(uri, "/flowers") {
        Route::Flowers
    } else if same_text(uri, "/sleep") {
        Route::Sleep
    } else if has_prefix(uri, "/fs") {
        let mut flags = RenderFlags::default();
        if !same_text(uri, "/fs") {
            let marker_len: usize = "/fs".unicode_len();
            let uri_len: usize = uri.unicode_len();
            flags.fs_path = String::from_str(uri.substring_char(marker_len, uri_len));
        }
        Route::Browse { flags }
    } else {
        Route::NotFound { uri: String::from_str(uri) }
    }
}

impl Route {
    /// The file that holds the page of the route.
    pub fn page_file(&self) -> (file_name: String)
        ensures
            file_name@ == self@.page_file(),
    {
        let mut file_name = String::from_str("pages/");
        match self {
            Route::Root => file_name.append("root.html"),
            Route::Flowers => file_name.append("flowers.html"),
            Route::Sleep => file_name.append("sleep.html"),
            Route::Browse { .. } => file_name.append("fs.html"),
            Route::NotFound { .. } => file_name.append("404.html"),
        }
        file_name
    }

    /// The status line that the response begins with.
    pub fn status_line(&self) -> (line: String)
        ensures
            line@ == self@.status_line(),
    {
        match self {
            Route::NotFound { .. } => String::from_str("HTTP/1.1 404 NOT FOUND"),
            _ => String::from_str("HTTP/1.1 200 OK"),
        }
    }

    /// How long the connection waits before the page is loaded, in seconds.
    pub fn delay_seconds(&self) -> (seconds: u64)
        ensures
            seconds == self@.delay_seconds(),
    {
        match self {
            Route::Sleep => SLEEP_SECONDS,
            _ => 0,
        }
    }

    /// What is reported once the response has been sent.
    pub fn outcome(&self) -> (outcome: Result<String, RequestError>)
        ensures
            outcome_view(outcome) == self@.outcome(),
    {
        match self {
            Route::NotFound { uri } => Err(RequestError::UnsupportedURI(uri.clone())),
            _ => Ok(String::from_str("Response successful!")),
        }
    }
}

/// The response to send: the status line, the length of the body in bytes as
/// a `Content-Length` header, an empty line and the body.
pub open spec fn http_response(status_line: Seq<char>, body: Seq<char>) -> Seq<char> {
    status_line + "\r\nContent-Length: "@ + decimal(encode_utf8(body).len()) + "\r\n\r\n"@ + body
}

/// Composes the response for a page.
pub fn create_http_response(status_line: String, page_content: String) -> (response: String)
    ensures
        response@ == http_response(status_line@, page_content@),
{
    let length: usize = page_content.as_str().as_bytes().len();
    let mut response = status_line;
    response.append("\r\nContent-Length: ");
    response.append(decimal_string(length).as_str());
    response.append("\r\n\r\n");
    response.append(page_content.as_str());
    response
}

/// The model of what serving a connection ends with.
pub open spec fn outcome_view(outcome: Result<String, RequestError>) -> Result<
    Seq<char>,
    RequestErrorView,
> {
    match outcome {
        Ok(message) => Ok(message@),
        Err(error) => Err(error@),
    }
}

/// What the caller reports back to a connection.
#[derive(Debug, PartialEq, Eq)]
pub enum Event {
    /// The request line, or `None` where no line could be read.
    RequestLine(Option<String>),
    /// The delay has run its full time.
    DelayElapsed,
    /// The text of the page, or `None` where the page is not available.
    PageLoaded(Option<String>),
    /// What reading the directory gave.
    DirectoryListed(DirListing),
    /// Whether the whole response was written.
    Sent(bool),
}

/// The model of an [`Event`].
pub enum EventView {
    RequestLine(Option<Seq<char>>),
    DelayElapsed,
    PageLoaded(Option<Seq<char>>),
    DirectoryListed(DirListingView),
    Sent(bool),
}

impl View for Event {
    type V = EventView;

    open spec fn view(&self) -> EventView {
        match self {
            Event::RequestLine(Some(line)) => EventView::RequestLine(Some(line@)),
            Event::RequestLine(None) => EventView::RequestLine(None),
            Event::DelayElapsed => EventView::DelayElapsed,
            Event::PageLoaded(Some(page)) => EventView::PageLoaded(Some(page@)),
            Event::PageLoaded(None) => EventView::PageLoaded(None),
            Event::DirectoryListed(listing) => EventView::DirectoryListed(listing@),
            Event::Sent(written) => EventView::Sent(*written),
        }
    }
}

/// What a connection waits for the caller to do.
#[derive(Debug, PartialEq, Eq)]
pub enum Action {
    /// Read one line from the connection.
    ReadRequestLine,
    /// Wait for so many seconds.
    Delay { seconds: u64 },
    /// Read the text of this file.
    LoadPage { file_name: String },
    /// Read the entries of this directory.
    ListDirectory { path: String },
    /// Write this text to the connection.
    Send { response: String },
    /// Close the connection: it has been served, or has failed.
    Close,
}

/// The model of an [`Action`].
pub enum ActionView {
    ReadRequestLine,
    Delay { seconds: u64 },
    LoadPage { file_name: Seq<char> },
    ListDirectory { path: Seq<char> },
    Send { response: Seq<char> },
    Close,
}

impl View for Action {
    type V = ActionView;

    open spec fn view(&self) -> ActionView {
        match self {
            Action::ReadRequestLine => ActionView::ReadRequestLine,
            Action::Delay { seconds } => ActionView::Delay { seconds: *seconds },
            Action::LoadPage { file_name } => ActionView::LoadPage { file_name: file_name@ },
            Action::ListDirectory { path } => ActionView::ListDirectory { path: path@ },
            Action::Send { response } => ActionView::Send { response: response@ },
            Action::Close => ActionView::Close,
        }
    }
}

/// How far a connection has been served.
#[derive(Debug, PartialEq, Eq)]
pub enum Connection {
    /// Nothing has been read yet.
    AwaitingRequest { base_path: String },
    /// The request was routed, and the delay of its route is running.
    Delaying { route: Route, base_path: String },
    /// The page of the route is being loaded.
    LoadingPage { route: Route, base_path: String },
    /// The page is loaded, and the directory that it lists is being read.
    ListingDirectory { flags: RenderFlags, page: String, base_path: String },
    /// The response is being written.
    Sending { response: String, outcome: Result<String, RequestError> },
    /// The connection is done with.
    Closed { outcome: Result<String, RequestError> },
}

/// The model of a [`Connection`].
pub enum ConnectionView {
    AwaitingRequest { base_path: Seq<char> },
    Delaying { route: RouteView, base_path: Seq<char> },
    LoadingPage { route: RouteView, base_path: Seq<char> },
    ListingDirectory { fs_path: Seq<char>, page: Seq<char>, base_path: Seq<char> },
    Sending { response: Seq<char>, outcome: Result<Seq<char>, RequestErrorView> },
    Closed { outcome: Result<Seq<char>, RequestErrorView> },
}

impl View for Connection {
    type V = ConnectionView;

    open spec fn view(&self) -> ConnectionView {
        match self {
            Connection::AwaitingRequest { base_path } => ConnectionView::AwaitingRequest {
                base_path: base_path@,
            },
            Connection::Delaying { route, base_path } => ConnectionView::Delaying {
                route: route@,
                base_path: base_path@,
            },
            Connection::LoadingPage { route, base_path } => ConnectionView::LoadingPage {
                route: route@,
                base_path: base_path@,
            },
            Connection::ListingDirectory { flags, page, base_path } => {
                ConnectionView::ListingDirectory {
                    fs_path: flags.fs_path@,
                    page: page@,
                    base_path: base_path@,
                }
            },
            Connection::Sending { response, outcome } => ConnectionView::Sending {
                response: response@,
                outcome: outcome_view(*outcome),
            },
            Connection::Closed { outcome } => ConnectionView::Closed {
                outcome: outcome_view(*outcome),
            },
        }
    }
}

/// The message of the error for a connection that gave no request line.
pub open spec fn unread_message() -> Seq<char> {
    "Unable to read request"@
}

/// The message of the error for a response that could not be written.
pub open spec fn unsent_message() -> Seq<char> {
    "Unable to send request"@
}

/// The message of the error for a page that is not available.
pub open spec fn missing_page_message(file_name: Seq<char>) -> Seq<char> {
    "File '"@ + file_name + "' not found"@
}

/// A connection whose page is ready: the response is to be sent, and the
/// outcome is reported once it has been.
pub open spec fn serving(
    status_line: Seq<char>,
    body: Seq<char>,
    outcome: Result<Seq<char>, RequestErrorView>,
) -> ConnectionView {
    ConnectionView::Sending { response: http_response(status_line, body), outcome }
}

/// A connection right after its request line was read.
pub open spec fn after_request_line(base_path: Seq<char>, line: Option<Seq<char>>) -> ConnectionView {
    match line {
        None => ConnectionView::Closed {
            outcome: Err(RequestErrorView::StreamError(unread_message())),
        },
        Some(line) => match parsed_request(line) {
            Err(error) => ConnectionView::Closed { outcome: Err(error) },
            Ok(request) => {
                let route = route_of(request.uri);
                if route.delay_seconds() > 0 {
                    ConnectionView::Delaying { route, base_path }
                } else {
                    ConnectionView::LoadingPage { route, base_path }
                }
            },
        },
    }
}

/// A connection right after its page was loaded. A page of the browsing route
/// waits for the listing of its directory only where the renderer wants one;
/// elsewhere it is rendered without.
pub open spec fn after_page_loaded(
    route: RouteView,
    base_path: Seq<char>,
    page: Option<Seq<char>>,
) -> ConnectionView {
    match page {
        None => ConnectionView::Closed {
            outcome: Err(RequestErrorView::FileNotFound(missing_page_message(route.page_file()))),
        },
        Some(page) => match route {
            RouteView::Browse { fs_path } => if listing_wanted(page, fs_path, base_path) {
                ConnectionView::ListingDirectory { fs_path, page, base_path }
            } else {
                serving(
                    status_ok(),
                    rendered(page, fs_path, base_path, DirListingView::Unreadable),
                    Ok(success_message()),
                )
            },
            _ => serving(route.status_line(), page, route.outcome()),
        },
    }
}

impl ConnectionView {
    /// What the connection waits for.
    pub open spec fn pending(self) -> ActionView {
        match self {
            ConnectionView::AwaitingRequest { .. } => ActionView::ReadRequestLine,
            ConnectionView::Delaying { route, .. } => ActionView::Delay {
                seconds: route.delay_seconds(),
            },
            ConnectionView::LoadingPage { route, .. } => ActionView::LoadPage {
                file_name: route.page_file(),
            },
            ConnectionView::ListingDirectory { fs_path, .. } => ActionView::ListDirectory {
                path: fs_path,
            },
            ConnectionView::Sending { response, .. } => ActionView::Send { response },
            ConnectionView::Closed { .. } => ActionView::Close,
        }
    }
}

/// How a connection goes on after an event. An event that does not answer
/// what the connection waits for leaves it as it is.
pub open spec fn step(state: ConnectionView, event: EventView) -> ConnectionView {
    match (state, event) {
        (ConnectionView::AwaitingRequest { base_path }, EventView::RequestLine(line)) => {
            after_request_line(base_path, line)
        },
        (ConnectionView::Delaying { route, base_path }, EventView::DelayElapsed) => {
            ConnectionView::LoadingPage { route, base_path }
        },
        (ConnectionView::LoadingPage { route, base_path }, EventView::PageLoaded(page)) => {
            after_page_loaded(route, base_path, page)
        },
        (
            ConnectionView::ListingDirectory { fs_path, page, base_path },
            EventView::DirectoryListed(listing),
        ) => serving(
            status_ok(),
            rendered(page, fs_path, base_path, listing),
            Ok(success_message()),
        ),
        (ConnectionView::Sending { response, outcome }, EventView::Sent(written)) => {
            if written {
                ConnectionView::Closed { outcome }
            } else {
                ConnectionView::Closed {
                    outcome: Err(RequestErrorView::StreamError(unsent_message())),
                }
            }
        },
        _ => state,
    }
}

/// Renders a page of the browsing route and makes it ready to be sent.
fn serve_rendered(page: String, flags: &RenderFlags, base_path: &str, listing: &DirListing) -> (next:
    Connection)
    ensures
        next@ == serving(
            status_ok(),
            rendered(page@, flags.fs_path@, base_path@, listing@),
            Ok(success_message()),
        ),
{
    let mut page = page;
    match render_index_page(&mut page, flags, base_path, listing) {
        Ok(()) => Connection::Sending {
            response: create_http_response(String::from_str("HTTP/1.1 200 OK"), page),
            outcome: Ok(String::from_str("Response successful!")),
        },
        Err(error) => Connection::Closed { outcome: Err(RequestError::from_render_error(error)) },
    }
}

impl Connection {
    /// A connection that has just been accepted. Directories are listed under
    /// `base_path` only.
    pub fn new(base_path: String) -> (state: Connection)
        ensures
            state@ == (ConnectionView::AwaitingRequest { base_path: base_path@ }),
    {
        Connection::AwaitingRequest { base_path }
    }

    /// What the caller is to do next.
    pub fn pending(&self) -> (action: Action)
        ensures
            action@ == self@.pending(),
    {
        match self {
            Connection::AwaitingRequest { .. } => Action::ReadRequestLine,
            Connection::Delaying { route, .. } => Action::Delay { seconds: route.delay_seconds() },
            Connection::LoadingPage { route, .. } => Action::LoadPage {
                file_name: route.page_file(),
            },
            Connection::ListingDirectory { flags, .. } => Action::ListDirectory {
                path: flags.fs_path.clone(),
            },
            Connection::Sending { response, .. } => Action::Send { response: response.clone() },
            Connection::Closed { .. } => Action::Close,
        }
    }

    /// What serving the connection ended with, once it is closed.
    pub fn into_outcome(self) -> (outcome: Option<Result<String, RequestError>>)
        ensures
            match self@ {
                ConnectionView::Closed { outcome: expected } => outcome matches Some(found)
                    && outcome_view(found) == expected,
                _ => outcome is None,
            },
    {
        match self {
            Connection::Closed { outcome } => Some(outcome),
            _ => None,
        }
    }
}

/// Takes a connection one step further: decides, from what the caller
/// reports, what the connection waits for next and how it ends.
pub fn handle_connection(state: Connection, event: Event) -> (next: Connection)
    ensures
        next@ == step(state@, event@),
{
    match state {
        Connection::AwaitingRequest { base_path } => match event {
            Event::RequestLine(None) => Connection::Closed {
                outcome: Err(RequestError::StreamError(String::from_str("Unable to read request"))),
            },
            Event::RequestLine(Some(line)) => match parse_request(line.as_str()) {
                Err(error) => Connection::Closed { outcome: Err(error) },
                Ok(request) => {
                    let route = route(request.uri.as_str());
                    if route.delay_seconds() > 0 {
                        Connection::Delaying { route, base_path }
                    } else {
                        Connection::LoadingPage { route, base_path }
                    }
                },
            },
            _ => Connection::AwaitingRequest { base_path },
        },
        Connection::Delaying { route, base_path } => match event {
            Event::DelayElapsed => Connection::LoadingPage { route, base_path },
            _ => Connection::Delaying { route, base_path },
        },
        Connection::LoadingPage { route, base_path } => match event {
            Event::PageLoaded(None) => {
                let mut message = String::from_str("File '");
                message.append(route.page_file().as_str());
                message.append("' not found");
                Connection::Closed { outcome: Err(RequestError::FileNotFound(message)) }
            },
            Event::PageLoaded(Some(page)) => match route {
                Route::Browse { flags } => {
                    if needs_listing(page.as_str(), &flags, base_path.as_str()) {
                        Connection::ListingDirectory { flags, page, base_path }
                    } else {
                        serve_rendered(page, &flags, base_path.as_str(), &DirListing::Unreadable)
                    }
                },
                other => Connection::Sending {
                    response: create_http_response(other.status_line(), page),
                    outcome: other.outcome(),
                },
            },
            _ => Connection::LoadingPage { route, base_path },
        },
        Connection::ListingDirectory { flags, page, base_path } => match event {
            Event::DirectoryListed(listing) => serve_rendered(
                page,
                &flags,
                base_path.as_str(),
                &listing,
            ),
            _ => Connection::ListingDirectory { flags, page, base_path },
        },
        Connection::Sending { response, outcome } => match event {
            Event::Sent(true) => Connection::Closed { outcome },
            Event::Sent(false) => Connection::Closed {
                outcome: Err(RequestError::StreamError(String::from_str("Unable to send request"))),
            },
            _ => Connection::Sending { response, outcome },
        },
        Connection::Closed { outcome } => Connection::Closed { outcome },
    }
}

/// The connection that is reached from `state` by a run of events.
pub open spec fn run(state: ConnectionView, events: Seq<EventView>) -> ConnectionView
    decreases events.len(),
{
    if events.len() == 0 {
        state
    } else {
        step(run(state, events.drop_last()), events.last())
    }
}

/// A run that begins with `first` is the run of the rest from the state after
/// `first`.
pub proof fn lemma_run_front(state: ConnectionView, first: EventView, rest: Seq<EventView>)
    ensures
        run(state, seq![first] + rest) == run(step(state, first), rest),
    decreases rest.len(),
{
    let all = seq![first] + rest;
    if rest.len() == 0 {
        assert(run(state, all.drop_last()) == state);
    } else {
        assert(all.drop_last() =~= seq![first] + rest.drop_last());
        lemma_run_front(state, first, rest.drop_last());
    }
}

/// Whether a connection lists directories under `base` only: it keeps `base`
/// as its base path, and a directory that it is listing begins with `base`.
pub open spec fn keeps_to_base(state: ConnectionView, base: Seq<char>) -> bool {
    match state {
        ConnectionView::AwaitingRequest { base_path } => base_path == base,
        ConnectionView::Delaying { base_path, .. } => base_path == base,
        ConnectionView::LoadingPage { base_path, .. } => base_path == base,
        ConnectionView::ListingDirectory { fs_path, base_path, .. } => base_path == base
            && base.is_prefix_of(fs_path),
        _ => true,
    }
}

/// Whatever is reported to a connection, from its start to its end it never
/// asks for the listing of a directory whose path does not begin with its base
/// path.
pub proof fn lemma_listing_stays_inside_base(base: Seq<char>, events: Seq<EventView>)
    ensures
        keeps_to_base(run(ConnectionView::AwaitingRequest { base_path: base }, events), base),
        run(ConnectionView::AwaitingRequest { base_path: base }, events).pending()
            matches ActionView::ListDirectory { path } ==> base.is_prefix_of(path),
    decreases events.len(),
{
    if events.len() > 0 {
        lemma_listing_stays_inside_base(base, events.drop_last());
    }
}

/// A connection whose request line asks for `/sleep` waits for its delay, of
/// [`SLEEP_SECONDS`] seconds, and for nothing else, until it is told that the
/// delay has elapsed: before that no page is loaded and no response is sent.
pub proof fn lemma_delay_precedes_response(
    base: Seq<char>,
    line: Seq<char>,
    events: Seq<EventView>,
)
    requires
        parsed_request(line) matches Ok(request) && request.uri == "/sleep"@,
    ensures
        events.contains(EventView::DelayElapsed) || run(
            ConnectionView::AwaitingRequest { base_path: base },
            seq![EventView::RequestLine(Some(line))] + events,
        ).pending() == (ActionView::Delay { seconds: SLEEP_SECONDS }),
{
    let start = ConnectionView::AwaitingRequest { base_path: base };
    let first = EventView::RequestLine(Some(line));
    let delaying = ConnectionView::Delaying { route: RouteView::Sleep, base_path: base };
    assert(step(start, first) == delaying) by {
        reveal_strlit("/sleep");
        reveal_strlit("/flowers");
        reveal_strlit("/");
        assert("/sleep"@.len() != "/flowers"@.len());
    }
    lemma_run_front(start, first, events);
    lemma_delaying_holds(delaying, events);
}

/// A connection whose delay is running stays as it is until it is told that
/// the delay has elapsed.
pub proof fn lemma_delaying_holds(state: ConnectionView, events: Seq<EventView>)
    requires
        state is Delaying,
    ensures
        events.contains(EventView::DelayElapsed) || run(state, events) == state,
    decreases events.len(),
{
    if events.len() > 0 {
        lemma_delaying_holds(state, events.drop_last());
        if events.drop_last().contains(EventView::DelayElapsed) {
            let at: int = choose|at: int|
                0 <= at < events.drop_last().len() && events.drop_last()[at]
                    == EventView::DelayElapsed;
            assert(events[at] == EventView::DelayElapsed);
        } else if events.last() == EventView::DelayElapsed {
            assert(events[events.len() - 1] == EventView::DelayElapsed);
        }
    }
}

} // verus!
