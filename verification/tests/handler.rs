use page_server::handler::{
    create_http_response, handle_connection, route, Action, Connection, Event, Route,
    SLEEP_SECONDS,
};
use page_server::renderer::{DirEntry, DirListing, EntryKind, RenderFlags};
use page_server::requests::RequestError;

fn accepted(base_path: &str) -> Connection {
    Connection::new(base_path.to_string())
}

fn request(base_path: &str, line: &str) -> Connection {
    handle_connection(accepted(base_path), Event::RequestLine(Some(line.to_string())))
}

fn page(text: &str) -> Event {
    Event::PageLoaded(Some(text.to_string()))
}

fn load(file_name: &str) -> Action {
    Action::LoadPage { file_name: file_name.to_string() }
}

fn send(response: &str) -> Action {
    Action::Send { response: response.to_string() }
}

#[test]
fn response_has_status_length_and_body() {
    assert_eq!(
        create_http_response("HTTP/1.1 200 OK".to_string(), "<p>hi</p>".to_string()),
        "HTTP/1.1 200 OK\r\nContent-Length: 9\r\n\r\n<p>hi</p>"
    );
    assert_eq!(
        create_http_response("HTTP/1.1 404 NOT FOUND".to_string(), String::new()),
        "HTTP/1.1 404 NOT FOUND\r\nContent-Length: 0\r\n\r\n"
    );
}

#[test]
fn response_length_counts_bytes() {
    assert_eq!(
        create_http_response("S".to_string(), "né €☃".to_string()),
        "S\r\nContent-Length: 10\r\n\r\nné €☃"
    );
    let body = "x".repeat(12345);
    assert_eq!(
        create_http_response("S".to_string(), body.clone()),
        format!("S\r\nContent-Length: 12345\r\n\r\n{body}")
    );
}

#[test]
fn fixed_targets_have_fixed_routes() {
    assert_eq!(route("/"), Route::Root);
    assert_eq!(route("/flowers"), Route::Flowers);
    assert_eq!(route("/sleep"), Route::Sleep);
    assert_eq!(route("/Flowers"), Route::NotFound { uri: "/Flowers".to_string() });
    assert_eq!(route("/sleep/"), Route::NotFound { uri: "/sleep/".to_string() });
    assert_eq!(route(""), Route::NotFound { uri: String::new() });
}

#[test]
fn browsing_targets_name_their_directory() {
    let browse = |path: &str| Route::Browse { flags: RenderFlags { fs_path: path.to_string() } };
    assert_eq!(route("/fs"), browse("/"));
    assert_eq!(route("/fs/"), browse("/"));
    assert_eq!(route("/fs/home/x"), browse("/home/x"));
    assert_eq!(route("/fs/home/ü/"), browse("/home/ü/"));
    assert_eq!(route("/fsx"), browse("x"));
    assert_eq!(route("/f"), Route::NotFound { uri: "/f".to_string() });
}

#[test]
fn routes_have_their_pages_and_status_lines() {
    assert_eq!(Route::Root.page_file(), "pages/root.html");
    assert_eq!(Route::Flowers.page_file(), "pages/flowers.html");
    assert_eq!(Route::Sleep.page_file(), "pages/sleep.html");
    assert_eq!(route("/fs").page_file(), "pages/fs.html");
    assert_eq!(route("/nope").page_file(), "pages/404.html");
    assert_eq!(Route::Root.status_line(), "HTTP/1.1 200 OK");
    assert_eq!(route("/fs").status_line(), "HTTP/1.1 200 OK");
    assert_eq!(route("/nope").status_line(), "HTTP/1.1 404 NOT FOUND");
    assert_eq!(Route::Sleep.delay_seconds(), 5);
    assert_eq!(Route::Root.delay_seconds(), 0);
    assert_eq!(Route::Flowers.outcome(), Ok("Response successful!".to_string()));
    assert_eq!(route("/nope").outcome(), Err(RequestError::UnsupportedURI("/nope".to_string())));
}

#[test]
fn a_new_connection_waits_for_its_request_line() {
    let state = accepted("/home/x");
    assert_eq!(state.pending(), Action::ReadRequestLine);
    assert_eq!(state.into_outcome(), None);
}

#[test]
fn get_root_serves_the_root_page_with_200() {
    let state = request("/home/x", "GET / HTTP/1.1");
    assert_eq!(state.pending(), load("pages/root.html"));
    let state = handle_connection(state, page("<p>hi</p>"));
    assert_eq!(state.pending(), send("HTTP/1.1 200 OK\r\nContent-Length: 9\r\n\r\n<p>hi</p>"));
    let state = handle_connection(state, Event::Sent(true));
    assert_eq!(state.pending(), Action::Close);
    assert_eq!(state.into_outcome(), Some(Ok("Response successful!".to_string())));
}

#[test]
fn post_fails_before_any_page_is_loaded() {
    let state = request("/home/x", "POST / HTTP/1.1");
    assert_eq!(state.pending(), Action::Close);
    assert_eq!(state.into_outcome(), Some(Err(RequestError::InvalidMethod)));
}

#[test]
fn get_without_target_fails_as_malformed() {
    let state = request("/home/x", "GET");
    assert_eq!(state.pending(), Action::Close);
    assert_eq!(state.into_outcome(), Some(Err(RequestError::InvalidRequest)));
}

#[test]
fn an_empty_line_fails_as_malformed() {
    let state = request("/home/x", "");
    assert_eq!(state.into_outcome(), Some(Err(RequestError::InvalidRequest)));
}

#[test]
fn an_unread_line_is_a_stream_error() {
    let state = handle_connection(accepted("/home/x"), Event::RequestLine(None));
    assert_eq!(state.pending(), Action::Close);
    assert_eq!(
        state.into_outcome(),
        Some(Err(RequestError::StreamError("Unable to read request".to_string())))
    );
}

#[test]
fn flowers_serves_its_page() {
    let state = request("/", "GET /flowers HTTP/1.1");
    assert_eq!(state.pending(), load("pages/flowers.html"));
    let state = handle_connection(state, page("🌼"));
    assert_eq!(state.pending(), send("HTTP/1.1 200 OK\r\nContent-Length: 4\r\n\r\n🌼"));
}

#[test]
fn a_missing_route_sends_the_404_page_and_reports_the_target() {
    let state = request("/home/x", "GET /missing-route HTTP/1.1");
    assert_eq!(state.pending(), load("pages/404.html"));
    let state = handle_connection(state, page("<h1>Oops!</h1>"));
    assert_eq!(
        state.pending(),
        send("HTTP/1.1 404 NOT FOUND\r\nContent-Length: 14\r\n\r\n<h1>Oops!</h1>")
    );
    let state = handle_connection(state, Event::Sent(true));
    assert_eq!(
        state.into_outcome(),
        Some(Err(RequestError::UnsupportedURI("/missing-route".to_string())))
    );
}

#[test]
fn a_missing_page_is_reported_with_its_file() {
    let state = request("/home/x", "GET / HTTP/1.1");
    let state = handle_connection(state, Event::PageLoaded(None));
    assert_eq!(state.pending(), Action::Close);
    assert_eq!(
        state.into_outcome(),
        Some(Err(RequestError::FileNotFound("File 'pages/root.html' not found".to_string())))
    );
}

#[test]
fn a_failed_write_is_a_stream_error() {
    let state = request("/home/x", "GET /missing-route HTTP/1.1");
    let state = handle_connection(state, page("gone"));
    let state = handle_connection(state, Event::Sent(false));
    assert_eq!(state.pending(), Action::Close);
    assert_eq!(
        state.into_outcome(),
        Some(Err(RequestError::StreamError("Unable to send request".to_string())))
    );
}

#[test]
fn sleep_waits_its_full_delay_before_anything_else() {
    assert_eq!(SLEEP_SECONDS, 5);
    let mut state = request("/home/x", "GET /sleep HTTP/1.1");
    assert_eq!(state.pending(), Action::Delay { seconds: 5 });
    let early = [
        page("<p>zzz</p>"),
        Event::PageLoaded(None),
        Event::Sent(true),
        Event::Sent(false),
        Event::DirectoryListed(DirListing::Unreadable),
        Event::RequestLine(Some("GET / HTTP/1.1".to_string())),
        Event::RequestLine(None),
    ];
    for event in early {
        state = handle_connection(state, event);
        assert_eq!(state.pending(), Action::Delay { seconds: 5 });
    }
    let state = handle_connection(state, Event::DelayElapsed);
    assert_eq!(state.pending(), load("pages/sleep.html"));
    let state = handle_connection(state, page("<p>zzz</p>"));
    assert_eq!(state.pending(), send("HTTP/1.1 200 OK\r\nContent-Length: 10\r\n\r\n<p>zzz</p>"));
    let state = handle_connection(state, Event::Sent(true));
    assert_eq!(state.into_outcome(), Some(Ok("Response successful!".to_string())));
}

#[test]
fn other_routes_do_not_wait() {
    for line in ["GET /", "GET /flowers", "GET /fs", "GET /nowhere"] {
        let state = request("/", line);
        assert!(matches!(state.pending(), Action::LoadPage { .. }), "{line}");
    }
}

#[test]
fn browsing_inside_the_base_lists_the_directory() {
    let state = request("/home/x", "GET /fs/home/x HTTP/1.1");
    assert_eq!(state.pending(), load("pages/fs.html"));
    let state = handle_connection(state, page("{{curr_path}}: {{files_list}} {{up_level_link}}"));
    assert_eq!(state.pending(), Action::ListDirectory { path: "/home/x".to_string() });
    let listing = DirListing::Entries(vec![
        DirEntry { name: Some("docs".to_string()), kind: EntryKind::Directory },
        DirEntry { name: Some("a.txt".to_string()), kind: EntryKind::File },
    ]);
    let state = handle_connection(state, Event::DirectoryListed(listing));
    let body = "/home/x: <ul><li><a href=/fs/home/x/docs>docs</a></li><li>a.txt</li></ul> \
                <a href=/fs/home>../</a>";
    assert_eq!(
        state.pending(),
        send(&format!("HTTP/1.1 200 OK\r\nContent-Length: {}\r\n\r\n{}", body.len(), body))
    );
    let state = handle_connection(state, Event::Sent(true));
    assert_eq!(state.into_outcome(), Some(Ok("Response successful!".to_string())));
}

#[test]
fn browsing_an_unreadable_directory_still_serves_the_page() {
    let state = request("/home/x", "GET /fs/home/x/gone HTTP/1.1");
    let state = handle_connection(state, page("{{files_list}}"));
    assert_eq!(state.pending(), Action::ListDirectory { path: "/home/x/gone".to_string() });
    let state = handle_connection(state, Event::DirectoryListed(DirListing::Unreadable));
    assert_eq!(
        state.pending(),
        send("HTTP/1.1 200 OK\r\nContent-Length: 33\r\n\r\n<br>Unable to read into directory")
    );
}

#[test]
fn browsing_outside_the_base_never_lists_a_directory() {
    for target in ["/fs", "/fs/etc", "/fs/home", "/fs/home/y", "/fsx"] {
        let state = request("/home/x", &format!("GET {target} HTTP/1.1"));
        assert_eq!(state.pending(), load("pages/fs.html"));
        let state = handle_connection(state, page("[{{files_list}}][{{up_level_link}}]"));
        let body = "[Access denied. Go back to <a href=/fs/home/x>/home/x</a>]\
                    [Access denied. Go back to <a href=/fs/home/x>/home/x</a>]";
        assert_eq!(
            state.pending(),
            send(&format!("HTTP/1.1 200 OK\r\nContent-Length: {}\r\n\r\n{}", body.len(), body)),
            "{target}"
        );
    }
}

#[test]
fn a_page_without_list_needs_no_listing() {
    let state = request("/home/x", "GET /fs/home/x/docs HTTP/1.1");
    let state = handle_connection(state, page("{{curr_path}} {{up_level_link}}"));
    let body = "/home/x/docs <a href=/fs/home/x>../</a>";
    assert_eq!(
        state.pending(),
        send(&format!("HTTP/1.1 200 OK\r\nContent-Length: {}\r\n\r\n{}", body.len(), body))
    );
}

#[test]
fn an_event_out_of_turn_changes_nothing() {
    let state = handle_connection(accepted("/"), Event::Sent(true));
    assert_eq!(state, accepted("/"));
    let state = handle_connection(state, Event::DelayElapsed);
    assert_eq!(state, accepted("/"));

    let loading = request("/", "GET / HTTP/1.1");
    let loading = handle_connection(loading, Event::DelayElapsed);
    let loading = handle_connection(loading, Event::Sent(true));
    assert_eq!(loading.pending(), load("pages/root.html"));

    let sending = handle_connection(loading, page("x"));
    let sending = handle_connection(sending, page("y"));
    assert_eq!(sending.pending(), send("HTTP/1.1 200 OK\r\nContent-Length: 1\r\n\r\nx"));

    let listing = request("/", "GET /fs/tmp HTTP/1.1");
    let listing = handle_connection(listing, page("{{files_list}}"));
    let listing = handle_connection(listing, page("other"));
    assert_eq!(listing.pending(), Action::ListDirectory { path: "/tmp".to_string() });
}

#[test]
fn a_closed_connection_stays_closed() {
    let state = request("/", "NOPE /");
    let state = handle_connection(state, Event::RequestLine(Some("GET / HTTP/1.1".to_string())));
    let state = handle_connection(state, Event::Sent(true));
    assert_eq!(state.pending(), Action::Close);
    assert_eq!(state.into_outcome(), Some(Err(RequestError::InvalidMethod)));
}
