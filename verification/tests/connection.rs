use router::connection::{step, Action, ConnectionState, Event, FALLBACK, NOT_FOUND};
use router::method::HttpMethod;
use router::pattern::RoutePath;
use router::route::{Configuration, IncomingHttpRequest, Route};

fn table() -> Configuration {
    Configuration {
        routes: vec![
            Route {
                method: HttpMethod::GET,
                path: RoutePath::parse("/ping"),
                process: "/tmp/ping.sock".to_string(),
            },
            Route {
                method: HttpMethod::POST,
                path: RoutePath::parse("/users/:id"),
                process: "/tmp/users.sock".to_string(),
            },
        ],
    }
}

fn request(method: HttpMethod, path: &str, body: &str) -> IncomingHttpRequest {
    IncomingHttpRequest { method, path: path.to_string(), body: body.to_string() }
}

fn written(taken: Option<(ConnectionState, Action)>) -> (ConnectionState, String) {
    match taken {
        Some((state, Action::Write(reply))) => (state, reply),
        other => panic!("no reply is written: {:?}", other),
    }
}

#[test]
fn the_fixed_replies_are_exact() {
    assert_eq!(NOT_FOUND, "{\"status\":404,\"body\":\"\"}\n");
    assert_eq!(NOT_FOUND.len(), 25);
    assert_eq!(FALLBACK, "{}");
}

#[test]
fn an_accepted_connection_is_read() {
    let taken = step(&table(), ConnectionState::Idle, Event::Accepted);
    assert!(matches!(taken, Some((ConnectionState::Reading, Action::Read))));
}

#[test]
fn the_payload_is_trimmed_before_decoding() {
    let payload = " \n\t{\"method\":\"GET\",\"path\":\"/ping\",\"body\":\" \"}\r\n ".to_string();
    let taken = step(&table(), ConnectionState::Reading, Event::PayloadRead(payload));
    match taken {
        Some((ConnectionState::Decoding, Action::Decode(text))) => {
            assert_eq!(text, "{\"method\":\"GET\",\"path\":\"/ping\",\"body\":\" \"}")
        }
        other => panic!("nothing is decoded: {:?}", other),
    }
}

#[test]
fn a_request_without_route_is_not_found() {
    for incoming in [
        request(HttpMethod::GET, "/pong", ""),
        request(HttpMethod::POST, "/ping", ""),
        request(HttpMethod::GET, "/users/42", ""),
        request(HttpMethod::GET, "/ping/", ""),
        request(HttpMethod::GET, "", "body"),
    ] {
        let (state, reply) = written(step(&table(), ConnectionState::Decoding, Event::Decoded(incoming)));
        assert_eq!(state, ConnectionState::Writing);
        assert_eq!(reply, "{\"status\":404,\"body\":\"\"}\n");
    }
    let empty = Configuration { routes: Vec::new() };
    let (state, reply) = written(step(
        &empty,
        ConnectionState::Decoding,
        Event::Decoded(request(HttpMethod::GET, "/ping", "")),
    ));
    assert_eq!(state, ConnectionState::Writing);
    assert_eq!(reply, "{\"status\":404,\"body\":\"\"}\n");
}

#[test]
fn a_routed_request_is_forwarded_to_its_backend() {
    let incoming = request(HttpMethod::POST, "/users/42", "{\"name\":\"x\"}");
    match step(&table(), ConnectionState::Decoding, Event::Decoded(incoming)) {
        Some((ConnectionState::Dispatching, Action::Forward { address, request })) => {
            assert_eq!(address, "/tmp/users.sock");
            assert_eq!(request.method, HttpMethod::POST);
            assert_eq!(request.path, "/users/42");
            assert_eq!(request.body, "{\"name\":\"x\"}");
            assert_eq!(request.path_params.entries(), &vec![("id".to_string(), "42".to_string())]);
        }
        other => panic!("nothing is forwarded: {:?}", other),
    }
}

#[test]
fn the_reply_of_the_backend_is_passed_on_unchanged() {
    let answer = "{\"status\":200,\"body\":\"pong\"}\n".to_string();
    let (state, reply) = written(step(&table(), ConnectionState::Dispatching, Event::BackendReplied(answer)));
    assert_eq!(state, ConnectionState::Writing);
    assert_eq!(reply, "{\"status\":200,\"body\":\"pong\"}\n");

    let odd = "  not json at all \n\n".to_string();
    let (_, reply) = written(step(&table(), ConnectionState::Dispatching, Event::BackendReplied(odd)));
    assert_eq!(reply, "  not json at all \n\n");
}

#[test]
fn ping_is_answered_with_pong_from_end_to_end() {
    let table = Configuration {
        routes: vec![Route {
            method: HttpMethod::GET,
            path: RoutePath::parse("/ping"),
            process: "/tmp/echo.sock".to_string(),
        }],
    };
    let mut state = ConnectionState::Idle;
    let mut event = Event::Accepted;
    let mut sent = None;
    let mut seen = Vec::new();
    while let Some((next, action)) = step(&table, state, event) {
        state = next;
        seen.push(next);
        event = match action {
            Action::Read => Event::PayloadRead("{\"method\":\"GET\",\"path\":\"/ping\",\"body\":\"\"}".to_string()),
            Action::Decode(text) => {
                assert_eq!(text, "{\"method\":\"GET\",\"path\":\"/ping\",\"body\":\"\"}");
                Event::Decoded(request(HttpMethod::GET, "/ping", ""))
            }
            Action::Forward { address, request } => {
                assert_eq!(address, "/tmp/echo.sock");
                assert_eq!(request.path, "/ping");
                assert!(request.path_params.entries().is_empty());
                Event::BackendReplied("{\"status\":200,\"body\":\"pong\"}\n".to_string())
            }
            Action::Write(reply) => {
                sent = Some(reply);
                Event::Written
            }
            Action::Close => break,
        };
    }
    assert_eq!(sent, Some("{\"status\":200,\"body\":\"pong\"}\n".to_string()));
    assert_eq!(
        seen,
        vec![
            ConnectionState::Reading,
            ConnectionState::Decoding,
            ConnectionState::Dispatching,
            ConnectionState::Writing,
            ConnectionState::Closed,
        ]
    );
}

#[test]
fn a_failure_is_answered_with_the_fallback() {
    for state in [ConnectionState::Reading, ConnectionState::Decoding, ConnectionState::Dispatching] {
        let (next, reply) = written(step(&table(), state, Event::Failed));
        assert_eq!(next, ConnectionState::ErrorWriting);
        assert_eq!(reply, "{}");
        let closed = step(&table(), next, Event::Written);
        assert!(matches!(closed, Some((ConnectionState::Closed, Action::Close))));
    }
}

#[test]
fn an_unreachable_backend_leaves_the_table_in_use() {
    let table = table();
    let incoming = request(HttpMethod::GET, "/ping", "");
    let forwarded = step(&table, ConnectionState::Decoding, Event::Decoded(incoming));
    assert!(matches!(forwarded, Some((ConnectionState::Dispatching, Action::Forward { .. }))));
    let (state, reply) = written(step(&table, ConnectionState::Dispatching, Event::Failed));
    assert_eq!(state, ConnectionState::ErrorWriting);
    assert_eq!(reply, "{}");

    let again = request(HttpMethod::GET, "/ping", "");
    match step(&table, ConnectionState::Decoding, Event::Decoded(again)) {
        Some((ConnectionState::Dispatching, Action::Forward { address, .. })) => {
            assert_eq!(address, "/tmp/ping.sock")
        }
        other => panic!("nothing is forwarded: {:?}", other),
    }
}

#[test]
fn a_written_reply_closes_the_connection() {
    let taken = step(&table(), ConnectionState::Writing, Event::Written);
    assert!(matches!(taken, Some((ConnectionState::Closed, Action::Close))));
}

#[test]
fn events_out_of_turn_are_refused() {
    let table = table();
    assert!(step(&table, ConnectionState::Idle, Event::Written).is_none());
    assert!(step(&table, ConnectionState::Idle, Event::Failed).is_none());
    assert!(step(&table, ConnectionState::Reading, Event::Accepted).is_none());
    assert!(step(&table, ConnectionState::Reading, Event::BackendReplied(String::new())).is_none());
    assert!(step(&table, ConnectionState::Decoding, Event::PayloadRead(String::new())).is_none());
    assert!(step(
        &table,
        ConnectionState::Dispatching,
        Event::Decoded(request(HttpMethod::GET, "/ping", ""))
    )
    .is_none());
    assert!(step(&table, ConnectionState::Writing, Event::Failed).is_none());
    assert!(step(&table, ConnectionState::ErrorWriting, Event::Failed).is_none());
    assert!(step(&table, ConnectionState::Closed, Event::Written).is_none());
    assert!(step(&table, ConnectionState::Closed, Event::Accepted).is_none());
}
