use loafer::{
    candidate_path, decode, fetch, Connection, ConnectionEvent, FileDirFetcher, GopherError,
    Handler, ResourceFetcher,
};
use tokio_util::sync::CancellationToken;

/// A directory held in memory: canonical paths and what the files hold.
#[derive(Clone, Debug)]
struct MemoryDir {
    policy: FileDirFetcher,
    files: Vec<(Vec<u8>, Vec<u8>)>,
}

impl MemoryDir {
    fn gopherhole() -> MemoryDir {
        MemoryDir {
            policy: FileDirFetcher::new(b"/tests/gopherhole", b"/tests/gopherhole/index"),
            files: vec![
                (b"/tests/gopherhole/index".to_vec(), b"hello\n".to_vec()),
                (b"/tests/gopherhole/docs/about.txt".to_vec(), b"about\r\n".to_vec()),
                (b"/etc/passwd".to_vec(), b"root:x:0:0".to_vec()),
            ],
        }
    }

    /// Takes the steps `.` and `..` of a path, as a file system without links
    /// does, and fails if no file is there.
    fn canonicalize(&self, path: &[u8]) -> Result<Vec<u8>, GopherError> {
        let mut parts: Vec<&[u8]> = Vec::new();
        for part in path.split(|byte| *byte == b'/') {
            match part {
                b"" | b"." => {}
                b".." => {
                    parts.pop();
                }
                _ => parts.push(part),
            }
        }
        let mut canonical: Vec<u8> = Vec::new();
        for part in parts {
            canonical.push(b'/');
            canonical.extend_from_slice(part);
        }
        if canonical.is_empty() {
            canonical.push(b'/');
        }
        if self.files.iter().any(|(file, _)| *file == canonical) {
            Ok(canonical)
        } else {
            Err(GopherError::NotFound)
        }
    }

    fn read(&self, path: &[u8]) -> Result<Vec<u8>, GopherError> {
        self.files
            .iter()
            .find(|(file, _)| file.as_slice() == path)
            .map(|(_, bytes)| bytes.clone())
            .ok_or(GopherError::NotFound)
    }
}

impl ResourceFetcher for MemoryDir {
    fn fetch_resource(&self, selector: &[u8]) -> Result<Vec<u8>, GopherError> {
        let candidate = self.policy.resource_candidate(selector);
        let file = self.policy.resource_file(self.canonicalize(&candidate))?;
        self.read(&file)
    }

    fn fetch_home(&self) -> Result<Vec<u8>, GopherError> {
        self.read(self.policy.index_file())
    }
}

/// A fetcher that cancels the token while it fetches.
#[derive(Clone, Debug)]
struct CancelsMeanwhile {
    token: CancellationToken,
}

impl ResourceFetcher for CancelsMeanwhile {
    fn fetch_resource(&self, _selector: &[u8]) -> Result<Vec<u8>, GopherError> {
        self.token.cancel();
        Ok(b"late".to_vec())
    }

    fn fetch_home(&self) -> Result<Vec<u8>, GopherError> {
        self.token.cancel();
        Err(GopherError::Io)
    }
}

fn serve(line: &[u8]) -> Connection {
    let handler = Handler::new(MemoryDir::gopherhole(), CancellationToken::new());
    handler.handle_connection(decode(&[line.to_vec()]))
}

#[test]
fn can_fetch_index() {
    let index_from_file = MemoryDir::gopherhole().read(b"/tests/gopherhole/index").unwrap();
    let response = serve(b"\r\n");
    assert_eq!(response, Connection::Responding { response: index_from_file });
}

#[test]
fn empty_selector_gets_the_home_resource() {
    assert_eq!(serve(b"\r\n"), Connection::Responding { response: b"hello\n".to_vec() });
}

#[test]
fn selector_gets_the_file_it_names() {
    assert_eq!(serve(b"index\r\n"), Connection::Responding { response: b"hello\n".to_vec() });
    assert_eq!(
        serve(b"docs/about.txt\r\n"),
        Connection::Responding { response: b"about\r\n".to_vec() }
    );
    assert_eq!(
        serve(b"/docs/about.txt\r\n"),
        Connection::Responding { response: b"about\r\n".to_vec() }
    );
}

#[test]
fn selector_that_steps_out_is_refused() {
    assert_eq!(
        serve(b"../../etc/passwd\r\n"),
        Connection::Closed { error: Some(GopherError::PermissionDenied) }
    );
}

#[test]
fn selector_with_an_absolute_path_stays_in_the_directory() {
    assert_eq!(
        serve(b"/etc/passwd\r\n"),
        Connection::Closed { error: Some(GopherError::NotFound) }
    );
}

#[test]
fn missing_file_is_not_found() {
    assert_eq!(serve(b"missing\r\n"), Connection::Closed { error: Some(GopherError::NotFound) });
}

#[test]
fn request_without_terminator_is_malformed() {
    let handler = Handler::new(MemoryDir::gopherhole(), CancellationToken::new());
    let connection = handler.handle_connection(decode(&[b"index".to_vec(), Vec::new()]));
    assert_eq!(connection, Connection::Closed { error: Some(GopherError::MalformedRequest) });
}

#[test]
fn cancellation_while_decoding_drops_the_connection() {
    let handler = Handler::new(MemoryDir::gopherhole(), CancellationToken::new());
    assert_eq!(handler.handle_connection(Err(GopherError::Cancelled)), Connection::Cancelled);
}

#[test]
fn cancellation_before_the_write_suppresses_the_response() {
    let token = CancellationToken::new();
    let handler = Handler::new(MemoryDir::gopherhole(), token.clone());
    assert_eq!(
        handler.handle_connection(Ok(b"index".to_vec())),
        Connection::Responding { response: b"hello\n".to_vec() }
    );
    token.cancel();
    assert_eq!(handler.handle_connection(Ok(b"index".to_vec())), Connection::Cancelled);
    assert_eq!(handler.handle_connection(Ok(Vec::new())), Connection::Cancelled);
    assert_eq!(handler.handle_connection(Ok(b"missing".to_vec())), Connection::Cancelled);
}

#[test]
fn cancellation_during_the_fetch_suppresses_the_response() {
    let token = CancellationToken::new();
    let handler = Handler::new(CancelsMeanwhile { token: token.clone() }, token);
    assert_eq!(handler.handle_connection(Ok(b"index".to_vec())), Connection::Cancelled);
}

#[test]
fn cancelled_handler_still_reports_a_malformed_request() {
    let token = CancellationToken::new();
    token.cancel();
    let handler = Handler::new(MemoryDir::gopherhole(), token);
    assert_eq!(
        handler.handle_connection(Err(GopherError::MalformedRequest)),
        Connection::Closed { error: Some(GopherError::MalformedRequest) }
    );
}

#[test]
fn fetch_routes_by_the_selector() {
    let dir = MemoryDir::gopherhole();
    assert_eq!(fetch(&dir, b""), Ok(b"hello\n".to_vec()));
    assert_eq!(fetch(&dir, b"docs/about.txt"), Ok(b"about\r\n".to_vec()));
    assert_eq!(fetch(&dir, b"missing"), Err(GopherError::NotFound));
    let token = CancellationToken::new();
    let other = CancelsMeanwhile { token };
    assert_eq!(fetch(&other, b""), Err(GopherError::Io));
    assert_eq!(fetch(&other, b"x"), Ok(b"late".to_vec()));
}

#[test]
fn home_resource_need_not_lie_in_the_directory() {
    let dir = MemoryDir {
        policy: FileDirFetcher::new(b"/tests/gopherhole", b"/etc/passwd"),
        ..MemoryDir::gopherhole()
    };
    assert_eq!(fetch(&dir, b""), Ok(b"root:x:0:0".to_vec()));
    assert_eq!(fetch(&dir, b"../../etc/passwd"), Err(GopherError::PermissionDenied));
}

#[test]
fn connection_walks_through_its_states() {
    let decoding = Connection::new();
    assert_eq!(decoding, Connection::Decoding);
    let fetching = decoding.step(ConnectionEvent::Decoded(Ok(b"index".to_vec())));
    assert_eq!(fetching, Connection::Fetching { selector: b"index".to_vec() });
    let responding = fetching.step(ConnectionEvent::Fetched(Ok(b"hello\n".to_vec())));
    assert_eq!(responding, Connection::Responding { response: b"hello\n".to_vec() });
    let closed = responding.step(ConnectionEvent::Written);
    assert_eq!(closed, Connection::Closed { error: None });
}

#[test]
fn connection_closes_on_each_error() {
    for error in [
        GopherError::NotFound,
        GopherError::PermissionDenied,
        GopherError::Io,
        GopherError::MalformedRequest,
    ] {
        let fetching = Connection::Fetching { selector: b"x".to_vec() };
        assert_eq!(
            fetching.step(ConnectionEvent::Fetched(Err(error))),
            Connection::Closed { error: Some(error) }
        );
        assert_eq!(
            Connection::new().step(ConnectionEvent::Decoded(Err(error))),
            Connection::Closed { error: Some(error) }
        );
        assert!(!error.is_cancellation());
    }
    assert!(GopherError::Cancelled.is_cancellation());
}

#[test]
fn cancellation_reaches_decoding_and_fetching_only() {
    assert_eq!(Connection::Decoding.step(ConnectionEvent::Cancelled), Connection::Cancelled);
    assert_eq!(
        Connection::Fetching { selector: Vec::new() }.step(ConnectionEvent::Cancelled),
        Connection::Cancelled
    );
    let responding = Connection::Responding { response: b"hello\n".to_vec() };
    assert_eq!(responding.clone().step(ConnectionEvent::Cancelled), responding);
    let closed = Connection::Closed { error: None };
    assert_eq!(closed.clone().step(ConnectionEvent::Cancelled), closed);
}

#[test]
fn failure_by_cancellation_is_the_cancelled_state() {
    assert_eq!(
        Connection::new().step(ConnectionEvent::Decoded(Err(GopherError::Cancelled))),
        Connection::Cancelled
    );
    assert_eq!(
        Connection::Fetching { selector: Vec::new() }
            .step(ConnectionEvent::Fetched(Err(GopherError::Cancelled))),
        Connection::Cancelled
    );
}

#[test]
fn finished_connection_takes_no_more_events() {
    for over in [
        Connection::Cancelled,
        Connection::Closed { error: None },
        Connection::Closed { error: Some(GopherError::Io) },
    ] {
        assert_eq!(over.clone().step(ConnectionEvent::Decoded(Ok(Vec::new()))), over);
        assert_eq!(over.clone().step(ConnectionEvent::Fetched(Ok(b"x".to_vec()))), over);
        assert_eq!(over.clone().step(ConnectionEvent::Written), over);
        assert_eq!(over.clone().step(ConnectionEvent::Cancelled), over);
    }
}

#[test]
fn events_out_of_order_change_nothing() {
    assert_eq!(
        Connection::new().step(ConnectionEvent::Fetched(Ok(b"x".to_vec()))),
        Connection::Decoding
    );
    assert_eq!(Connection::new().step(ConnectionEvent::Written), Connection::Decoding);
    let fetching = Connection::Fetching { selector: b"a".to_vec() };
    assert_eq!(
        fetching.clone().step(ConnectionEvent::Decoded(Ok(b"b".to_vec()))),
        fetching
    );
    assert_eq!(fetching.clone().step(ConnectionEvent::Written), fetching);
}

#[test]
fn respond_heeds_cancellation_first() {
    let fetching = Connection::Fetching { selector: b"index".to_vec() };
    assert_eq!(
        fetching.clone().respond(Ok(b"hello\n".to_vec()), false),
        Connection::Responding { response: b"hello\n".to_vec() }
    );
    assert_eq!(fetching.clone().respond(Ok(b"hello\n".to_vec()), true), Connection::Cancelled);
    assert_eq!(fetching.clone().respond(Err(GopherError::Io), true), Connection::Cancelled);
    assert_eq!(
        fetching.respond(Err(GopherError::Io), false),
        Connection::Closed { error: Some(GopherError::Io) }
    );
}

#[test]
fn candidate_of_the_scenario_selectors() {
    assert_eq!(
        candidate_path(b"/tests/gopherhole", b"../../etc/passwd"),
        b"/tests/gopherhole/../../etc/passwd".to_vec()
    );
    assert_eq!(
        candidate_path(b"/tests/gopherhole", b"missing"),
        b"/tests/gopherhole/missing".to_vec()
    );
}
