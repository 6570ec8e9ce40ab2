use server_setup::fetch::{FetchAction, FetchError, FetchEvent, FetchOutcome, FetchSession};

fn run(events: &[FetchEvent]) -> (Vec<FetchAction>, Vec<u64>) {
    let mut s = FetchSession::new("/srv/a/b", "server.jar");
    let mut asked = vec![s.action()];
    let mut reported = Vec::new();
    for e in events {
        s.step(*e);
        asked.push(s.action());
        if let FetchEvent::Chunk(_) = e {
            reported.push(s.progress().bytes_transferred);
        }
    }
    (asked, reported)
}

fn outcome(bytes: u64) -> FetchOutcome {
    FetchOutcome { bytes, path: "/srv/a/b/server.jar".to_string() }
}

fn ok_response(len: u64) -> FetchEvent {
    FetchEvent::Response { status: 200, content_length: Some(len) }
}

#[test]
fn successful_download_counts_every_chunk() {
    let (asked, reported) = run(&[
        ok_response(10),
        FetchEvent::Created,
        FetchEvent::Created,
        FetchEvent::Chunk(6),
        FetchEvent::Chunk(0),
        FetchEvent::Chunk(4),
        FetchEvent::EndOfStream,
    ]);
    assert_eq!(
        asked,
        vec![
            FetchAction::SendRequest,
            FetchAction::CreateDir,
            FetchAction::CreateFile,
            FetchAction::ReadChunk,
            FetchAction::ReadChunk,
            FetchAction::ReadChunk,
            FetchAction::ReadChunk,
            FetchAction::Finish(Ok(outcome(10))),
        ]
    );
    assert_eq!(reported, vec![6, 6, 10]);
    assert!(reported.windows(2).all(|w| w[0] <= w[1]));
}

#[test]
fn not_found_status_creates_nothing() {
    let (asked, _) = run(&[
        FetchEvent::Response { status: 404, content_length: Some(5) },
        FetchEvent::Created,
        FetchEvent::Created,
    ]);
    assert_eq!(asked[1], FetchAction::Finish(Err(FetchError::RemoteStatus(404))));
    assert!(!asked.contains(&FetchAction::CreateDir));
    assert!(!asked.contains(&FetchAction::CreateFile));
}

#[test]
fn redirect_status_is_not_success() {
    let (asked, _) = run(&[FetchEvent::Response { status: 301, content_length: Some(5) }]);
    assert_eq!(asked[1], FetchAction::Finish(Err(FetchError::RemoteStatus(301))));
}

#[test]
fn missing_length_stops_before_disk() {
    let (asked, _) = run(&[FetchEvent::Response { status: 200, content_length: None }]);
    assert_eq!(asked, vec![FetchAction::SendRequest, FetchAction::Finish(Err(FetchError::MissingLength))]);
}

#[test]
fn request_failure_is_network_error() {
    let (asked, _) = run(&[FetchEvent::RequestFailed]);
    assert_eq!(asked[1], FetchAction::Finish(Err(FetchError::Network)));
}

#[test]
fn directory_comes_before_file() {
    let (asked, _) = run(&[ok_response(1), FetchEvent::Failed]);
    assert_eq!(asked[1], FetchAction::CreateDir);
    assert_eq!(asked[2], FetchAction::Finish(Err(FetchError::Filesystem)));
    assert!(!asked.contains(&FetchAction::CreateFile));
}

#[test]
fn file_creation_failure_is_filesystem_error() {
    let (asked, _) = run(&[ok_response(1), FetchEvent::Created, FetchEvent::Failed]);
    assert_eq!(asked[3], FetchAction::Finish(Err(FetchError::Filesystem)));
}

#[test]
fn midstream_failure_is_io_error() {
    let (asked, _) = run(&[
        ok_response(100),
        FetchEvent::Created,
        FetchEvent::Created,
        FetchEvent::Chunk(50),
        FetchEvent::Failed,
    ]);
    assert_eq!(asked[5], FetchAction::Finish(Err(FetchError::Io)));
}

#[test]
fn short_transfer_is_accepted() {
    let (asked, _) = run(&[
        ok_response(100),
        FetchEvent::Created,
        FetchEvent::Created,
        FetchEvent::Chunk(30),
        FetchEvent::EndOfStream,
    ]);
    assert_eq!(asked[5], FetchAction::Finish(Ok(outcome(30))));
}

#[test]
fn count_past_u64_ends_as_io_error() {
    let (asked, _) = run(&[
        ok_response(1),
        FetchEvent::Created,
        FetchEvent::Created,
        FetchEvent::Chunk(2),
        FetchEvent::Chunk(u64::MAX),
    ]);
    assert_eq!(asked[5], FetchAction::Finish(Err(FetchError::Io)));
}

#[test]
fn progress_reports_declared_total() {
    let mut s = FetchSession::new("dl/", "x.bin");
    assert_eq!(s.destination(), "dl/x.bin");
    s.step(ok_response(4096));
    assert_eq!(s.progress().bytes_total, 4096);
    assert_eq!(s.progress().bytes_transferred, 0);
}

#[test]
fn one_report_per_chunk_with_running_sums() {
    let chunks = [8192u64, 8192, 100];
    let mut events = vec![ok_response(16484), FetchEvent::Created, FetchEvent::Created];
    events.extend(chunks.iter().map(|n| FetchEvent::Chunk(*n)));
    events.push(FetchEvent::EndOfStream);
    let (asked, reported) = run(&events);
    assert_eq!(reported, vec![8192, 16384, 16484]);
    assert_eq!(asked.last(), Some(&FetchAction::Finish(Ok(outcome(16484)))));
}
