//! The decisions of a streaming download: check the response, create the
//! destination directory and file, count the bytes of each chunk written, and
//! report the outcome.
//!
//! The caller performs each action that a [`FetchSession`] asks for (the
//! request, the directory, the file, each chunk) and hands back what came of
//! it. Nothing is retried: the first failure ends the session.

use vstd::prelude::*;
use crate::path::{join_path, joined};

verus! {

/// Size of the buffer that each chunk of the body is read into.
pub const CHUNK_SIZE: usize = 8192;

/// Why a download failed.
#[derive(Clone, Copy, Debug, PartialEq, Eq, Structural)]
pub enum FetchError {
    /// The request could not be made: connection, DNS or TLS failure.
    Network,
    /// The server answered with a status outside `200..=299`.
    RemoteStatus(u16),
    /// The server declared no content length.
    MissingLength,
    /// The destination directory or file could not be created.
    Filesystem,
    /// Reading the body or writing the file failed midway.
    Io,
}

/// Where a download stands.
#[derive(Clone, Copy, Debug, PartialEq, Eq)]
pub enum FetchPhase {
    /// Waiting for the response to the request.
    Requesting,
    /// Waiting for the destination directory, ancestors included.
    CreatingDir,
    /// Waiting for the destination file to be created or truncated.
    CreatingFile,
    /// Reading the body chunk by chunk into the file.
    Streaming,
    /// Over: the number of bytes written, or why it failed.
    Finished(Result<u64, FetchError>),
}

/// How a download that succeeded ended: the bytes written, and the file
/// they were written to.
#[derive(Clone, Debug, PartialEq, Eq)]
pub struct FetchOutcome {
    pub bytes: u64,
    pub path: String,
}

/// What the caller is asked to do next.
#[derive(Debug, PartialEq, Eq)]
pub enum FetchAction {
    /// Send the GET request.
    SendRequest,
    /// Create the destination directory and every missing ancestor.
    CreateDir,
    /// Create the destination file, truncating one that exists.
    CreateFile,
    /// Read the next chunk of the body and write all of it to the file.
    ReadChunk,
    /// The download is over, with this result.
    Finish(Result<FetchOutcome, FetchError>),
}

/// What came of the action last asked for.
#[derive(Clone, Copy, Debug, PartialEq, Eq, Structural)]
pub enum FetchEvent {
    /// The server answered with this status and declared length.
    Response { status: u16, content_length: Option<u64> },
    /// The request failed before any response.
    RequestFailed,
    /// The directory or the file was created.
    Created,
    /// A chunk of this many bytes was read and written in full.
    Chunk(u64),
    /// The body ended.
    EndOfStream,
    /// The action failed.
    Failed,
}

/// Progress of a download.
#[derive(Clone, Copy, Debug, PartialEq, Eq, Structural)]
pub struct FetchProgress {
    /// Bytes written to the file so far.
    pub bytes_transferred: u64,
    /// Bytes that the server declared.
    pub bytes_total: u64,
}

/// A session's phase, declared length and bytes written, as the contracts see it.
pub struct FetchView {
    pub phase: FetchPhase,
    pub total: u64,
    pub transferred: u64,
}

/// Whether an HTTP status means success.
pub open spec fn is_success(status: u16) -> bool {
    200 <= status <= 299
}

/// The session `v` once it is over with result `r`.
pub open spec fn finished(v: FetchView, r: Result<u64, FetchError>) -> FetchView {
    FetchView { phase: FetchPhase::Finished(r), ..v }
}

/// The session that follows `v` once the caller reports `e`.
pub open spec fn fetch_next(v: FetchView, e: FetchEvent) -> FetchView {
    match v.phase {
        FetchPhase::Requesting => match e {
            FetchEvent::Response { status, content_length } => if !is_success(status) {
                finished(v, Err(FetchError::RemoteStatus(status)))
            } else {
                match content_length {
                    Some(n) => FetchView { phase: FetchPhase::CreatingDir, total: n, ..v },
                    None => finished(v, Err(FetchError::MissingLength)),
                }
            },
            _ => finished(v, Err(FetchError::Network)),
        },
        FetchPhase::CreatingDir => if e is Created {
            FetchView { phase: FetchPhase::CreatingFile, ..v }
        } else {
            finished(v, Err(FetchError::Filesystem))
        },
        FetchPhase::CreatingFile => if e is Created {
            FetchView { phase: FetchPhase::Streaming, ..v }
        } else {
            finished(v, Err(FetchError::Filesystem))
        },
        FetchPhase::Streaming => match e {
            FetchEvent::Chunk(n) => if v.transferred + n <= u64::MAX {
                FetchView { transferred: (v.transferred + n) as u64, ..v }
            } else {
                finished(v, Err(FetchError::Io))
            },
            FetchEvent::EndOfStream => finished(v, Ok(v.transferred)),
            _ => finished(v, Err(FetchError::Io)),
        },
        FetchPhase::Finished(_) => v,
    }
}

/// Whether `a` is the action that phase `p` asks for, for a download into
/// the file at `dest`.
pub open spec fn fetch_asks(p: FetchPhase, dest: Seq<char>, a: FetchAction) -> bool {
    match p {
        FetchPhase::Requesting => a is SendRequest,
        FetchPhase::CreatingDir => a is CreateDir,
        FetchPhase::CreatingFile => a is CreateFile,
        FetchPhase::Streaming => a is ReadChunk,
        FetchPhase::Finished(Ok(n)) => a matches FetchAction::Finish(Ok(o)) && o.bytes == n
            && o.path@ == dest,
        FetchPhase::Finished(Err(e)) => a matches FetchAction::Finish(Err(x)) && x == e,
    }
}

/// The destination as far as a download can tell: whether its directory
/// exists, and the size of its file when the file exists.
pub struct FetchDisk {
    pub dir: bool,
    pub file: Option<nat>,
}

/// What the action that phase `p` asks for does to the destination, given
/// what came of it.
pub open spec fn fetch_effect(d: FetchDisk, p: FetchPhase, e: FetchEvent) -> FetchDisk {
    match p {
        FetchPhase::CreatingDir => if e is Created {
            FetchDisk { dir: true, ..d }
        } else {
            d
        },
        FetchPhase::CreatingFile => if e is Created {
            FetchDisk { file: Some(0), ..d }
        } else {
            d
        },
        FetchPhase::Streaming => match (e, d.file) {
            (FetchEvent::Chunk(n), Some(size)) => FetchDisk { file: Some((size + n) as nat), ..d },
            _ => d,
        },
        _ => d,
    }
}

/// The session and the destination once the caller has reported `events` in
/// turn, starting from session `v` and destination `d`.
pub open spec fn fetch_run(v: FetchView, d: FetchDisk, events: Seq<FetchEvent>) -> (FetchView, FetchDisk)
    decreases events.len(),
{
    if events.len() == 0 {
        (v, d)
    } else {
        fetch_run(fetch_next(v, events[0]), fetch_effect(d, v.phase, events[0]), events.drop_first())
    }
}

/// A session that has not started.
pub open spec fn fresh() -> FetchView {
    FetchView { phase: FetchPhase::Requesting, total: 0, transferred: 0 }
}

/// Whether a file, if there is one, stands in an existing directory.
pub open spec fn well_placed(d: FetchDisk) -> bool {
    d.file is Some ==> d.dir
}

/// How the destination stands in each phase of a download.
spec fn fetch_consistent(v: FetchView, d: FetchDisk) -> bool {
    &&& well_placed(d)
    &&& match v.phase {
        FetchPhase::Requesting => v.transferred == 0,
        FetchPhase::CreatingDir => v.transferred == 0,
        FetchPhase::CreatingFile => d.dir && v.transferred == 0,
        FetchPhase::Streaming => d.dir && d.file == Some(v.transferred as nat),
        FetchPhase::Finished(Ok(n)) => d.dir && d.file == Some(n as nat),
        FetchPhase::Finished(Err(_)) => true,
    }
}

proof fn lemma_fetch_run_consistent(v: FetchView, d: FetchDisk, events: Seq<FetchEvent>)
    requires
        fetch_consistent(v, d),
    ensures
        fetch_consistent(fetch_run(v, d, events).0, fetch_run(v, d, events).1),
        fetch_run(v, d, events).0.transferred >= v.transferred,
    decreases events.len(),
{
    if events.len() > 0 {
        lemma_fetch_run_consistent(
            fetch_next(v, events[0]),
            fetch_effect(d, v.phase, events[0]),
            events.drop_first(),
        );
    }
}

proof fn lemma_fetch_run_split(v: FetchView, d: FetchDisk, events: Seq<FetchEvent>, k: int)
    requires
        0 <= k <= events.len(),
    ensures
        fetch_run(v, d, events) == ({
            let (v1, d1) = fetch_run(v, d, events.take(k));
            fetch_run(v1, d1, events.skip(k))
        }),
    decreases k,
{
    if k == 0 {
        assert(events.skip(0) =~= events);
    } else {
        let rest = events.drop_first();
        lemma_fetch_run_split(fetch_next(v, events[0]), fetch_effect(d, v.phase, events[0]), rest, k - 1);
        assert(events.take(k).drop_first() =~= rest.take(k - 1));
        assert(events.skip(k) =~= rest.skip(k - 1));
    }
}

/// The reported byte count never goes down: after more events, a download has
/// written at least as many bytes as after fewer.
pub proof fn lemma_progress_never_decreases(events: Seq<FetchEvent>, d: FetchDisk, k: int, l: int)
    requires
        0 <= k <= l <= events.len(),
        well_placed(d),
    ensures
        fetch_run(fresh(), d, events.take(k)).0.transferred <= fetch_run(fresh(), d, events.take(
            l,
        )).0.transferred,
{
    let before = events.take(l);
    lemma_fetch_run_split(fresh(), d, before, k);
    assert(before.take(k) =~= events.take(k));
    lemma_fetch_run_consistent(fresh(), d, events.take(k));
    let (v1, d1) = fetch_run(fresh(), d, events.take(k));
    lemma_fetch_run_consistent(v1, d1, before.skip(k));
}

/// A download that succeeds reports, as its final count, the size of the file
/// it wrote.
pub proof fn lemma_final_count_is_file_size(events: Seq<FetchEvent>, d: FetchDisk)
    requires
        well_placed(d),
    ensures
        fetch_run(fresh(), d, events).0.phase matches FetchPhase::Finished(Ok(n)) ==> fetch_run(
            fresh(),
            d,
            events,
        ).1.file == Some(n as nat),
{
    lemma_fetch_run_consistent(fresh(), d, events);
}

/// Fetching into a directory that does not exist yet creates the directory,
/// with every missing ancestor, before the file: whatever comes of the
/// actions, a file that the download created stands in a directory that it
/// created first.
pub proof fn lemma_directory_before_file(events: Seq<FetchEvent>, d: FetchDisk)
    requires
        !d.dir,
        d.file is None,
    ensures
        well_placed(fetch_run(fresh(), d, events).1),
{
    lemma_fetch_run_consistent(fresh(), d, events);
}

/// A response whose status is not a success ends the download with that
/// status, before any directory or file is created.
pub proof fn lemma_bad_status_creates_nothing(events: Seq<FetchEvent>, d: FetchDisk)
    requires
        events.len() > 0,
        events[0] matches FetchEvent::Response { status, content_length } && !is_success(status),
    ensures
        fetch_run(fresh(), d, events) == (
        finished(fresh(), Err(FetchError::RemoteStatus(events[0]->status))),
        d,
        ),
    decreases events.len(),
{
    let v1 = fetch_next(fresh(), events[0]);
    assert(forall|w: FetchView, e: FetchEvent| w.phase is Finished ==> #[trigger] fetch_next(w, e) == w);
    lemma_finished_stays(v1, d, events.drop_first());
}

proof fn lemma_finished_stays(v: FetchView, d: FetchDisk, events: Seq<FetchEvent>)
    requires
        v.phase is Finished,
    ensures
        fetch_run(v, d, events) == (v, d),
    decreases events.len(),
{
    if events.len() > 0 {
        lemma_finished_stays(v, d, events.drop_first());
    }
}

/// The events of chunks of sizes `c`, in order.
pub open spec fn chunk_events(c: Seq<u64>) -> Seq<FetchEvent> {
    c.map_values(|n: u64| FetchEvent::Chunk(n))
}

/// The sum of the sizes `c`.
pub open spec fn total_of(c: Seq<u64>) -> nat
    decreases c.len(),
{
    if c.len() == 0 {
        0
    } else {
        total_of(c.drop_last()) + c.last() as nat
    }
}

/// The events of a download that goes well: the server answers with
/// `status` and the length `len`, the directory and the file are created,
/// the body comes in chunks of sizes `c`, then ends.
pub open spec fn success_events(status: u16, len: u64, c: Seq<u64>) -> Seq<FetchEvent> {
    seq![
        FetchEvent::Response { status, content_length: Some(len) },
        FetchEvent::Created,
        FetchEvent::Created,
    ] + chunk_events(c) + seq![FetchEvent::EndOfStream]
}

proof fn lemma_total_of_prefix(c: Seq<u64>, k: int)
    requires
        0 <= k <= c.len(),
    ensures
        total_of(c.take(k)) <= total_of(c),
    decreases c.len(),
{
    if k < c.len() {
        assert(c.take(k) =~= c.drop_last().take(k));
        lemma_total_of_prefix(c.drop_last(), k);
    } else {
        assert(c.take(k) =~= c);
    }
}

proof fn lemma_stream_chunks(v: FetchView, d: FetchDisk, c: Seq<u64>)
    requires
        v.phase is Streaming,
        d.file == Some(v.transferred as nat),
        v.transferred + total_of(c) <= u64::MAX,
    ensures
        fetch_run(v, d, chunk_events(c)) == (FetchView {
            transferred: (v.transferred + total_of(c)) as u64,
            ..v
        }, FetchDisk { file: Some((v.transferred + total_of(c)) as nat), ..d }),
    decreases c.len(),
{
    let e = chunk_events(c);
    if c.len() == 0 {
        assert(e.len() == 0);
    } else {
        let n = (c.len() - 1) as int;
        lemma_stream_chunks(v, d, c.drop_last());
        lemma_fetch_run_split(v, d, e, n);
        assert(e.take(n) =~= chunk_events(c.drop_last()));
        let last = e.skip(n);
        assert(last =~= seq![FetchEvent::Chunk(c.last())]);
        let (v1, d1) = fetch_run(v, d, chunk_events(c.drop_last()));
        assert(last.drop_first().len() == 0);
        assert(fetch_run(v1, d1, last) == fetch_run(
            fetch_next(v1, last[0]),
            fetch_effect(d1, v1.phase, last[0]),
            last.drop_first(),
        ));
    }
}

proof fn lemma_success_prefix(status: u16, len: u64, c: Seq<u64>, d: FetchDisk)
    requires
        is_success(status),
    ensures
        ({
            let (v, d3) = fetch_run(fresh(), d, success_events(status, len, c).take(3));
            &&& v == FetchView { phase: FetchPhase::Streaming, total: len, transferred: 0 }
            &&& d3 == FetchDisk { dir: true, file: Some(0) }
        }),
{
    let p = success_events(status, len, c).take(3);
    assert(p[0] == FetchEvent::Response { status, content_length: Some(len) });
    assert(p[1] == FetchEvent::Created);
    assert(p[2] == FetchEvent::Created);
    assert(p.drop_first().drop_first().drop_first().len() == 0);
    reveal_with_fuel(fetch_run, 4);
}

/// A download that goes well reports, after its first `k` chunks, the sum of
/// their sizes; it ends with the sum of all the chunk sizes as its count,
/// written to a file of that size, in a directory it created.
pub proof fn lemma_success_run(status: u16, len: u64, c: Seq<u64>, d: FetchDisk, k: int)
    requires
        is_success(status),
        total_of(c) <= u64::MAX,
        0 <= k <= c.len(),
    ensures
        fetch_run(fresh(), d, success_events(status, len, c).take(3 + k)).0.transferred == total_of(
            c.take(k),
        ),
        ({
            let (v, d2) = fetch_run(fresh(), d, success_events(status, len, c));
            &&& v.phase == FetchPhase::Finished(Ok(total_of(c) as u64))
            &&& d2.dir
            &&& d2.file == Some(total_of(c))
        }),
{
    let all = success_events(status, len, c);
    lemma_success_prefix(status, len, c, d);
    let v3 = FetchView { phase: FetchPhase::Streaming, total: len, transferred: 0 };
    let d3 = FetchDisk { dir: true, file: Some(0) };
    // after `k` chunks
    let some = all.take(3 + k);
    lemma_fetch_run_split(fresh(), d, some, 3);
    assert(some.take(3) =~= all.take(3));
    assert(some.skip(3) =~= chunk_events(c.take(k)));
    lemma_total_of_prefix(c, k);
    lemma_stream_chunks(v3, d3, c.take(k));
    // the whole download
    lemma_fetch_run_split(fresh(), d, all, 3);
    let rest = all.skip(3);
    lemma_fetch_run_split(v3, d3, rest, c.len() as int);
    assert(rest.take(c.len() as int) =~= chunk_events(c));
    lemma_stream_chunks(v3, d3, c);
    let tail = rest.skip(c.len() as int);
    assert(tail =~= seq![FetchEvent::EndOfStream]);
    assert(tail.drop_first().len() == 0);
    let (v4, d4) = fetch_run(v3, d3, chunk_events(c));
    assert(fetch_run(v4, d4, tail) == fetch_run(
        fetch_next(v4, tail[0]),
        fetch_effect(d4, v4.phase, tail[0]),
        tail.drop_first(),
    ));
}

/// One download, driven by the caller.
pub struct FetchSession {
    phase: FetchPhase,
    total: u64,
    transferred: u64,
    destination: String,
}

impl View for FetchSession {
    type V = FetchView;

    closed spec fn view(&self) -> FetchView {
        FetchView { phase: self.phase, total: self.total, transferred: self.transferred }
    }
}

impl FetchSession {
    /// The file that the download writes.
    pub closed spec fn dest(&self) -> Seq<char> {
        self.destination@
    }

    /// A session that downloads into the file `filename` of the directory
    /// `dir`; it first asks to send the request.
    pub fn new(dir: &str, filename: &str) -> (r: FetchSession)
        ensures
            r@ == fresh(),
            r.dest() == joined(dir@, filename@),
    {
        FetchSession {
            phase: FetchPhase::Requesting,
            total: 0,
            transferred: 0,
            destination: join_path(dir, filename),
        }
    }

    /// The file that the download writes.
    pub fn destination(&self) -> (r: &str)
        ensures
            r@ == self.dest(),
    {
        self.destination.as_str()
    }

    /// The action that the session asks for now.
    pub fn action(&self) -> (r: FetchAction)
        ensures
            fetch_asks(self@.phase, self.dest(), r),
    {
        match self.phase {
            FetchPhase::Requesting => FetchAction::SendRequest,
            FetchPhase::CreatingDir => FetchAction::CreateDir,
            FetchPhase::CreatingFile => FetchAction::CreateFile,
            FetchPhase::Streaming => FetchAction::ReadChunk,
            FetchPhase::Finished(Ok(n)) => FetchAction::Finish(
                Ok(FetchOutcome { bytes: n, path: self.destination.clone() }),
            ),
            FetchPhase::Finished(Err(e)) => FetchAction::Finish(Err(e)),
        }
    }

    /// Bytes written so far, and bytes declared.
    pub fn progress(&self) -> (r: FetchProgress)
        ensures
            r.bytes_transferred == self@.transferred,
            r.bytes_total == self@.total,
    {
        FetchProgress { bytes_transferred: self.transferred, bytes_total: self.total }
    }

    /// Takes in what came of the action last asked for. A byte count that
    /// would leave `u64` ends the download as an I/O failure.
    pub fn step(&mut self, e: FetchEvent)
        ensures
            final(self)@ == fetch_next(old(self)@, e),
            final(self).dest() == old(self).dest(),
            final(self)@.transferred >= old(self)@.transferred,
    {
        match self.phase {
            FetchPhase::Requesting => match e {
                FetchEvent::Response { status, content_length } => if !(200 <= status && status
                    <= 299) {
                    self.phase = FetchPhase::Finished(Err(FetchError::RemoteStatus(status)));
                } else {
                    match content_length {
                        Some(n) => {
                            self.phase = FetchPhase::CreatingDir;
                            self.total = n;
                        },
                        None => {
                            self.phase = FetchPhase::Finished(Err(FetchError::MissingLength));
                        },
                    }
                },
                _ => {
                    self.phase = FetchPhase::Finished(Err(FetchError::Network));
                },
            },
            FetchPhase::CreatingDir => if matches!(e, FetchEvent::Created) {
                self.phase = FetchPhase::CreatingFile;
            } else {
                self.phase = FetchPhase::Finished(Err(FetchError::Filesystem));
            },
            FetchPhase::CreatingFile => if matches!(e, FetchEvent::Created) {
                self.phase = FetchPhase::Streaming;
            } else {
                self.phase = FetchPhase::Finished(Err(FetchError::Filesystem));
            },
            FetchPhase::Streaming => match e {
                FetchEvent::Chunk(n) => {
                    if n <= u64::MAX - self.transferred {
                        self.transferred = self.transferred + n;
                    } else {
                        self.phase = FetchPhase::Finished(Err(FetchError::Io));
                    }
                },
                FetchEvent::EndOfStream => {
                    self.phase = FetchPhase::Finished(Ok(self.transferred));
                },
                _ => {
                    self.phase = FetchPhase::Finished(Err(FetchError::Io));
                },
            },
            FetchPhase::Finished(_) => {},
        }
    }
}

} // verus!
