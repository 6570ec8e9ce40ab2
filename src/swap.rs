//! The decisions of a patch on disk: read the file, write the patched text to
//! a temporary sibling, rename that sibling over the file, and remove it
//! again when anything fails on the way.
//!
//! The caller performs each action that a [`PatchSession`] asks for and hands
//! back what came of it. The rename is the only action that touches the file
//! itself, so a patch that fails leaves the file as it was.

use vstd::prelude::*;
use crate::patch::{patch_text, patched};

verus! {

/// Why a patch failed.
#[derive(Clone, Copy, Debug, PartialEq, Eq, Structural)]
pub enum PatchError {
    /// The file to patch does not exist.
    FileNotFound,
    /// Reading the file, or writing or flushing the temporary file, failed.
    Io,
    /// Renaming the temporary file over the file failed.
    RenameFailed,
}

/// How a patch that did not fail ended.
#[derive(Clone, Copy, Debug, PartialEq, Eq, Structural)]
pub enum PatchOutcome {
    /// The first line that defines the key now holds the new value.
    Patched,
    /// No line defines the key; the file was not touched.
    KeyNotFound,
}

/// What the caller is asked to do next.
#[derive(Debug)]
pub enum SwapAction {
    /// Read the whole file.
    ReadOriginal,
    /// Create the temporary sibling, write this text to it, flush and close it.
    WriteTemp(String),
    /// Rename the temporary sibling over the file.
    RenameTemp,
    /// Remove the temporary sibling.
    RemoveTemp,
    /// The patch is over, with this result.
    Finish(Result<PatchOutcome, PatchError>),
}

/// What came of the action last asked for.
#[derive(Debug)]
pub enum SwapEvent {
    /// The file was read and holds this text.
    ReadOk(String),
    /// The file does not exist.
    NotFound,
    /// The action failed.
    Failed,
    /// The action succeeded.
    Succeeded,
}

/// Where a session stands, as the contracts see it.
pub enum PhaseView {
    Reading,
    Writing(Seq<char>),
    Renaming,
    Cleaning(PatchError),
    Finished(Result<PatchOutcome, PatchError>),
}

/// Where a session stands.
enum Phase {
    Reading,
    Writing(String),
    Renaming,
    Cleaning(PatchError),
    Finished(Result<PatchOutcome, PatchError>),
}

impl View for Phase {
    type V = PhaseView;

    closed spec fn view(&self) -> PhaseView {
        match self {
            Phase::Reading => PhaseView::Reading,
            Phase::Writing(s) => PhaseView::Writing(s@),
            Phase::Renaming => PhaseView::Renaming,
            Phase::Cleaning(e) => PhaseView::Cleaning(*e),
            Phase::Finished(r) => PhaseView::Finished(*r),
        }
    }
}

/// The phase that follows `p` once the caller reports `e`.
pub open spec fn next_phase(key: Seq<char>, value: Seq<char>, p: PhaseView, e: SwapEvent) -> PhaseView {
    match p {
        PhaseView::Reading => match e {
            SwapEvent::ReadOk(t) => match patched(t@, key, value) {
                Some(n) => PhaseView::Writing(n),
                None => PhaseView::Finished(Ok(PatchOutcome::KeyNotFound)),
            },
            SwapEvent::NotFound => PhaseView::Finished(Err(PatchError::FileNotFound)),
            _ => PhaseView::Finished(Err(PatchError::Io)),
        },
        PhaseView::Writing(_) => if e is Succeeded {
            PhaseView::Renaming
        } else {
            PhaseView::Cleaning(PatchError::Io)
        },
        PhaseView::Renaming => if e is Succeeded {
            PhaseView::Finished(Ok(PatchOutcome::Patched))
        } else {
            PhaseView::Cleaning(PatchError::RenameFailed)
        },
        PhaseView::Cleaning(err) => PhaseView::Finished(Err(err)),
        PhaseView::Finished(r) => PhaseView::Finished(r),
    }
}

/// Whether `a` is the action that phase `p` asks for.
pub open spec fn asks_for(p: PhaseView, a: SwapAction) -> bool {
    match p {
        PhaseView::Reading => a is ReadOriginal,
        PhaseView::Writing(n) => a matches SwapAction::WriteTemp(s) && s@ == n,
        PhaseView::Renaming => a is RenameTemp,
        PhaseView::Cleaning(_) => a is RemoveTemp,
        PhaseView::Finished(r) => a matches SwapAction::Finish(q) && q == r,
    }
}

/// The temporary sibling of the file, as far as a patch can tell.
pub enum TempFile {
    /// There is none.
    Absent,
    /// A write to it failed: it may be there, with incomplete content.
    Partial,
    /// It holds this complete text.
    Complete(Seq<char>),
}

/// The two files that a patch involves: the text of the file, and its
/// temporary sibling.
pub struct Disk {
    pub original: Seq<char>,
    pub temp: TempFile,
}

/// What the action that phase `p` asks for does to the files, given what came
/// of it. Only a rename that succeeded changes the file.
pub open spec fn effect(d: Disk, p: PhaseView, e: SwapEvent) -> Disk {
    match p {
        PhaseView::Writing(n) => Disk {
            original: d.original,
            temp: if e is Succeeded {
                TempFile::Complete(n)
            } else {
                TempFile::Partial
            },
        },
        PhaseView::Renaming => match d.temp {
            TempFile::Complete(t) => if e is Succeeded {
                Disk { original: t, temp: TempFile::Absent }
            } else {
                d
            },
            _ => d,
        },
        PhaseView::Cleaning(_) => if e is Succeeded {
            Disk { original: d.original, temp: TempFile::Absent }
        } else {
            d
        },
        _ => d,
    }
}

/// The phase and the files once the caller has reported `events` in turn,
/// starting in phase `p` with files `d`.
pub open spec fn run(
    key: Seq<char>,
    value: Seq<char>,
    p: PhaseView,
    d: Disk,
    events: Seq<SwapEvent>,
) -> (PhaseView, Disk)
    decreases events.len(),
{
    if events.len() == 0 {
        (p, d)
    } else {
        run(
            key,
            value,
            next_phase(key, value, p, events[0]),
            effect(d, p, events[0]),
            events.drop_first(),
        )
    }
}

/// Whether every read in `events` reports the text `o`.
pub open spec fn reads_as(events: Seq<SwapEvent>, o: Seq<char>) -> bool {
    forall|k: int| 0 <= k < events.len() ==> (#[trigger] events[k] matches SwapEvent::ReadOk(t) ==> t@ == o)
}

/// How the files stand in each phase of a patch of the text `o`.
spec fn consistent(key: Seq<char>, value: Seq<char>, o: Seq<char>, p: PhaseView, d: Disk) -> bool {
    match p {
        PhaseView::Writing(n) => d.original == o && patched(o, key, value) == Some(n),
        PhaseView::Renaming => d.original == o && d.temp is Complete && patched(o, key, value) == Some(
            d.temp->Complete_0,
        ),
        PhaseView::Finished(Ok(PatchOutcome::Patched)) => patched(o, key, value) == Some(d.original),
        _ => d.original == o,
    }
}

proof fn lemma_run_consistent(
    key: Seq<char>,
    value: Seq<char>,
    o: Seq<char>,
    p: PhaseView,
    d: Disk,
    events: Seq<SwapEvent>,
)
    requires
        consistent(key, value, o, p, d),
        reads_as(events, o),
    ensures
        consistent(key, value, o, run(key, value, p, d, events).0, run(key, value, p, d, events).1),
    decreases events.len(),
{
    if events.len() > 0 {
        let e = events[0];
        let rest = events.drop_first();
        assert forall|k: int| 0 <= k < rest.len() implies (#[trigger] rest[k] matches SwapEvent::ReadOk(
            t,
        ) ==> t@ == o) by {
            assert(rest[k] == events[k + 1]);
        }
        lemma_run_consistent(key, value, o, next_phase(key, value, p, e), effect(d, p, e), rest);
    }
}

/// A patch never leaves the file half-written. From a fresh session, whatever
/// comes of the actions it asks for, the file keeps its text until the rename
/// succeeds and holds the patched text from then on: a failure at any point
/// before the rename, or a key that no line defines, leaves it as it was.
pub proof fn lemma_patch_is_atomic(key: Seq<char>, value: Seq<char>, d: Disk, events: Seq<SwapEvent>)
    requires
        reads_as(events, d.original),
    ensures
        ({
            let (p, d2) = run(key, value, PhaseView::Reading, d, events);
            &&& p != PhaseView::Finished(Ok(PatchOutcome::Patched)) ==> d2.original == d.original
            &&& p == PhaseView::Finished(Ok(PatchOutcome::Patched)) ==> patched(d.original, key, value)
                == Some(d2.original)
        }),
{
    lemma_run_consistent(key, value, d.original, PhaseView::Reading, d, events);
}

/// Whether, in `events` reported from phase `p` on, every removal of the
/// temporary sibling succeeded.
pub open spec fn removals_succeed(
    key: Seq<char>,
    value: Seq<char>,
    p: PhaseView,
    events: Seq<SwapEvent>,
) -> bool
    decreases events.len(),
{
    events.len() == 0 || ((p is Cleaning ==> events[0] is Succeeded) && removals_succeed(
        key,
        value,
        next_phase(key, value, p, events[0]),
        events.drop_first(),
    ))
}

/// Where the temporary sibling stands in each phase.
spec fn temp_consistent(p: PhaseView, d: Disk) -> bool {
    match p {
        PhaseView::Reading => d.temp is Absent,
        PhaseView::Writing(_) => d.temp is Absent,
        PhaseView::Renaming => d.temp is Complete,
        PhaseView::Cleaning(_) => true,
        PhaseView::Finished(_) => d.temp is Absent,
    }
}

proof fn lemma_run_temp(key: Seq<char>, value: Seq<char>, p: PhaseView, d: Disk, events: Seq<SwapEvent>)
    requires
        temp_consistent(p, d),
        removals_succeed(key, value, p, events),
    ensures
        temp_consistent(run(key, value, p, d, events).0, run(key, value, p, d, events).1),
    decreases events.len(),
{
    if events.len() > 0 {
        lemma_run_temp(key, value, next_phase(key, value, p, events[0]), effect(d, p, events[0]), events.drop_first());
    }
}

/// The temporary sibling does not outlive a patch: from a fresh session with
/// no sibling, once the session is over the sibling is gone (renamed over the
/// file, or removed), provided that every removal it asked for succeeded.
pub proof fn lemma_temp_is_gone(key: Seq<char>, value: Seq<char>, d: Disk, events: Seq<SwapEvent>)
    requires
        d.temp is Absent,
        removals_succeed(key, value, PhaseView::Reading, events),
    ensures
        run(key, value, PhaseView::Reading, d, events).0 is Finished ==> run(
            key,
            value,
            PhaseView::Reading,
            d,
            events,
        ).1.temp is Absent,
{
    lemma_run_temp(key, value, PhaseView::Reading, d, events);
}

/// The name of the temporary sibling of the file at `path`: the same name
/// with `.tmp` added, in the same directory and never the file itself.
pub fn temp_path_for(path: &str) -> (r: String)
    ensures
        r@ == path@ + ".tmp"@,
        r@ != path@,
{
    let mut r = path.to_owned();
    r.append(".tmp");
    proof {
        reveal_strlit(".tmp");
        assert(r@.len() == path@.len() + 4);
    }
    r
}

/// A session's key, value and phase.
pub struct SessionView {
    pub key: Seq<char>,
    pub value: Seq<char>,
    pub phase: PhaseView,
}

/// One patch of one file, driven by the caller.
pub struct PatchSession {
    key: String,
    value: String,
    phase: Phase,
}

impl View for PatchSession {
    type V = SessionView;

    closed spec fn view(&self) -> SessionView {
        SessionView { key: self.key@, value: self.value@, phase: self.phase@ }
    }
}

impl PatchSession {
    /// A session that sets `key` to `value`; it first asks to read the file.
    pub fn new(key: &str, value: &str) -> (r: PatchSession)
        ensures
            r@ == (SessionView { key: key@, value: value@, phase: PhaseView::Reading }),
    {
        PatchSession { key: key.to_owned(), value: value.to_owned(), phase: Phase::Reading }
    }

    /// The action that the session asks for now.
    pub fn action(&self) -> (r: SwapAction)
        ensures
            asks_for(self@.phase, r),
    {
        match &self.phase {
            Phase::Reading => SwapAction::ReadOriginal,
            Phase::Writing(s) => SwapAction::WriteTemp(s.clone()),
            Phase::Renaming => SwapAction::RenameTemp,
            Phase::Cleaning(_) => SwapAction::RemoveTemp,
            Phase::Finished(r) => SwapAction::Finish(*r),
        }
    }

    /// Whether the session is over.
    pub fn is_finished(&self) -> (r: bool)
        ensures
            r == self@.phase is Finished,
    {
        matches!(self.phase, Phase::Finished(_))
    }

    /// Takes in what came of the action last asked for.
    pub fn step(&mut self, e: SwapEvent)
        ensures
            final(self)@.key == old(self)@.key,
            final(self)@.value == old(self)@.value,
            final(self)@.phase == next_phase(old(self)@.key, old(self)@.value, old(self)@.phase, e),
    {
        let ghost e0 = e;
        let p = match &self.phase {
            Phase::Reading => match e {
                SwapEvent::ReadOk(t) => match patch_text(t.as_str(), self.key.as_str(), self.value.as_str()) {
                    Some(n) => Phase::Writing(n),
                    None => Phase::Finished(Ok(PatchOutcome::KeyNotFound)),
                },
                SwapEvent::NotFound => Phase::Finished(Err(PatchError::FileNotFound)),
                _ => Phase::Finished(Err(PatchError::Io)),
            },
            Phase::Writing(_) => if matches!(e, SwapEvent::Succeeded) {
                Phase::Renaming
            } else {
                Phase::Cleaning(PatchError::Io)
            },
            Phase::Renaming => if matches!(e, SwapEvent::Succeeded) {
                Phase::Finished(Ok(PatchOutcome::Patched))
            } else {
                Phase::Cleaning(PatchError::RenameFailed)
            },
            Phase::Cleaning(err) => Phase::Finished(Err(*err)),
            Phase::Finished(r) => Phase::Finished(*r),
        };
        self.phase = p;
    }
}

} // verus!
