//! The decisions of one download: probe for the declared size, skip a file
//! that already has that size, otherwise retrieve the body chunk by chunk and
//! report progress clamped to the declared size.
//!
//! The network and the file system stay with the caller: it performs each
//! `Action` and hands back the `Event` that came of it.
use vstd::prelude::*;

verus! {

/// The location of the source archive of identifier `id`.
pub open spec fn source_url_of(id: Seq<char>) -> Seq<char> {
    "https://export.arxiv.org/e-print/"@ + id
}

pub fn source_url(id: &str) -> (r: String)
    ensures
        r@ == source_url_of(id@),
{
    String::from_str("https://export.arxiv.org/e-print/").concat(id)
}

/// The value of the decimal digits `s`, most significant first.
pub open spec fn decimal_value(s: Seq<char>) -> nat
    decreases s.len(),
{
    if s.len() == 0 {
        0
    } else {
        10 * decimal_value(s.drop_last()) + ((s.last() as u32 - '0' as u32) as nat)
    }
}

pub open spec fn is_decimal(s: Seq<char>) -> bool {
    s.len() > 0 && forall|k: int| 0 <= k < s.len() ==> '0' <= #[trigger] s[k] && s[k] <= '9'
}

/// Reads a `content-length` value: one or more decimal digits whose value fits
/// in a `u64`; anything else is `None`.
pub fn parse_content_length(s: &str) -> (r: Option<u64>)
    ensures
        r == (if is_decimal(s@) && decimal_value(s@) <= u64::MAX {
            Some(decimal_value(s@) as u64)
        } else {
            None::<u64>
        }),
{
    let n = s.unicode_len();
    if n == 0 {
        return None;
    }
    let mut v: u64 = 0;
    let mut k: usize = 0;
    while k < n
        invariant
            k <= n == s@.len(),
            forall|m: int| 0 <= m < k ==> '0' <= #[trigger] s@[m] && s@[m] <= '9',
            v == decimal_value(s@.subrange(0, k as int)),
        decreases n - k,
    {
        let c = s.get_char(k);
        assert(s@.subrange(0, k + 1).drop_last() =~= s@.subrange(0, k as int));
        if c < '0' || c > '9' {
            return None;
        }
        let d = (c as u32 - '0' as u32) as u64;
        if v > (u64::MAX - d) / 10 {
            proof {
                lemma_decimal_value_prefix_bound(s@, k as int + 1);
            }
            return None;
        }
        v = 10 * v + d;
        k = k + 1;
    }
    assert(s@.subrange(0, n as int) =~= s@);
    Some(v)
}

/// A longer run of digits never has a smaller value.
proof fn lemma_decimal_value_prefix_bound(s: Seq<char>, k: int)
    requires
        0 < k <= s.len(),
        forall|m: int| 0 <= m < k ==> '0' <= #[trigger] s[m] && s[m] <= '9',
    ensures
        decimal_value(s.subrange(0, k)) <= decimal_value(s) || !is_decimal(s),
    decreases s.len() - k,
{
    if k < s.len() && is_decimal(s) {
        lemma_decimal_value_prefix_bound(s, k + 1);
        assert(s.subrange(0, k + 1).drop_last() =~= s.subrange(0, k));
    } else if k == s.len() {
        assert(s.subrange(0, k) =~= s);
    }
}

/// Why a fetch stopped; each carries the URL or the path concerned.
pub enum FetchError {
    /// The size probe could not be completed.
    ProbeFailed(String),
    /// The retrieval request, or the reading of its body, could not be
    /// completed.
    GetFailed(String),
    /// The destination file could not be created.
    FileCreateFailed(String),
    /// A chunk could not be written to the destination file.
    WriteFailed(String),
}

#[derive(Clone, Copy, PartialEq, Eq, Structural, Debug)]
pub enum Phase {
    /// Waiting for the size probe.
    Probe,
    /// Waiting for the retrieval response.
    Get,
    /// Waiting for the destination file to be created.
    Create,
    /// Receiving chunks.
    Stream,
    /// Finished with success.
    Done,
    /// Finished with an error.
    Failed,
}

/// What the caller observed after performing the last action.
pub enum Event {
    /// The probe answered; `content_length` is the declared size if one was
    /// given, `existing_size` the size of the file at the destination (zero if
    /// there is none).
    Probed { content_length: Option<u64>, existing_size: u64 },
    ProbeFailed,
    /// The retrieval request was answered and its body can be read.
    Received,
    /// The retrieval request, or the reading of a chunk of its body, failed.
    GetFailed,
    FileCreated,
    FileCreateFailed,
    /// A chunk of `len` bytes was written to the file in full.
    ChunkWritten { len: u64 },
    WriteFailed,
    /// The body has no more chunks.
    StreamEnded,
}

/// What the caller is to do next.
pub enum Action {
    /// The destination already has the declared size: finish with success
    /// without retrieving anything.
    AlreadyDownloaded,
    /// Send the retrieval request.
    SendGet,
    /// Create (or truncate) the destination file.
    CreateFile,
    /// Read the next chunk of the body and write it to the file.
    ReadChunk,
    /// Report this much progress, then read the next chunk.
    Progress(u64),
    /// The body was written: finish with success.
    Complete,
    /// Finish with this error.
    Fail(FetchError),
    /// The event does not belong to the current phase; nothing changed.
    Ignore,
}

/// The state of one download from `url` to `path`.
pub struct Fetch {
    pub url: String,
    pub path: String,
    /// The declared size; zero when none was declared.
    pub total: u64,
    /// The progress reported so far, clamped to `total`.
    pub downloaded: u64,
    /// The bytes written to the file so far (saturating).
    pub written: u64,
    pub phase: Phase,
}

/// The declared size, zero when the probe gave none.
pub open spec fn declared_total(content_length: Option<u64>) -> u64 {
    match content_length {
        Some(t) => t,
        None => 0,
    }
}

/// The file at the destination is taken as complete: a size was declared and
/// the file has exactly that size.
pub open spec fn is_complete(total: u64, existing_size: u64) -> bool {
    total > 0 && existing_size == total
}

/// Progress after a chunk of `len` bytes: the sum, clamped to `total`.
pub open spec fn clamped_progress(downloaded: u64, len: u64, total: u64) -> u64 {
    if downloaded + len <= total {
        (downloaded + len) as u64
    } else {
        total
    }
}

pub open spec fn saturating_sum(a: u64, b: u64) -> u64 {
    if a + b <= u64::MAX {
        (a + b) as u64
    } else {
        u64::MAX
    }
}

/// The state after `e` in state `f`, and the action that the caller takes next.
pub open spec fn next_state(f: Fetch, e: Event) -> (Fetch, Action) {
    match (f.phase, e) {
        (Phase::Probe, Event::Probed { content_length, existing_size }) => {
            let total = declared_total(content_length);
            if is_complete(total, existing_size) {
                (Fetch { total, phase: Phase::Done, ..f }, Action::AlreadyDownloaded)
            } else {
                (Fetch { total, phase: Phase::Get, ..f }, Action::SendGet)
            }
        },
        (Phase::Probe, Event::ProbeFailed) => (
            Fetch { phase: Phase::Failed, ..f },
            Action::Fail(FetchError::ProbeFailed(f.url)),
        ),
        (Phase::Get, Event::Received) => (Fetch { phase: Phase::Create, ..f }, Action::CreateFile),
        (Phase::Get, Event::GetFailed) => (
            Fetch { phase: Phase::Failed, ..f },
            Action::Fail(FetchError::GetFailed(f.url)),
        ),
        (Phase::Create, Event::FileCreated) => (
            Fetch { phase: Phase::Stream, ..f },
            Action::ReadChunk,
        ),
        (Phase::Create, Event::FileCreateFailed) => (
            Fetch { phase: Phase::Failed, ..f },
            Action::Fail(FetchError::FileCreateFailed(f.path)),
        ),
        (Phase::Stream, Event::ChunkWritten { len }) => {
            let p = clamped_progress(f.downloaded, len, f.total);
            (
                Fetch { downloaded: p, written: saturating_sum(f.written, len), ..f },
                Action::Progress(p),
            )
        },
        (Phase::Stream, Event::GetFailed) => (
            Fetch { phase: Phase::Failed, ..f },
            Action::Fail(FetchError::GetFailed(f.url)),
        ),
        (Phase::Stream, Event::WriteFailed) => (
            Fetch { phase: Phase::Failed, ..f },
            Action::Fail(FetchError::WriteFailed(f.path)),
        ),
        (Phase::Stream, Event::StreamEnded) => (Fetch { phase: Phase::Done, ..f }, Action::Complete),
        _ => (f, Action::Ignore),
    }
}

impl Fetch {
    /// Progress never passes the declared size, and nothing is counted before
    /// the file is being written.
    pub open spec fn wf(&self) -> bool {
        &&& self.downloaded <= self.total
        &&& (self.phase == Phase::Probe || self.phase == Phase::Get || self.phase == Phase::Create)
            ==> self.downloaded == 0 && self.written == 0
    }

    /// A download of `url` to `path` that has not started.
    pub fn new(url: String, path: String) -> (r: Fetch)
        ensures
            r.url == url,
            r.path == path,
            r.total == 0,
            r.downloaded == 0,
            r.written == 0,
            r.phase == Phase::Probe,
            r.wf(),
    {
        Fetch { url, path, total: 0, downloaded: 0, written: 0, phase: Phase::Probe }
    }

    /// Takes the event that came of the last action and says what to do next.
    pub fn step(&mut self, e: Event) -> (a: Action)
        requires
            old(self).wf(),
        ensures
            (*final(self), a) == next_state(*old(self), e),
            final(self).wf(),
    {
        match (self.phase, e) {
            (Phase::Probe, Event::Probed { content_length, existing_size }) => {
                let total = match content_length {
                    Some(t) => t,
                    None => 0,
                };
                self.total = total;
                if total > 0 && existing_size == total {
                    self.phase = Phase::Done;
                    Action::AlreadyDownloaded
                } else {
                    self.phase = Phase::Get;
                    Action::SendGet
                }
            },
            (Phase::Probe, Event::ProbeFailed) => {
                self.phase = Phase::Failed;
                Action::Fail(FetchError::ProbeFailed(self.url.clone()))
            },
            (Phase::Get, Event::Received) => {
                self.phase = Phase::Create;
                Action::CreateFile
            },
            (Phase::Get, Event::GetFailed) => {
                self.phase = Phase::Failed;
                Action::Fail(FetchError::GetFailed(self.url.clone()))
            },
            (Phase::Create, Event::FileCreated) => {
                self.phase = Phase::Stream;
                Action::ReadChunk
            },
            (Phase::Create, Event::FileCreateFailed) => {
                self.phase = Phase::Failed;
                Action::Fail(FetchError::FileCreateFailed(self.path.clone()))
            },
            (Phase::Stream, Event::ChunkWritten { len }) => {
                let p = if len <= self.total - self.downloaded {
                    self.downloaded + len
                } else {
                    self.total
                };
                self.downloaded = p;
                self.written = if len <= u64::MAX - self.written {
                    self.written + len
                } else {
                    u64::MAX
                };
                Action::Progress(p)
            },
            (Phase::Stream, Event::GetFailed) => {
                self.phase = Phase::Failed;
                Action::Fail(FetchError::GetFailed(self.url.clone()))
            },
            (Phase::Stream, Event::WriteFailed) => {
                self.phase = Phase::Failed;
                Action::Fail(FetchError::WriteFailed(self.path.clone()))
            },
            (Phase::Stream, Event::StreamEnded) => {
                self.phase = Phase::Done;
                Action::Complete
            },
            _ => Action::Ignore,
        }
    }
}

/// The states and actions that follow from `f` by the events `es`, in order:
/// the last state, and each action taken.
pub open spec fn run(f: Fetch, es: Seq<Event>) -> (Fetch, Seq<Action>)
    decreases es.len(),
{
    if es.len() == 0 {
        (f, Seq::empty())
    } else {
        let (g, a) = next_state(f, es[0]);
        let (h, rest) = run(g, es.subrange(1, es.len() as int));
        (h, seq![a] + rest)
    }
}

/// One event keeps a well-formed state well formed, and the progress it
/// reports is at most the declared size.
pub proof fn lemma_step_progress_bounded(f: Fetch, e: Event)
    requires
        f.wf(),
    ensures
        next_state(f, e).0.wf(),
        next_state(f, e).0.total == f.total || f.phase == Phase::Probe,
        next_state(f, e).1 matches Action::Progress(p) ==> p <= next_state(f, e).0.total,
{
}

/// Throughout a download, whatever the events, every progress reported is at
/// most the declared size, however many bytes the chunks held.
pub proof fn lemma_progress_never_exceeds_total(f: Fetch, es: Seq<Event>)
    requires
        f.wf(),
    ensures
        run(f, es).0.wf(),
        forall|k: int|
            0 <= k < run(f, es).1.len() ==> (#[trigger] run(f, es).1[k] matches Action::Progress(
                p,
            ) ==> p <= run(f, es).0.total),
    decreases es.len(),
{
    if es.len() > 0 {
        let (g, a) = next_state(f, es[0]);
        let rest = es.subrange(1, es.len() as int);
        lemma_step_progress_bounded(f, es[0]);
        lemma_progress_never_exceeds_total(g, rest);
        lemma_total_settled_after_probe(g, rest);
        let acts = run(f, es).1;
        assert forall|k: int| 0 <= k < acts.len() implies (#[trigger] acts[k] matches Action::Progress(
            p,
        ) ==> p <= run(f, es).0.total) by {
            if k > 0 {
                assert(acts[k] == run(g, rest).1[k - 1]);
            }
        }
    }
}

/// Once the probe has answered, the declared size no longer changes.
pub proof fn lemma_total_settled_after_probe(f: Fetch, es: Seq<Event>)
    ensures
        f.phase != Phase::Probe ==> run(f, es).0.total == f.total,
    decreases es.len(),
{
    if es.len() > 0 {
        let (g, a) = next_state(f, es[0]);
        lemma_total_settled_after_probe(g, es.subrange(1, es.len() as int));
    }
}

/// Without a declared size the destination is never taken as complete: the
/// probe always leads to a fresh retrieval.
pub proof fn lemma_no_declared_size_never_skips(f: Fetch, existing_size: u64)
    requires
        f.phase == Phase::Probe,
    ensures
        next_state(f, Event::Probed { content_length: None, existing_size }).1 == Action::SendGet,
        next_state(f, Event::Probed { content_length: None, existing_size }).0.phase == Phase::Get,
{
}

/// Fetching again after a download that wrote exactly the declared size, with
/// that size declared again, retrieves nothing: the second fetch finishes at
/// its probe.
pub proof fn lemma_refetch_is_skipped(first: Fetch, second: Fetch)
    requires
        first.phase == Phase::Done,
        first.total > 0,
        first.written == first.total,
        second.phase == Phase::Probe,
    ensures
        next_state(
            second,
            Event::Probed { content_length: Some(first.total), existing_size: first.written },
        ).1 == Action::AlreadyDownloaded,
        next_state(
            second,
            Event::Probed { content_length: Some(first.total), existing_size: first.written },
        ).0.phase == Phase::Done,
{
}

} // verus!
