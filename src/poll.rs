//! Following one conversion job through its status snapshots.

use vstd::prelude::*;

use crate::model::StatusResponse;
use crate::text::str_eq;

verus! {

/// Where a conversion job stands after a status snapshot.
#[derive(Clone, Copy, Debug, PartialEq, Eq, Structural)]
pub enum JobStatus {
    Pending,
    Completed,
    Failed,
    TimedOut,
}

/// "completed" and "error" are terminal; any other status is still pending.
pub open spec fn classify(status: Seq<char>) -> JobStatus {
    if status == "completed"@ {
        JobStatus::Completed
    } else if status == "error"@ {
        JobStatus::Failed
    } else {
        JobStatus::Pending
    }
}

pub fn classify_status(status: &str) -> (r: JobStatus)
    ensures
        r == classify(status@),
{
    if str_eq(status, "completed") {
        JobStatus::Completed
    } else if str_eq(status, "error") {
        JobStatus::Failed
    } else {
        JobStatus::Pending
    }
}

/// The longest wait, in whole seconds, since the first snapshot.
pub const TIMEOUT_SECS: i64 = 60;

/// Seconds to sleep between two status queries.
pub const POLL_INTERVAL_SECS: u64 = 1;

/// More than `TIMEOUT_SECS` whole seconds lie between the two instants.
pub open spec fn timed_out(started_ms: int, now_ms: int) -> bool {
    now_ms - started_ms >= (TIMEOUT_SECS + 1) * 1000
}

/// The message emitted when a job runs out of time.
pub open spec fn timeout_message() -> Seq<char> {
    "Processing timeout, retrying..."@
}

/// The text of each message.
pub open spec fn texts(v: Seq<String>) -> Seq<Seq<char>> {
    v.map_values(|s: String| s@)
}

/// What one snapshot yields: messages to emit, in order, and the job's standing.
#[derive(Debug)]
pub struct PollStep {
    pub messages: Vec<String>,
    pub status: JobStatus,
}

/// Tracks one job between status snapshots.
#[derive(Debug)]
pub struct StatusPoller {
    /// The message of the latest snapshot, which is also the latest emitted.
    pub last_message: String,
    /// When the first snapshot arrived, in milliseconds.
    pub started_ms: i64,
}

/// Messages for a later snapshot: its message if it changed, then the timeout
/// notice if time is up.
pub open spec fn observed_messages(
    last: Seq<char>,
    started_ms: int,
    message: Seq<char>,
    now_ms: int,
) -> Seq<Seq<char>> {
    (if message != last {
        seq![message]
    } else {
        Seq::empty()
    }) + (if timed_out(started_ms, now_ms) {
        seq![timeout_message()]
    } else {
        Seq::empty()
    })
}

/// A later snapshot's standing: timed out once time is up, whatever it says.
pub open spec fn observed_status(started_ms: int, status: Seq<char>, now_ms: int) -> JobStatus {
    if timed_out(started_ms, now_ms) {
        JobStatus::TimedOut
    } else {
        classify(status)
    }
}

/// Messages of a snapshot, the first one (no poller yet) or a later one.
pub open spec fn poll_messages(
    poller: Option<StatusPoller>,
    response: StatusResponse,
    now_ms: int,
) -> Seq<Seq<char>> {
    match poller {
        None => seq![response.message@],
        Some(p) => observed_messages(p.last_message@, p.started_ms as int, response.message@, now_ms),
    }
}

/// Standing of a job after a snapshot; the first one is never timed out.
pub open spec fn poll_status(
    poller: Option<StatusPoller>,
    response: StatusResponse,
    now_ms: int,
) -> JobStatus {
    match poller {
        None => classify(response.status@),
        Some(p) => observed_status(p.started_ms as int, response.status@, now_ms),
    }
}

/// The start time: that of the first snapshot.
pub open spec fn poll_started(poller: Option<StatusPoller>, now_ms: i64) -> i64 {
    match poller {
        None => now_ms,
        Some(p) => p.started_ms,
    }
}

impl StatusPoller {
    /// Takes the first snapshot of a job: its message is always emitted.
    pub fn start(first: &StatusResponse, now_ms: i64) -> (r: (StatusPoller, PollStep))
        ensures
            r.0.last_message@ == first.message@,
            r.0.started_ms == now_ms,
            texts(r.1.messages@) == seq![first.message@],
            r.1.status == classify(first.status@),
    {
        let mut messages: Vec<String> = Vec::new();
        messages.push(first.message.clone());
        assert(texts(messages@) =~= seq![first.message@]);
        let status = classify_status(first.status.as_str());
        (StatusPoller { last_message: first.message.clone(), started_ms: now_ms }, PollStep {
            messages,
            status,
        })
    }

    /// Takes a later snapshot of the same job.
    pub fn observe(&mut self, snapshot: &StatusResponse, now_ms: i64) -> (r: PollStep)
        ensures
            final(self).last_message@ == snapshot.message@,
            final(self).started_ms == old(self).started_ms,
            texts(r.messages@) == observed_messages(
                old(self).last_message@,
                old(self).started_ms as int,
                snapshot.message@,
                now_ms as int,
            ),
            r.status == observed_status(old(self).started_ms as int, snapshot.status@, now_ms as int),
    {
        let mut messages: Vec<String> = Vec::new();
        let changed = self.last_message != snapshot.message;
        if changed {
            messages.push(snapshot.message.clone());
            self.last_message = snapshot.message.clone();
        }
        let late = (now_ms as i128) - (self.started_ms as i128) >= ((TIMEOUT_SECS + 1) * 1000) as i128;
        if late {
            messages.push("Processing timeout, retrying...".to_owned());
        }
        assert(texts(messages@) =~= observed_messages(
            old(self).last_message@,
            old(self).started_ms as int,
            snapshot.message@,
            now_ms as int,
        ));
        let status = if late {
            JobStatus::TimedOut
        } else {
            classify_status(snapshot.status.as_str())
        };
        PollStep { messages, status }
    }

    /// Takes a snapshot: the first of a job when `poller` is `None`.
    pub fn step(poller: &Option<StatusPoller>, response: &StatusResponse, now_ms: i64) -> (r: (
        StatusPoller,
        PollStep,
    ))
        ensures
            r.0.last_message@ == response.message@,
            r.0.started_ms == poll_started(*poller, now_ms),
            texts(r.1.messages@) == poll_messages(*poller, *response, now_ms as int),
            r.1.status == poll_status(*poller, *response, now_ms as int),
    {
        match poller {
            None => StatusPoller::start(response, now_ms),
            Some(p) => {
                let mut q = StatusPoller { last_message: p.last_message.clone(), started_ms: p.started_ms };
                let s = q.observe(response, now_ms);
                (q, s)
            },
        }
    }
}

/// Standing of a pending job over later snapshots taken at `times`, from the
/// `j`-th on, until the first that is not pending.
pub open spec fn pending_run(started_ms: int, status: Seq<char>, times: Seq<int>, j: int) -> JobStatus
    decreases times.len() - j,
{
    if j < 0 || j >= times.len() {
        JobStatus::Pending
    } else if observed_status(started_ms, status, times[j]) != JobStatus::Pending {
        observed_status(started_ms, status, times[j])
    } else {
        pending_run(started_ms, status, times, j + 1)
    }
}

proof fn lemma_pending_run_from(started_ms: int, status: Seq<char>, times: Seq<int>, j: int)
    requires
        classify(status) == JobStatus::Pending,
        0 <= j <= TIMEOUT_SECS < times.len(),
        forall|i: int| 0 <= i < times.len() ==> #[trigger] times[i] >= started_ms + 1000 * (i + 1),
    ensures
        pending_run(started_ms, status, times, j) == JobStatus::TimedOut,
    decreases TIMEOUT_SECS - j,
{
    assert(times[j] >= started_ms + 1000 * (j + 1));
    if observed_status(started_ms, status, times[j]) == JobStatus::Pending {
        lemma_pending_run_from(started_ms, status, times, j + 1);
    }
}

/// A job that stays pending, queried at least one interval apart, is reported
/// timed out by the sixty-first later snapshot at the latest; no snapshot
/// within sixty whole seconds of the first is.
pub proof fn lemma_pending_times_out(started_ms: int, status: Seq<char>, times: Seq<int>)
    requires
        classify(status) == JobStatus::Pending,
        times.len() > TIMEOUT_SECS,
        forall|i: int| 0 <= i < times.len() ==> #[trigger] times[i] >= started_ms + 1000 * (i + 1),
    ensures
        pending_run(started_ms, status, times, 0) == JobStatus::TimedOut,
        forall|now_ms: int|
            now_ms - started_ms < (TIMEOUT_SECS + 1) * 1000 ==> #[trigger] observed_status(
                started_ms,
                status,
                now_ms,
            ) == JobStatus::Pending,
{
    lemma_pending_run_from(started_ms, status, times, 0);
}

/// Messages emitted over later snapshots carrying `msgs`, none timed out, when
/// the latest message so far is `last`.
pub open spec fn emitted(last: Seq<char>, msgs: Seq<Seq<char>>) -> Seq<Seq<char>>
    decreases msgs.len(),
{
    if msgs.len() == 0 {
        Seq::empty()
    } else {
        observed_messages(last, 0, msgs[0], 0) + emitted(msgs[0], msgs.drop_first())
    }
}

/// Repeated messages collapse: no emitted message equals the one before it, the
/// first differs from the latest one already seen, and each was observed.
pub proof fn lemma_emitted_collapses(last: Seq<char>, msgs: Seq<Seq<char>>)
    ensures
        forall|i: int|
            0 <= i < emitted(last, msgs).len() - 1 ==> #[trigger] emitted(last, msgs)[i] != emitted(
                last,
                msgs,
            )[i + 1],
        emitted(last, msgs).len() > 0 ==> emitted(last, msgs)[0] != last,
        forall|i: int| 0 <= i < emitted(last, msgs).len() ==> msgs.contains(#[trigger] emitted(last, msgs)[i]),
        emitted(last, msgs).len() <= msgs.len(),
    decreases msgs.len(),
{
    if msgs.len() > 0 {
        let rest = msgs.drop_first();
        lemma_emitted_collapses(msgs[0], rest);
        let e = emitted(last, msgs);
        let tail = emitted(msgs[0], rest);
        let head = observed_messages(last, 0, msgs[0], 0);
        assert(e == head + tail);
        assert(!timed_out(0, 0));
        if msgs[0] != last {
            assert(head =~= seq![msgs[0]]);
        } else {
            assert(head =~= Seq::<Seq<char>>::empty());
        }
        assert forall|i: int| 0 <= i < e.len() implies msgs.contains(#[trigger] e[i]) by {
            if i >= head.len() {
                let w = choose|w: int| 0 <= w < rest.len() && rest[w] == tail[i - head.len()];
                assert(msgs[w + 1] == rest[w]);
            } else {
                assert(msgs[0] == e[i]);
            }
        }
        assert forall|i: int| 0 <= i < e.len() - 1 implies #[trigger] e[i] != e[i + 1] by {
            if i >= head.len() {
                assert(e[i] == tail[i - head.len()]);
                assert(e[i + 1] == tail[i + 1 - head.len()]);
            }
        }
    }
}

} // verus!
