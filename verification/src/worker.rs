//! The worker: the downloader of one contiguous byte range.
//!
//! A worker is a state machine. The embedding program performs the action
//! that a step returns (a request, a file operation, a message, a sleep) and
//! hands the outcome back as the next event.

use crate::decimal::{decimal_digits, decimal_text};
use vstd::prelude::*;
use vstd::string::*;

verus! {

/// Number of attempts after which a worker gives up.
pub const MAX_RETRIES: u8 = 5;

/// Where a worker stands between two steps.
#[derive(Debug, Clone, Copy, PartialEq, Eq, Structural)]
pub enum WorkerPhase {
    /// About to decide on the next attempt.
    Ready,
    /// A ranged GET is under way.
    Requesting,
    /// The response is a success; the output file is being opened.
    Opening,
    /// Waiting for the next chunk of the body.
    Streaming,
    /// A chunk of `len` bytes is being written.
    Writing { len: u64 },
    /// A progress message is being sent.
    Reporting,
    /// Backing off before the next attempt.
    Sleeping,
    /// The worker has returned.
    Finished,
}

/// What happened since the last step.
#[derive(Debug, Clone, Copy, PartialEq, Eq, Structural)]
pub enum WorkerEvent {
    /// The worker starts, or its sleep is over.
    Wake,
    /// The response arrived with this HTTP status.
    Response { status: u16 },
    /// The request failed before any response arrived.
    RequestFailed,
    /// The output file is open and positioned.
    FileReady,
    /// Opening, positioning or writing the output file failed.
    FileFailed,
    /// A chunk of `len` bytes arrived; `stop_at` is the shared stop boundary
    /// as read just now, if the worker has one.
    Chunk { len: u64, stop_at: Option<u64> },
    /// The body ended cleanly.
    EndOfBody,
    /// Reading the body failed.
    StreamFailed,
    /// The chunk is written.
    Written,
    /// The progress message is sent.
    Reported,
    /// The progress message could not be sent: the coordinator is gone.
    ReceiverGone,
}

/// What the embedding program has to do next.
#[derive(Debug, Clone, Copy, PartialEq, Eq, Structural)]
pub enum WorkerAction {
    /// Issue a GET for the bytes `first` to `last`, both included.
    Request { first: u64, last: u64 },
    /// Open the output file for writing, without truncation, at `offset`.
    OpenFile { offset: u64 },
    /// Read the next chunk of the body.
    ReadChunk,
    /// Write the chunk at the current file position.
    WriteChunk,
    /// Send a progress message for `bytes` bytes.
    ReportProgress { bytes: u64 },
    /// Send the message that the range is done, and return.
    ReportCompleted,
    /// Send the message that the worker failed, and return.
    ReportFailed,
    /// Sleep for `seconds`, then wake the worker.
    Sleep { seconds: u64 },
    /// Return without a message.
    Exit,
    /// The event does not belong to the phase: nothing is done.
    Nothing,
}

impl WorkerAction {
    /// The action ends the worker.
    pub open spec fn is_terminal(self) -> bool {
        self is ReportCompleted || self is ReportFailed || self is Exit
    }
}

/// Mathematical value of a [`Worker`].
pub struct WorkerView {
    pub id: u8,
    pub pos: u64,
    pub end: u64,
    pub retries: u8,
    pub phase: WorkerPhase,
}

/// Seconds to back off after `retries` failed attempts: one second at
/// first, doubled with each retry.
pub open spec fn backoff_seconds(retries: nat) -> nat
    decreases retries,
{
    if retries == 0 {
        1
    } else {
        2 * backoff_seconds((retries - 1) as nat)
    }
}

/// The status is a success (2xx).
pub open spec fn is_success(status: u16) -> bool {
    200 <= status <= 299
}

/// The status asks to try again later: 429 or 503.
pub open spec fn is_transient(status: u16) -> bool {
    status == 429 || status == 503
}

/// The decision at the start of an attempt: a range that is used up is
/// reported as done, a worker that is out of attempts fails, and any other
/// worker asks for what is left of its range.
pub open spec fn decide(w: WorkerView) -> (WorkerView, WorkerAction) {
    if w.pos > w.end {
        (WorkerView { phase: WorkerPhase::Finished, ..w }, WorkerAction::ReportCompleted)
    } else if w.retries >= MAX_RETRIES {
        (WorkerView { phase: WorkerPhase::Finished, ..w }, WorkerAction::ReportFailed)
    } else {
        (
            WorkerView { phase: WorkerPhase::Requesting, ..w },
            WorkerAction::Request { first: w.pos, last: w.end },
        )
    }
}

/// The reaction to a failure that may pass: sleep, with one more retry on
/// the count.
pub open spec fn back_off(w: WorkerView) -> (WorkerView, WorkerAction) {
    (
        WorkerView { phase: WorkerPhase::Sleeping, retries: (w.retries + 1) as u8, ..w },
        WorkerAction::Sleep { seconds: backoff_seconds(w.retries as nat) as u64 },
    )
}

/// The worker ends with `action`.
pub open spec fn end_with(w: WorkerView, action: WorkerAction) -> (WorkerView, WorkerAction) {
    (WorkerView { phase: WorkerPhase::Finished, ..w }, action)
}

/// The worker goes on in `phase` with `action`.
pub open spec fn go_on(w: WorkerView, phase: WorkerPhase, action: WorkerAction) -> (
    WorkerView,
    WorkerAction,
) {
    (WorkerView { phase, ..w }, action)
}

/// One step of the worker: the state after `event` and the action that is
/// due.
pub open spec fn step_of(w: WorkerView, event: WorkerEvent) -> (WorkerView, WorkerAction) {
    match (w.phase, event) {
        (WorkerPhase::Ready, WorkerEvent::Wake) => decide(w),
        (WorkerPhase::Sleeping, WorkerEvent::Wake) => decide(w),
        (WorkerPhase::Requesting, WorkerEvent::Response { status }) => if is_success(status) {
            go_on(w, WorkerPhase::Opening, WorkerAction::OpenFile { offset: w.pos })
        } else if is_transient(status) {
            back_off(w)
        } else {
            end_with(w, WorkerAction::ReportFailed)
        },
        (WorkerPhase::Requesting, WorkerEvent::RequestFailed) => back_off(w),
        (WorkerPhase::Opening, WorkerEvent::FileReady) => go_on(
            w,
            WorkerPhase::Streaming,
            WorkerAction::ReadChunk,
        ),
        (WorkerPhase::Opening, WorkerEvent::FileFailed) => end_with(w, WorkerAction::ReportFailed),
        (WorkerPhase::Streaming, WorkerEvent::Chunk { len, stop_at }) => if stop_at matches Some(
            boundary,
        ) && w.pos >= boundary {
            end_with(w, WorkerAction::ReportCompleted)
        } else {
            go_on(w, WorkerPhase::Writing { len }, WorkerAction::WriteChunk)
        },
        (WorkerPhase::Streaming, WorkerEvent::EndOfBody) => end_with(
            w,
            WorkerAction::ReportCompleted,
        ),
        (WorkerPhase::Streaming, WorkerEvent::StreamFailed) => back_off(w),
        (WorkerPhase::Writing { len }, WorkerEvent::Written) => (
            WorkerView { phase: WorkerPhase::Reporting, pos: (w.pos + len) as u64, ..w },
            WorkerAction::ReportProgress { bytes: len },
        ),
        (WorkerPhase::Writing { len }, WorkerEvent::FileFailed) => end_with(
            w,
            WorkerAction::ReportFailed,
        ),
        (WorkerPhase::Reporting, WorkerEvent::Reported) => go_on(
            w,
            WorkerPhase::Streaming,
            WorkerAction::ReadChunk,
        ),
        (WorkerPhase::Reporting, WorkerEvent::ReceiverGone) => end_with(w, WorkerAction::Exit),
        _ => (w, WorkerAction::Nothing),
    }
}

/// The value of the `Range` header that asks for the bytes `first` to
/// `last`.
pub open spec fn range_value(first: u64, last: u64) -> Seq<char> {
    "bytes="@ + decimal_digits(first as nat) + "-"@ + decimal_digits(last as nat)
}

/// The value of the `Range` header that asks for the bytes `first` to
/// `last`, both included.
pub fn range_header(first: u64, last: u64) -> (value: String)
    ensures
        value@ == range_value(first, last),
{
    let mut value = String::from_str("bytes=");
    let from = decimal_text(first);
    value.append(from.as_str());
    value.append("-");
    let to = decimal_text(last);
    value.append(to.as_str());
    value
}

/// Seconds to back off after `retries` failed attempts.
pub fn backoff(retries: u8) -> (seconds: u64)
    requires
        retries <= MAX_RETRIES,
    ensures
        seconds == backoff_seconds(retries as nat),
        seconds <= 32,
    decreases retries,
{
    proof {
        reveal_with_fuel(backoff_seconds, 7);
    }
    if retries == 0 {
        1
    } else {
        2 * backoff(retries - 1)
    }
}

/// The state of one worker.
#[derive(Debug, Clone, Copy)]
pub struct Worker {
    id: u8,
    pos: u64,
    end: u64,
    retries: u8,
    phase: WorkerPhase,
}

impl View for Worker {
    type V = WorkerView;

    closed spec fn view(&self) -> WorkerView {
        WorkerView {
            id: self.id,
            pos: self.pos,
            end: self.end,
            retries: self.retries,
            phase: self.phase,
        }
    }
}

impl Worker {
    #[verifier::type_invariant]
    spec fn sound(&self) -> bool {
        &&& self.retries <= MAX_RETRIES
        &&& self.phase matches WorkerPhase::Writing { len } ==> self.pos + len <= u64::MAX
        &&& self.phase is Ready || self.phase is Sleeping || self.phase is Finished
            || self.retries < MAX_RETRIES
    }

    /// A worker for the bytes `range.0` to `range.1`, both included, that has
    /// made no attempt yet.
    pub fn new(id: u8, range: (u64, u64)) -> (worker: Worker)
        ensures
            worker@ == (WorkerView {
                id,
                pos: range.0,
                end: range.1,
                retries: 0,
                phase: WorkerPhase::Ready,
            }),
    {
        Worker { id, pos: range.0, end: range.1, retries: 0, phase: WorkerPhase::Ready }
    }

    /// Id of the part that the worker fetches.
    pub fn id(&self) -> (id: u8)
        ensures
            id == self@.id,
    {
        self.id
    }

    /// Offset of the next byte that the worker writes.
    pub fn position(&self) -> (pos: u64)
        ensures
            pos == self@.pos,
    {
        self.pos
    }

    /// Last byte of the range that the worker was started with.
    pub fn end(&self) -> (end: u64)
        ensures
            end == self@.end,
    {
        self.end
    }

    /// Number of failed attempts so far.
    pub fn retries(&self) -> (retries: u8)
        ensures
            retries == self@.retries,
            retries <= MAX_RETRIES,
    {
        proof {
            use_type_invariant(self);
        }
        self.retries
    }

    /// Where the worker stands.
    pub fn phase(&self) -> (phase: WorkerPhase)
        ensures
            phase == self@.phase,
    {
        self.phase
    }

    /// Whether the worker has returned.
    pub fn is_finished(&self) -> (finished: bool)
        ensures
            finished == (self@.phase is Finished),
    {
        match self.phase {
            WorkerPhase::Finished => true,
            _ => false,
        }
    }

    /// The worker takes the event without running over the end of the
    /// offsets: a chunk that arrives while streaming fits behind the
    /// position.
    pub open spec fn accepts(&self, event: WorkerEvent) -> bool {
        self@.phase is Streaming ==> (event matches WorkerEvent::Chunk { len, .. } ==> self@.pos
            + len <= u64::MAX)
    }

    /// Whether the worker takes the event without running over the end of
    /// the offsets.
    pub fn can_accept(&self, event: WorkerEvent) -> (fits: bool)
        ensures
            fits == self.accepts(event),
    {
        match (self.phase, event) {
            (WorkerPhase::Streaming, WorkerEvent::Chunk { len, stop_at: _ }) => len <= u64::MAX
                - self.pos,
            _ => true,
        }
    }

    fn decide(&mut self) -> (action: WorkerAction)
        ensures
            (final(self)@, action) == decide(old(self)@),
    {
        proof {
            use_type_invariant(&*self);
        }
        if self.pos > self.end {
            self.phase = WorkerPhase::Finished;
            WorkerAction::ReportCompleted
        } else if self.retries >= MAX_RETRIES {
            self.phase = WorkerPhase::Finished;
            WorkerAction::ReportFailed
        } else {
            self.phase = WorkerPhase::Requesting;
            WorkerAction::Request { first: self.pos, last: self.end }
        }
    }

    fn back_off(&mut self) -> (action: WorkerAction)
        requires
            old(self)@.phase is Requesting || old(self)@.phase is Streaming,
        ensures
            (final(self)@, action) == back_off(old(self)@),
    {
        proof {
            use_type_invariant(&*self);
        }
        let seconds = backoff(self.retries);
        *self = Worker {
            id: self.id,
            pos: self.pos,
            end: self.end,
            retries: self.retries + 1,
            phase: WorkerPhase::Sleeping,
        };
        WorkerAction::Sleep { seconds }
    }

    fn end_with(&mut self, action: WorkerAction) -> (due: WorkerAction)
        ensures
            (final(self)@, due) == end_with(old(self)@, action),
    {
        proof {
            use_type_invariant(&*self);
        }
        self.phase = WorkerPhase::Finished;
        action
    }

    fn go_on(&mut self, phase: WorkerPhase, action: WorkerAction) -> (due: WorkerAction)
        requires
            old(self)@.retries < MAX_RETRIES,
            phase matches WorkerPhase::Writing { len } ==> old(self)@.pos + len <= u64::MAX,
        ensures
            (final(self)@, due) == go_on(old(self)@, phase, action),
    {
        self.phase = phase;
        action
    }

    /// Takes one step: the worker moves on as `event` demands, and the
    /// action that is due is returned.
    pub fn step(&mut self, event: WorkerEvent) -> (action: WorkerAction)
        requires
            old(self).accepts(event),
        ensures
            (final(self)@, action) == step_of(old(self)@, event),
    {
        proof {
            use_type_invariant(&*self);
        }
        match (self.phase, event) {
            (WorkerPhase::Ready, WorkerEvent::Wake) => self.decide(),
            (WorkerPhase::Sleeping, WorkerEvent::Wake) => self.decide(),
            (WorkerPhase::Requesting, WorkerEvent::Response { status }) => {
                if 200 <= status && status <= 299 {
                    let offset = self.pos;
                    self.go_on(WorkerPhase::Opening, WorkerAction::OpenFile { offset })
                } else if status == 429 || status == 503 {
                    self.back_off()
                } else {
                    self.end_with(WorkerAction::ReportFailed)
                }
            },
            (WorkerPhase::Requesting, WorkerEvent::RequestFailed) => self.back_off(),
            (WorkerPhase::Opening, WorkerEvent::FileReady) => self.go_on(
                WorkerPhase::Streaming,
                WorkerAction::ReadChunk,
            ),
            (WorkerPhase::Opening, WorkerEvent::FileFailed) => self.end_with(
                WorkerAction::ReportFailed,
            ),
            (WorkerPhase::Streaming, WorkerEvent::Chunk { len, stop_at }) => {
                let stopped = match stop_at {
                    Some(boundary) => self.pos >= boundary,
                    None => false,
                };
                if stopped {
                    self.end_with(WorkerAction::ReportCompleted)
                } else {
                    self.go_on(WorkerPhase::Writing { len }, WorkerAction::WriteChunk)
                }
            },
            (WorkerPhase::Streaming, WorkerEvent::EndOfBody) => self.end_with(
                WorkerAction::ReportCompleted,
            ),
            (WorkerPhase::Streaming, WorkerEvent::StreamFailed) => self.back_off(),
            (WorkerPhase::Writing { len }, WorkerEvent::Written) => {
                *self = Worker {
                    id: self.id,
                    pos: self.pos + len,
                    end: self.end,
                    retries: self.retries,
                    phase: WorkerPhase::Reporting,
                };
                WorkerAction::ReportProgress { bytes: len }
            },
            (WorkerPhase::Writing { len: _ }, WorkerEvent::FileFailed) => self.end_with(
                WorkerAction::ReportFailed,
            ),
            (WorkerPhase::Reporting, WorkerEvent::Reported) => self.go_on(
                WorkerPhase::Streaming,
                WorkerAction::ReadChunk,
            ),
            (WorkerPhase::Reporting, WorkerEvent::ReceiverGone) => self.end_with(
                WorkerAction::Exit,
            ),
            _ => WorkerAction::Nothing,
        }
    }
}

/// A worker that has returned stays as it is, whatever comes in.
pub proof fn lemma_finished_is_final(w: WorkerView, event: WorkerEvent)
    requires
        w.phase is Finished,
    ensures
        step_of(w, event) == (w, WorkerAction::Nothing),
{
}

/// A worker returns with exactly the step that yields a terminal action:
/// such a step ends in the finished phase, and no other step does.
pub proof fn lemma_terminal_action_ends_worker(w: WorkerView, event: WorkerEvent)
    ensures
        step_of(w, event).1.is_terminal() <==> (!(w.phase is Finished) && step_of(
            w,
            event,
        ).0.phase is Finished),
{
}

/// A step never moves the position back, and leaves the id and the end of
/// the range alone.
pub proof fn lemma_position_never_falls(w: WorkerView, event: WorkerEvent)
    requires
        w.phase matches WorkerPhase::Writing { len } ==> w.pos + len <= u64::MAX,
    ensures
        step_of(w, event).0.pos >= w.pos,
        step_of(w, event).0.id == w.id,
        step_of(w, event).0.end == w.end,
        step_of(w, event).0.retries >= w.retries || w.retries == u8::MAX,
{
}

/// A request goes out only while fewer than [`MAX_RETRIES`] attempts have
/// failed, and it asks for what is left of the range.
pub proof fn lemma_request_is_bounded(w: WorkerView, event: WorkerEvent)
    ensures
        step_of(w, event).1 matches WorkerAction::Request { first, last } ==> {
            &&& w.retries < MAX_RETRIES
            &&& first == w.pos
            &&& last == w.end
            &&& first <= last
        },
{
}

} // verus!
