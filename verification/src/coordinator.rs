//! The coordinator: owner of the session while a download runs.
//!
//! The embedding program spawns the workers, waits for their messages and
//! performs what the coordinator decides. The coordinator itself never blocks
//! and touches neither network nor disk: it maps a message and a clock
//! reading to the next session state and to the actions that are due.

use crate::session::{
    held, valid_parts, DownloadPart, DownloadSession, DownloadState, SessionView, StateView,
};
use crate::decimal::{decimal_digits, decimal_text};
use vstd::prelude::*;
use vstd::string::*;

verus! {

/// A live part is split only while more than this many bytes separate its
/// next byte from its last one (5 MiB).
pub const STEAL_THRESHOLD: u64 = 5_242_880;

/// Least time between two progress events that are not completions.
pub const FORWARD_INTERVAL_MS: u64 = 50;

/// Least time between two periodic snapshots of the session.
pub const SAVE_INTERVAL_MS: u64 = 1_000;

/// Status carried by a worker message.
#[derive(Debug, Clone, Copy, PartialEq, Eq, Structural)]
pub enum WorkerStatus {
    Progress,
    Completed,
    Failed,
}

impl WorkerStatus {
    /// Status code on the progress channel.
    pub open spec fn code_of(self) -> u8 {
        match self {
            WorkerStatus::Progress => 0,
            WorkerStatus::Completed => 1,
            WorkerStatus::Failed => 2,
        }
    }

    /// Status code on the progress channel: 0, 1 or 2.
    pub fn code(self) -> (code: u8)
        ensures
            code == self.code_of(),
    {
        match self {
            WorkerStatus::Progress => 0,
            WorkerStatus::Completed => 1,
            WorkerStatus::Failed => 2,
        }
    }

    /// The status that a code stands for, if any.
    pub fn from_code(code: u8) -> (status: Option<WorkerStatus>)
        ensures
            match status {
                Some(s) => s.code_of() == code,
                None => code > 2,
            },
    {
        if code == 0 {
            Some(WorkerStatus::Progress)
        } else if code == 1 {
            Some(WorkerStatus::Completed)
        } else if code == 2 {
            Some(WorkerStatus::Failed)
        } else {
            None
        }
    }
}

/// A throttled progress report for the observer.
#[derive(Debug, Clone, Copy, PartialEq, Eq, Structural)]
pub struct ProgressEvent {
    pub worker_id: u8,
    pub bytes: u64,
    pub active_workers: usize,
}

/// A worker that the embedding program has to spawn: it fetches
/// `[start, end]`, and its shared stop boundary starts out at `end`.
#[derive(Debug, Clone, Copy, PartialEq, Eq, Structural)]
pub struct WorkerPlan {
    pub id: u8,
    pub start: u64,
    pub end: u64,
}

/// A new value for the shared stop boundary of the worker of part `id`.
#[derive(Debug, Clone, Copy, PartialEq, Eq, Structural)]
pub struct StopOrder {
    pub id: u8,
    pub stop_at: u64,
}

/// A split of a live part: the boundary of the old worker is lowered first,
/// then a worker for `part` is spawned.
#[derive(Debug, Clone, Copy, PartialEq, Eq, Structural)]
pub struct StealPlan {
    pub victim: StopOrder,
    pub part: DownloadPart,
}

/// What the embedding program has to do after a message.
#[derive(Debug, Clone, Copy, PartialEq, Eq, Structural)]
pub struct Reaction {
    pub forward: Option<ProgressEvent>,
    pub steal: Option<StealPlan>,
}

/// How a run ends other than by completion.
#[derive(Debug, Clone, Copy, PartialEq, Eq, Structural)]
pub enum DownloadError {
    /// The worker with this id reported a failure.
    WorkerFailed(u8),
    /// The run was cancelled; the session can be resumed.
    Cancelled,
}

/// The text of an error.
pub open spec fn error_text(error: DownloadError) -> Seq<char> {
    match error {
        DownloadError::WorkerFailed(id) => "Worker "@ + decimal_digits(id as nat)
            + " reported failure"@,
        DownloadError::Cancelled => "cancelled"@,
    }
}

impl DownloadError {
    /// The text of the error.
    pub fn to_string(&self) -> (text: String)
        ensures
            text@ == error_text(*self),
    {
        match self {
            DownloadError::WorkerFailed(id) => {
                let mut text = String::from_str("Worker ");
                let number = decimal_text(*id as u64);
                text.append(number.as_str());
                text.append(" reported failure");
                text
            },
            DownloadError::Cancelled => String::from_str("cancelled"),
        }
    }
}

/// What to do with the output file before the workers start.
#[derive(Debug, Clone, Copy, PartialEq, Eq, Structural)]
pub enum OutputPlan {
    /// The file exists: it is opened as it is.
    Reuse,
    /// The file is created, and set to `length` bytes where the size is known.
    Create { length: Option<u64> },
}

/// Index of the first part with id `id` at or after index `from`.
pub open spec fn part_index_from(parts: Seq<DownloadPart>, id: u8, from: int) -> Option<int>
    decreases parts.len() - from,
{
    if from < 0 || from >= parts.len() {
        None
    } else if parts[from].id == id {
        Some(from)
    } else {
        part_index_from(parts, id, from + 1)
    }
}

/// Index of the first part with id `id`.
pub open spec fn part_index(parts: Seq<DownloadPart>, id: u8) -> Option<int> {
    part_index_from(parts, id, 0)
}

/// The part after a progress report of `bytes` bytes: the next byte moves on,
/// and the part is completed once it has passed its end.
pub open spec fn progressed(part: DownloadPart, bytes: u64) -> DownloadPart {
    DownloadPart {
        current_byte: (part.current_byte + bytes) as u64,
        completed: part.completed || part.current_byte + bytes > part.end_byte,
        ..part
    }
}

/// The part after its worker has reported completion.
pub open spec fn finished(part: DownloadPart) -> DownloadPart {
    DownloadPart { completed: true, ..part }
}

/// The parts after a message `(worker_id, bytes, status)` that is no failure.
pub open spec fn after_message(
    parts: Seq<DownloadPart>,
    worker_id: u8,
    bytes: u64,
    status: WorkerStatus,
) -> Seq<DownloadPart> {
    match part_index(parts, worker_id) {
        None => parts,
        Some(i) => parts.update(
            i,
            if status is Completed {
                finished(parts[i])
            } else {
                progressed(parts[i], bytes)
            },
        ),
    }
}

/// Number of parts that are not completed.
pub open spec fn active_count(parts: Seq<DownloadPart>) -> nat
    decreases parts.len(),
{
    if parts.len() == 0 {
        0
    } else {
        active_count(parts.drop_last()) + if parts.last().completed {
            0nat
        } else {
            1nat
        }
    }
}

/// Every part is completed.
pub open spec fn all_completed(parts: Seq<DownloadPart>) -> bool {
    forall|i: int| 0 <= i < parts.len() ==> (#[trigger] parts[i]).completed
}

/// Largest id among the parts, `0` where there is none.
pub open spec fn max_id(parts: Seq<DownloadPart>) -> int
    decreases parts.len(),
{
    if parts.len() == 0 {
        0
    } else if parts.last().id > max_id(parts.drop_last()) {
        parts.last().id as int
    } else {
        max_id(parts.drop_last())
    }
}

/// The workers to spawn for `parts`: one for each part that is not completed,
/// in order, from the next needed byte to the end of the part.
pub open spec fn worker_plans(parts: Seq<DownloadPart>) -> Seq<WorkerPlan>
    decreases parts.len(),
{
    if parts.len() == 0 {
        Seq::empty()
    } else if parts.last().completed {
        worker_plans(parts.drop_last())
    } else {
        worker_plans(parts.drop_last()).push(
            WorkerPlan {
                id: parts.last().id,
                start: parts.last().current_byte,
                end: parts.last().end_byte,
            },
        )
    }
}

/// The boundaries that stop every live worker where it stands: one order for
/// each part that is not completed, in order.
pub open spec fn stop_orders(parts: Seq<DownloadPart>) -> Seq<StopOrder>
    decreases parts.len(),
{
    if parts.len() == 0 {
        Seq::empty()
    } else if parts.last().completed {
        stop_orders(parts.drop_last())
    } else {
        stop_orders(parts.drop_last()).push(
            StopOrder { id: parts.last().id, stop_at: parts.last().current_byte },
        )
    }
}

/// A live part with more than [`STEAL_THRESHOLD`] bytes between its next
/// byte and its last one.
pub open spec fn eligible(part: DownloadPart) -> bool {
    !part.completed && part.remaining() > STEAL_THRESHOLD
}

/// Index of the slowest eligible part among the first `n` parts: the one with
/// the most bytes remaining, the first of them where several tie.
pub open spec fn slowest_among(parts: Seq<DownloadPart>, n: int) -> Option<int>
    decreases n,
{
    if n <= 0 || n > parts.len() {
        None
    } else {
        let earlier = slowest_among(parts, n - 1);
        if eligible(parts[n - 1]) && (earlier matches Some(k) ==> parts[n - 1].remaining()
            > parts[k].remaining()) {
            Some(n - 1)
        } else {
            earlier
        }
    }
}

/// Index of the part to split, if any part is eligible.
pub open spec fn victim(parts: Seq<DownloadPart>) -> Option<int> {
    slowest_among(parts, parts.len() as int)
}

/// Last byte that the victim keeps: the midpoint of what remains.
pub open spec fn split_point(part: DownloadPart) -> int {
    part.current_byte + (part.end_byte - part.current_byte) / 2
}

/// The victim after the split: its end is lowered to the split point.
pub open spec fn shortened(part: DownloadPart) -> DownloadPart {
    DownloadPart { end_byte: split_point(part) as u64, ..part }
}

/// The part split off the victim: the bytes behind the split point.
pub open spec fn stolen(part: DownloadPart, id: u8) -> DownloadPart {
    DownloadPart::fresh(id, (split_point(part) + 1) as u64, part.end_byte)
}

/// The split that is due when a worker has completed. There is none where no
/// part is eligible, nor where `next_id` no longer fits an id.
pub open spec fn steal_plan(parts: Seq<DownloadPart>, next_id: int) -> Option<StealPlan> {
    match victim(parts) {
        Some(i) if next_id <= u8::MAX => Some(
            StealPlan {
                victim: StopOrder { id: parts[i].id, stop_at: split_point(parts[i]) as u64 },
                part: stolen(parts[i], next_id as u8),
            },
        ),
        _ => None,
    }
}

/// The parts after the split that is due: the victim shortened in place and
/// the new part appended.
pub open spec fn after_steal(parts: Seq<DownloadPart>, next_id: int) -> Seq<DownloadPart> {
    match victim(parts) {
        Some(i) if next_id <= u8::MAX => parts.update(i, shortened(parts[i])).push(
            stolen(parts[i], next_id as u8),
        ),
        _ => parts,
    }
}

/// Progress never goes back: `after` keeps every part of `before` under its
/// id and start, with a next byte that is no lower, an end that is no higher
/// and a completion that is not undone.
pub open spec fn advances(before: Seq<DownloadPart>, after: Seq<DownloadPart>) -> bool {
    &&& before.len() <= after.len()
    &&& forall|i: int|
        0 <= i < before.len() ==> {
            &&& (#[trigger] after[i]).id == before[i].id
            &&& after[i].start_byte == before[i].start_byte
            &&& after[i].current_byte >= before[i].current_byte
            &&& after[i].end_byte <= before[i].end_byte
            &&& before[i].completed ==> after[i].completed
        }
}

/// Monotone progress over a whole run: `advances` holds of any state and
/// itself, and of the first and the last of three states where it holds of
/// each step between them.
pub proof fn lemma_advances_composes(
    first: Seq<DownloadPart>,
    second: Seq<DownloadPart>,
    third: Seq<DownloadPart>,
)
    ensures
        advances(first, first),
        advances(first, second) && advances(second, third) ==> advances(first, third),
{
    if advances(first, second) && advances(second, third) {
        assert forall|i: int| 0 <= i < first.len() implies {
            &&& (#[trigger] third[i]).id == first[i].id
            &&& third[i].start_byte == first[i].start_byte
            &&& third[i].current_byte >= first[i].current_byte
            &&& third[i].end_byte <= first[i].end_byte
            &&& first[i].completed ==> third[i].completed
        } by {
            assert(second[i].id == first[i].id);
        }
    }
}

/// `part_index_from` returns the least index at or after `from` whose part
/// has the id, and `None` exactly when there is no such part.
pub proof fn lemma_part_index_from(parts: Seq<DownloadPart>, id: u8, from: int)
    requires
        0 <= from,
    ensures
        match part_index_from(parts, id, from) {
            Some(i) => {
                &&& from <= i < parts.len()
                &&& parts[i].id == id
                &&& forall|j: int| from <= j < i ==> (#[trigger] parts[j]).id != id
            },
            None => forall|j: int| from <= j < parts.len() ==> (#[trigger] parts[j]).id != id,
        },
    decreases parts.len() - from,
{
    if from < parts.len() && parts[from].id != id {
        lemma_part_index_from(parts, id, from + 1);
    }
}

/// `slowest_among` picks an eligible part that no eligible part before it
/// matches and none behind it exceeds; it picks none exactly when no part is
/// eligible.
pub proof fn lemma_slowest_among(parts: Seq<DownloadPart>, n: int)
    requires
        0 <= n <= parts.len(),
    ensures
        match slowest_among(parts, n) {
            Some(i) => {
                &&& 0 <= i < n
                &&& eligible(parts[i])
                &&& forall|j: int|
                    0 <= j < i && eligible(#[trigger] parts[j]) ==> parts[j].remaining()
                        < parts[i].remaining()
                &&& forall|j: int|
                    i < j < n && eligible(#[trigger] parts[j]) ==> parts[j].remaining()
                        <= parts[i].remaining()
            },
            None => forall|j: int| 0 <= j < n ==> !eligible(#[trigger] parts[j]),
        },
    decreases n,
{
    if n > 0 {
        lemma_slowest_among(parts, n - 1);
    }
}

/// A part on which at most [`STEAL_THRESHOLD`] bytes remain is never split:
/// where that holds of every live part, no split is due.
pub proof fn lemma_small_parts_are_left_alone(parts: Seq<DownloadPart>, next_id: int)
    requires
        forall|i: int|
            0 <= i < parts.len() && !(#[trigger] parts[i]).completed ==> parts[i].remaining()
                <= STEAL_THRESHOLD,
    ensures
        steal_plan(parts, next_id) is None,
        after_steal(parts, next_id) == parts,
{
    lemma_slowest_among(parts, parts.len() as int);
}

/// Replacing a part by one with the same id and interval keeps the parts
/// sound, as long as the new part is well formed.
pub proof fn lemma_update_keeps_valid(
    parts: Seq<DownloadPart>,
    total_size: Option<u64>,
    i: int,
    part: DownloadPart,
)
    requires
        valid_parts(parts, total_size),
        0 <= i < parts.len(),
        part.id == parts[i].id,
        part.start_byte == parts[i].start_byte,
        part.end_byte == parts[i].end_byte,
        part.well_formed(),
    ensures
        valid_parts(parts.update(i, part), total_size),
{
    let updated = parts.update(i, part);
    assert forall|k: int| 0 <= k < updated.len() implies (#[trigger] updated[k]).well_formed() by {
        if k != i {
            assert(updated[k] == parts[k]);
        }
    }
    assert forall|j: int, k: int| 0 <= j < k < updated.len() implies {
        &&& (#[trigger] updated[j]).id != (#[trigger] updated[k]).id
        &&& (updated[j].end_byte < updated[k].start_byte || updated[k].end_byte
            < updated[j].start_byte)
    } by {
        assert(updated[j].id == parts[j].id && updated[k].id == parts[k].id);
    }
    if let Some(total) = total_size {
        assert forall|k: int| 0 <= k < updated.len() implies (#[trigger] updated[k]).end_byte
            < total by {
            assert(updated[k].end_byte == parts[k].end_byte);
        }
        assert forall|b: int| 0 <= b < total implies #[trigger] held(updated, b) by {
            assert(held(parts, b));
            let k = choose|k: int| 0 <= k < parts.len() && (#[trigger] parts[k]).holds(b);
            assert(updated[k].holds(b));
        }
    }
}

/// A message keeps the parts sound and never takes progress back.
pub proof fn lemma_message_keeps_valid(
    parts: Seq<DownloadPart>,
    total_size: Option<u64>,
    worker_id: u8,
    bytes: u64,
    status: WorkerStatus,
)
    requires
        part_index(parts, worker_id) matches Some(i) ==> parts[i].current_byte + bytes <= u64::MAX,
    ensures
        advances(parts, after_message(parts, worker_id, bytes, status)),
        valid_parts(parts, total_size) ==> valid_parts(
            after_message(parts, worker_id, bytes, status),
            total_size,
        ),
{
    lemma_part_index_from(parts, worker_id, 0);
    if let Some(i) = part_index(parts, worker_id) {
        let part = if status is Completed {
            finished(parts[i])
        } else {
            progressed(parts[i], bytes)
        };
        if valid_parts(parts, total_size) {
            assert(parts[i].well_formed());
            lemma_update_keeps_valid(parts, total_size, i, part);
        }
    }
}

/// A split hands the back half of what the victim still owes to the new
/// part: between them the two parts owe exactly the bytes that the victim
/// owed, and no byte twice.
pub proof fn lemma_split_preserves_coverage(part: DownloadPart, id: u8)
    requires
        eligible(part),
    ensures
        forall|b: int|
            part.owes(b) <==> shortened(part).owes(b) || stolen(part, id).owes(b),
        forall|b: int| !(shortened(part).owes(b) && stolen(part, id).owes(b)),
        part.start_byte <= part.current_byte ==> forall|b: int|
            part.holds(b) <==> shortened(part).holds(b) || stolen(part, id).holds(b),
        part.current_byte <= split_point(part) < part.end_byte,
{
}

/// A split keeps the parts sound (so neither of the two parts overlaps any
/// other part) and never takes progress back, as long as the new id is above
/// every id in use.
pub proof fn lemma_steal_keeps_valid(
    parts: Seq<DownloadPart>,
    total_size: Option<u64>,
    next_id: int,
)
    requires
        valid_parts(parts, total_size),
        forall|i: int| 0 <= i < parts.len() ==> (#[trigger] parts[i]).id < next_id,
    ensures
        valid_parts(after_steal(parts, next_id), total_size),
        advances(parts, after_steal(parts, next_id)),
{
    lemma_slowest_among(parts, parts.len() as int);
    match victim(parts) {
        Some(i) if next_id <= u8::MAX => {
            let split = parts.update(i, shortened(parts[i])).push(stolen(parts[i], next_id as u8));
            let old_len = parts.len() as int;
            lemma_split_preserves_coverage(parts[i], next_id as u8);
            assert(parts[i].well_formed());
            assert forall|k: int| 0 <= k < split.len() implies {
                &&& (#[trigger] split[k]).well_formed()
                &&& k < old_len ==> split[k].id == parts[k].id
            } by {
                if k != i && k < old_len {
                    assert(split[k] == parts[k]);
                }
            }
            assert forall|j: int, k: int| 0 <= j < k < split.len() implies {
                &&& (#[trigger] split[j]).id != (#[trigger] split[k]).id
                &&& (split[j].end_byte < split[k].start_byte || split[k].end_byte
                    < split[j].start_byte)
            } by {
                if k < old_len {
                    assert(parts[j].id != parts[k].id);
                    assert(parts[j].holds(parts[j].start_byte as int));
                } else if j != i {
                    if j < i {
                        assert(parts[j].id != parts[i].id);
                    } else {
                        assert(parts[i].id != parts[j].id);
                    }
                }
            }
            if let Some(total) = total_size {
                assert forall|k: int| 0 <= k < split.len() implies (#[trigger] split[k]).end_byte
                    < total by {
                    if k < old_len {
                        assert(split[k].end_byte <= parts[k].end_byte);
                    } else {
                        assert(split[k].end_byte == parts[i].end_byte);
                    }
                }
                assert forall|b: int| 0 <= b < total implies #[trigger] held(split, b) by {
                    assert(held(parts, b));
                    let k = choose|k: int| 0 <= k < parts.len() && (#[trigger] parts[k]).holds(b);
                    if k != i {
                        assert(split[k].holds(b));
                    } else if b <= split_point(parts[i]) {
                        assert(split[i].holds(b));
                    } else {
                        assert(split[old_len].holds(b));
                    }
                }
            }
        },
        _ => {},
    }
}

/// Index of the first part with id `id`.
pub fn find_part(parts: &Vec<DownloadPart>, id: u8) -> (found: Option<usize>)
    ensures
        match found {
            Some(i) => part_index(parts@, id) == Some(i as int) && i < parts.len(),
            None => part_index(parts@, id) is None,
        },
{
    let mut i: usize = 0;
    while i < parts.len()
        invariant
            i <= parts.len(),
            part_index(parts@, id) == part_index_from(parts@, id, i as int),
        decreases parts.len() - i,
    {
        if parts[i].id == id {
            return Some(i);
        }
        i = i + 1;
    }
    None
}

/// Number of parts that are not completed.
pub fn count_active(parts: &Vec<DownloadPart>) -> (count: usize)
    ensures
        count == active_count(parts@),
{
    let mut count: usize = 0;
    let mut i: usize = 0;
    while i < parts.len()
        invariant
            i <= parts.len(),
            count <= i,
            count == active_count(parts@.take(i as int)),
        decreases parts.len() - i,
    {
        assert(parts@.take(i + 1).drop_last() =~= parts@.take(i as int));
        if !parts[i].completed {
            count = count + 1;
        }
        i = i + 1;
    }
    assert(parts@.take(parts.len() as int) =~= parts@);
    count
}

/// Whether every part is completed.
pub fn all_parts_completed(parts: &Vec<DownloadPart>) -> (done: bool)
    ensures
        done == all_completed(parts@),
{
    let mut i: usize = 0;
    while i < parts.len()
        invariant
            i <= parts.len(),
            forall|k: int| 0 <= k < i ==> (#[trigger] parts@[k]).completed,
        decreases parts.len() - i,
    {
        if !parts[i].completed {
            return false;
        }
        i = i + 1;
    }
    true
}

/// Largest id among the parts, `0` where there is none.
pub fn highest_id(parts: &Vec<DownloadPart>) -> (highest: u8)
    ensures
        highest == max_id(parts@),
        forall|k: int| 0 <= k < parts.len() ==> (#[trigger] parts@[k]).id <= highest,
{
    let mut highest: u8 = 0;
    let mut i: usize = 0;
    while i < parts.len()
        invariant
            i <= parts.len(),
            highest == max_id(parts@.take(i as int)),
            forall|k: int| 0 <= k < i ==> (#[trigger] parts@[k]).id <= highest,
        decreases parts.len() - i,
    {
        assert(parts@.take(i + 1).drop_last() =~= parts@.take(i as int));
        if parts[i].id > highest {
            highest = parts[i].id;
        }
        i = i + 1;
    }
    assert(parts@.take(parts.len() as int) =~= parts@);
    highest
}

/// The workers to spawn for the parts that are not completed.
pub fn plan_workers(parts: &Vec<DownloadPart>) -> (plans: Vec<WorkerPlan>)
    ensures
        plans@ == worker_plans(parts@),
{
    let mut plans: Vec<WorkerPlan> = Vec::new();
    let mut i: usize = 0;
    while i < parts.len()
        invariant
            i <= parts.len(),
            plans@ == worker_plans(parts@.take(i as int)),
        decreases parts.len() - i,
    {
        assert(parts@.take(i + 1).drop_last() =~= parts@.take(i as int));
        let part = parts[i];
        if !part.completed {
            plans.push(WorkerPlan { id: part.id, start: part.current_byte, end: part.end_byte });
        }
        i = i + 1;
    }
    assert(parts@.take(parts.len() as int) =~= parts@);
    plans
}

/// The boundaries that stop every live worker where it stands.
pub fn plan_stops(parts: &Vec<DownloadPart>) -> (orders: Vec<StopOrder>)
    ensures
        orders@ == stop_orders(parts@),
{
    let mut orders: Vec<StopOrder> = Vec::new();
    let mut i: usize = 0;
    while i < parts.len()
        invariant
            i <= parts.len(),
            orders@ == stop_orders(parts@.take(i as int)),
        decreases parts.len() - i,
    {
        assert(parts@.take(i + 1).drop_last() =~= parts@.take(i as int));
        let part = parts[i];
        if !part.completed {
            orders.push(StopOrder { id: part.id, stop_at: part.current_byte });
        }
        i = i + 1;
    }
    assert(parts@.take(parts.len() as int) =~= parts@);
    orders
}

/// Index of the part to split: the live part with the most bytes remaining,
/// provided that more than [`STEAL_THRESHOLD`] remain on it.
pub fn find_victim(parts: &Vec<DownloadPart>) -> (found: Option<usize>)
    ensures
        match found {
            Some(i) => victim(parts@) == Some(i as int) && i < parts.len(),
            None => victim(parts@) is None,
        },
{
    let mut found: Option<usize> = None;
    let mut most: u64 = 0;
    let mut i: usize = 0;
    while i < parts.len()
        invariant
            i <= parts.len(),
            match found {
                Some(k) => slowest_among(parts@, i as int) == Some(k as int) && k < i && most
                    == parts@[k as int].remaining(),
                None => slowest_among(parts@, i as int) is None,
            },
        decreases parts.len() - i,
    {
        let part = parts[i];
        if !part.completed && part.end_byte > part.current_byte {
            let remaining = part.end_byte - part.current_byte;
            if remaining > STEAL_THRESHOLD && (found.is_none() || remaining > most) {
                found = Some(i);
                most = remaining;
            }
        }
        i = i + 1;
    }
    found
}

/// State of a running download.
#[derive(Debug)]
pub struct Coordinator {
    /// The session, owned for the length of the run.
    pub session: DownloadSession,
    /// Bytes reported by workers and not yet forwarded to the observer.
    pub pending_bytes: u64,
    /// Id of the next part that is split off.
    pub next_worker_id: u16,
    /// Clock reading at the last forwarded progress event.
    pub last_forward_ms: u64,
    /// Clock reading at the last periodic snapshot.
    pub last_save_ms: u64,
}

impl Coordinator {
    /// The session is sound and every id in use lies below the next one.
    pub open spec fn well_formed(&self) -> bool {
        &&& self.session.well_formed()
        &&& forall|i: int|
            0 <= i < self.session.parts@.len() ==> (#[trigger] self.session.parts@[i]).id
                < self.next_worker_id
    }

    /// The counters have room for the message.
    pub open spec fn accepts(&self, worker_id: u8, bytes: u64, status: WorkerStatus) -> bool {
        status !is Failed ==> {
            &&& self.pending_bytes + bytes <= u64::MAX
            &&& status is Progress ==> (part_index(self.session.parts@, worker_id) matches Some(i)
                ==> self.session.parts@[i].current_byte + bytes <= u64::MAX)
        }
    }

    /// A progress event is due for a message of this status at this time.
    pub open spec fn forwards(&self, status: WorkerStatus, now_ms: u64) -> bool {
        status is Completed || now_ms - self.last_forward_ms >= FORWARD_INTERVAL_MS
    }

    /// Whether the counters have room for the message.
    pub fn can_accept(&self, worker_id: u8, bytes: u64, status: WorkerStatus) -> (fits: bool)
        ensures
            fits == self.accepts(worker_id, bytes, status),
    {
        match status {
            WorkerStatus::Failed => true,
            WorkerStatus::Completed => bytes <= u64::MAX - self.pending_bytes,
            WorkerStatus::Progress => {
                if bytes > u64::MAX - self.pending_bytes {
                    false
                } else {
                    match find_part(&self.session.parts, worker_id) {
                        Some(i) => bytes <= u64::MAX - self.session.parts[i].current_byte,
                        None => true,
                    }
                }
            },
        }
    }

    /// What to do with the output file before the workers start: an existing
    /// file is kept as it is, a missing one is created and sized.
    pub fn output_plan(&self, file_exists: bool) -> (plan: OutputPlan)
        ensures
            plan == if file_exists {
                OutputPlan::Reuse
            } else {
                OutputPlan::Create { length: self.session.total_size }
            },
    {
        if file_exists {
            OutputPlan::Reuse
        } else {
            OutputPlan::Create { length: self.session.total_size }
        }
    }

    /// Takes over `session` for a run that begins at clock reading `now_ms`,
    /// and lists the workers to spawn: one for each part that is not
    /// completed. The session is marked as downloading.
    pub fn start(session: DownloadSession, now_ms: u64) -> (started: (Coordinator, Vec<WorkerPlan>))
        ensures
            started.0.session@ == (SessionView { state: StateView::Downloading, ..session@ }),
            started.0.pending_bytes == 0,
            started.0.next_worker_id == max_id(session.parts@) + 1,
            started.0.last_forward_ms == now_ms,
            started.0.last_save_ms == now_ms,
            started.1@ == worker_plans(session.parts@),
            session.well_formed() ==> started.0.well_formed(),
    {
        let mut session = session;
        session.state = DownloadState::Downloading;
        let next_worker_id: u16 = highest_id(&session.parts) as u16 + 1;
        let plans = plan_workers(&session.parts);
        let coordinator = Coordinator {
            session,
            pending_bytes: 0,
            next_worker_id,
            last_forward_ms: now_ms,
            last_save_ms: now_ms,
        };
        (coordinator, plans)
    }

    /// Whether every part is completed, so that the run is over.
    pub fn all_done(&self) -> (done: bool)
        ensures
            done == all_completed(self.session.parts@),
    {
        all_parts_completed(&self.session.parts)
    }

    /// Number of parts that are not completed.
    pub fn active_workers(&self) -> (count: usize)
        ensures
            count == active_count(self.session.parts@),
    {
        count_active(&self.session.parts)
    }

    /// Splits the slowest live part, if one is eligible and an id is left:
    /// the victim keeps the front half of what remains, the new part gets the
    /// back half and is appended to the session.
    pub fn steal_work(&mut self) -> (plan: Option<StealPlan>)
        ensures
            plan == steal_plan(old(self).session.parts@, old(self).next_worker_id as int),
            final(self).session@ == (SessionView {
                parts: after_steal(old(self).session.parts@, old(self).next_worker_id as int),
                ..old(self).session@
            }),
            final(self).next_worker_id == if plan is Some {
                old(self).next_worker_id + 1
            } else {
                old(self).next_worker_id as int
            },
            final(self).pending_bytes == old(self).pending_bytes,
            final(self).last_forward_ms == old(self).last_forward_ms,
            final(self).last_save_ms == old(self).last_save_ms,
            advances(old(self).session.parts@, final(self).session.parts@),
            old(self).well_formed() ==> final(self).well_formed(),
    {
        proof {
            lemma_slowest_among(self.session.parts@, self.session.parts@.len() as int);
            if self.well_formed() {
                lemma_steal_keeps_valid(
                    self.session.parts@,
                    self.session.total_size,
                    self.next_worker_id as int,
                );
            }
        }
        if self.next_worker_id > 255 {
            return None;
        }
        match find_victim(&self.session.parts) {
            None => None,
            Some(i) => {
                let part = self.session.parts[i];
                let split = part.current_byte + (part.end_byte - part.current_byte) / 2;
                let id = self.next_worker_id as u8;
                let new_part = DownloadPart::new(id, split + 1, part.end_byte);
                self.session.parts.set(
                    i,
                    DownloadPart {
                        id: part.id,
                        start_byte: part.start_byte,
                        end_byte: split,
                        current_byte: part.current_byte,
                        completed: part.completed,
                    },
                );
                self.session.parts.push(new_part);
                self.next_worker_id = self.next_worker_id + 1;
                Some(StealPlan { victim: StopOrder { id: part.id, stop_at: split }, part: new_part })
            },
        }
    }

    /// Handles one worker message at clock reading `now_ms`.
    ///
    /// A failure fails the run and leaves the coordinator as it was. Any
    /// other message updates the part of the sender, adds its bytes to the
    /// pending count, forwards one progress event if the message is a
    /// completion or [`FORWARD_INTERVAL_MS`] have gone by since the last one,
    /// and, on a completion, splits the slowest live part.
    pub fn on_message(
        &mut self,
        worker_id: u8,
        bytes: u64,
        status: WorkerStatus,
        now_ms: u64,
    ) -> (result: Result<Reaction, DownloadError>)
        requires
            old(self).accepts(worker_id, bytes, status),
        ensures
            match result {
                Err(error) => {
                    &&& status is Failed
                    &&& error == DownloadError::WorkerFailed(worker_id)
                    &&& *final(self) == *old(self)
                },
                Ok(reaction) => {
                    let marked = after_message(old(self).session.parts@, worker_id, bytes, status);
                    let forwarding = old(self).forwards(status, now_ms);
                    let next_id = old(self).next_worker_id as int;
                    &&& status !is Failed
                    &&& reaction.forward == if forwarding {
                        Some(
                            ProgressEvent {
                                worker_id,
                                bytes: (old(self).pending_bytes + bytes) as u64,
                                active_workers: active_count(marked) as usize,
                            },
                        )
                    } else {
                        None
                    }
                    &&& reaction.steal == if status is Completed {
                        steal_plan(marked, next_id)
                    } else {
                        None
                    }
                    &&& final(self).session@ == (SessionView {
                        parts: if status is Completed {
                            after_steal(marked, next_id)
                        } else {
                            marked
                        },
                        ..old(self).session@
                    })
                    &&& final(self).pending_bytes == if forwarding {
                        0
                    } else {
                        old(self).pending_bytes + bytes
                    }
                    &&& final(self).last_forward_ms == if forwarding {
                        now_ms
                    } else {
                        old(self).last_forward_ms
                    }
                    &&& final(self).next_worker_id == if reaction.steal is Some {
                        next_id + 1
                    } else {
                        next_id
                    }
                    &&& final(self).last_save_ms == old(self).last_save_ms
                },
            },
            advances(old(self).session.parts@, final(self).session.parts@),
            old(self).well_formed() ==> final(self).well_formed(),
    {
        if let WorkerStatus::Failed = status {
            return Err(DownloadError::WorkerFailed(worker_id));
        }
        let completed = status == WorkerStatus::Completed;
        proof {
            lemma_part_index_from(self.session.parts@, worker_id, 0);
            if completed {
                assert(after_message(self.session.parts@, worker_id, 0, status) == after_message(
                    self.session.parts@,
                    worker_id,
                    bytes,
                    status,
                ));
                lemma_message_keeps_valid(
                    self.session.parts@,
                    self.session.total_size,
                    worker_id,
                    0,
                    status,
                );
            } else {
                lemma_message_keeps_valid(
                    self.session.parts@,
                    self.session.total_size,
                    worker_id,
                    bytes,
                    status,
                );
            }
        }
        match find_part(&self.session.parts, worker_id) {
            Some(i) => {
                let part = self.session.parts[i];
                let updated = if completed {
                    DownloadPart {
                        id: part.id,
                        start_byte: part.start_byte,
                        end_byte: part.end_byte,
                        current_byte: part.current_byte,
                        completed: true,
                    }
                } else {
                    let current = part.current_byte + bytes;
                    DownloadPart {
                        id: part.id,
                        start_byte: part.start_byte,
                        end_byte: part.end_byte,
                        current_byte: current,
                        completed: part.completed || current > part.end_byte,
                    }
                };
                self.session.parts.set(i, updated);
            },
            None => {},
        }
        let ghost marked = self.session.parts@;
        assert(marked == after_message(old(self).session.parts@, worker_id, bytes, status));
        self.pending_bytes = self.pending_bytes + bytes;
        let forwarding = completed || (now_ms >= self.last_forward_ms && now_ms
            - self.last_forward_ms >= FORWARD_INTERVAL_MS);
        let forward = if forwarding {
            let event = ProgressEvent {
                worker_id,
                bytes: self.pending_bytes,
                active_workers: count_active(&self.session.parts),
            };
            self.pending_bytes = 0;
            self.last_forward_ms = now_ms;
            Some(event)
        } else {
            None
        };
        let steal = if completed {
            self.steal_work()
        } else {
            None
        };
        proof {
            assert(advances(old(self).session.parts@, marked));
            assert(advances(marked, self.session.parts@));
        }
        Ok(Reaction { forward, steal })
    }

    /// Whether a periodic snapshot of the session is due at clock reading
    /// `now_ms`: [`SAVE_INTERVAL_MS`] have gone by since the last one. When
    /// it is due the time of the last snapshot moves to `now_ms`.
    pub fn save_due(&mut self, now_ms: u64) -> (due: bool)
        ensures
            due == (now_ms - old(self).last_save_ms >= SAVE_INTERVAL_MS),
            final(self).last_save_ms == if due {
                now_ms
            } else {
                old(self).last_save_ms
            },
            final(self).session == old(self).session,
            final(self).pending_bytes == old(self).pending_bytes,
            final(self).next_worker_id == old(self).next_worker_id,
            final(self).last_forward_ms == old(self).last_forward_ms,
    {
        if now_ms >= self.last_save_ms && now_ms - self.last_save_ms >= SAVE_INTERVAL_MS {
            self.last_save_ms = now_ms;
            true
        } else {
            false
        }
    }

    /// Ends the run: the session is marked as completed, and the bytes that
    /// are still pending go out in one last progress event under worker id 0.
    pub fn finish(&mut self) -> (flush: Option<ProgressEvent>)
        ensures
            flush == if old(self).pending_bytes > 0 {
                Some(
                    ProgressEvent {
                        worker_id: 0,
                        bytes: old(self).pending_bytes,
                        active_workers: active_count(old(self).session.parts@) as usize,
                    },
                )
            } else {
                None
            },
            final(self).session@ == (SessionView {
                state: StateView::Completed,
                ..old(self).session@
            }),
            final(self).pending_bytes == 0,
            final(self).next_worker_id == old(self).next_worker_id,
            final(self).last_forward_ms == old(self).last_forward_ms,
            final(self).last_save_ms == old(self).last_save_ms,
            old(self).well_formed() ==> final(self).well_formed(),
    {
        let flush = if self.pending_bytes > 0 {
            Some(
                ProgressEvent {
                    worker_id: 0,
                    bytes: self.pending_bytes,
                    active_workers: count_active(&self.session.parts),
                },
            )
        } else {
            None
        };
        self.pending_bytes = 0;
        self.session.state = DownloadState::Completed;
        flush
    }

    /// Cancels the run: every live worker is told to stop at the byte it has
    /// reached, and the session is marked as paused with its progress kept,
    /// so that a later run resumes it.
    pub fn cancel(&mut self) -> (outcome: (Vec<StopOrder>, DownloadError))
        ensures
            outcome.0@ == stop_orders(old(self).session.parts@),
            outcome.1 == DownloadError::Cancelled,
            final(self).session@ == (SessionView {
                state: StateView::Paused,
                ..old(self).session@
            }),
            final(self).pending_bytes == old(self).pending_bytes,
            final(self).next_worker_id == old(self).next_worker_id,
            final(self).last_forward_ms == old(self).last_forward_ms,
            final(self).last_save_ms == old(self).last_save_ms,
            old(self).well_formed() ==> final(self).well_formed(),
    {
        let orders = plan_stops(&self.session.parts);
        self.session.state = DownloadState::Paused;
        (orders, DownloadError::Cancelled)
    }

    /// Hands the session back when the run is over.
    pub fn into_session(self) -> (session: DownloadSession)
        ensures
            session == self.session,
    {
        self.session
    }
}

} // verus!
