//! The persistent record of one download: source, destination, partition and
//! progress.

use vstd::prelude::*;

verus! {

/// Overall state of a download.
#[derive(Debug, Clone)]
pub enum DownloadState {
    Pending,
    Downloading,
    Paused,
    Completed,
    Error(String),
}

/// Mathematical value of a [`DownloadState`].
pub enum StateView {
    Pending,
    Downloading,
    Paused,
    Completed,
    Error(Seq<char>),
}

impl View for DownloadState {
    type V = StateView;

    open spec fn view(&self) -> StateView {
        match self {
            DownloadState::Pending => StateView::Pending,
            DownloadState::Downloading => StateView::Downloading,
            DownloadState::Paused => StateView::Paused,
            DownloadState::Completed => StateView::Completed,
            DownloadState::Error(message) => StateView::Error(message@),
        }
    }
}

impl PartialEq for DownloadState {
    fn eq(&self, other: &DownloadState) -> (equal: bool) {
        match self {
            DownloadState::Pending => matches!(other, DownloadState::Pending),
            DownloadState::Downloading => matches!(other, DownloadState::Downloading),
            DownloadState::Paused => matches!(other, DownloadState::Paused),
            DownloadState::Completed => matches!(other, DownloadState::Completed),
            DownloadState::Error(a) => match other {
                DownloadState::Error(b) => *a == *b,
                _ => false,
            },
        }
    }
}

impl vstd::std_specs::cmp::PartialEqSpecImpl for DownloadState {
    open spec fn obeys_eq_spec() -> bool {
        true
    }

    open spec fn eq_spec(&self, other: &DownloadState) -> bool {
        self@ == other@
    }
}

/// One contiguous byte interval of the output file, assigned to one worker.
///
/// `start_byte` and `end_byte` are inclusive absolute offsets; `current_byte`
/// is the next byte the part still needs.
#[derive(Debug, Clone, Copy, PartialEq, Eq, Structural)]
pub struct DownloadPart {
    pub id: u8,
    pub start_byte: u64,
    pub end_byte: u64,
    pub current_byte: u64,
    pub completed: bool,
}

impl DownloadPart {
    /// A fresh part over `[start_byte, end_byte]` with nothing fetched yet.
    pub open spec fn fresh(id: u8, start_byte: u64, end_byte: u64) -> DownloadPart {
        DownloadPart { id, start_byte, end_byte, current_byte: start_byte, completed: false }
    }

    /// Distance from the next needed byte to the last byte of the part.
    pub open spec fn remaining(self) -> int {
        self.end_byte - self.current_byte
    }

    /// Byte `b` lies in the interval assigned to this part.
    pub open spec fn holds(self, b: int) -> bool {
        self.start_byte <= b <= self.end_byte
    }

    /// Byte `b` is still to be fetched by this part.
    pub open spec fn owes(self, b: int) -> bool {
        !self.completed && self.current_byte <= b <= self.end_byte
    }

    /// Byte `b` has been delivered by this part: it lies below `current_byte`,
    /// or anywhere in the interval once the part is completed.
    pub open spec fn delivered(self, b: int) -> bool {
        if self.completed {
            self.start_byte <= b <= self.end_byte
        } else {
            self.start_byte <= b < self.current_byte
        }
    }

    /// The interval is not empty, progress starts at `start_byte`, and a part
    /// that is still live has not run past the byte after its end.
    pub open spec fn well_formed(self) -> bool {
        &&& self.start_byte <= self.end_byte
        &&& self.start_byte <= self.current_byte
        &&& !self.completed ==> self.current_byte <= self.end_byte + 1
    }

    /// `start_byte <= current_byte <= end_byte + 1`.
    pub open spec fn within_bounds(self) -> bool {
        self.start_byte <= self.current_byte <= self.end_byte + 1
    }

    /// Creates a part over `[start_byte, end_byte]` with nothing fetched yet.
    pub fn new(id: u8, start_byte: u64, end_byte: u64) -> (part: DownloadPart)
        ensures
            part == DownloadPart::fresh(id, start_byte, end_byte),
    {
        DownloadPart { id, start_byte, end_byte, current_byte: start_byte, completed: false }
    }
}

/// No two parts share an id.
pub open spec fn ids_unique(parts: Seq<DownloadPart>) -> bool {
    forall|i: int, j: int|
        0 <= i < j < parts.len() ==> (#[trigger] parts[i]).id != (#[trigger] parts[j]).id
}

/// No two parts share a byte of their intervals.
pub open spec fn disjoint(parts: Seq<DownloadPart>) -> bool {
    forall|i: int, j: int|
        0 <= i < j < parts.len() ==> {
            ||| (#[trigger] parts[i]).end_byte < (#[trigger] parts[j]).start_byte
            ||| parts[j].end_byte < parts[i].start_byte
        }
}

/// Byte `b` lies in the interval of some part.
pub open spec fn held(parts: Seq<DownloadPart>, b: int) -> bool {
    exists|i: int| 0 <= i < parts.len() && (#[trigger] parts[i]).holds(b)
}

/// The intervals of the parts lie inside `[0, total - 1]` and leave no byte
/// of it out.
pub open spec fn covers(parts: Seq<DownloadPart>, total: int) -> bool {
    &&& forall|i: int| 0 <= i < parts.len() ==> (#[trigger] parts[i]).end_byte < total
    &&& forall|b: int| 0 <= b < total ==> #[trigger] held(parts, b)
}

/// The parts of a session are sound: each part is well formed, ids are
/// unique, intervals never overlap, and where the size of the file is known
/// the intervals tile `[0, total - 1]` exactly.
pub open spec fn valid_parts(parts: Seq<DownloadPart>, total_size: Option<u64>) -> bool {
    &&& forall|i: int| 0 <= i < parts.len() ==> (#[trigger] parts[i]).well_formed()
    &&& ids_unique(parts)
    &&& disjoint(parts)
    &&& total_size matches Some(total) ==> covers(parts, total as int)
}

/// Byte `b` is accounted for by some part: it is still owed by it, or has
/// been delivered by it.
pub open spec fn accounted(parts: Seq<DownloadPart>, b: int) -> bool {
    exists|i: int|
        0 <= i < parts.len() && ((#[trigger] parts[i]).owes(b) || parts[i].delivered(b))
}

/// Disjoint coverage: in a sound session of known size no byte is owed by
/// two parts, and the bytes that are owed or delivered are exactly the bytes
/// `0` to `total - 1` of the file.
pub proof fn lemma_disjoint_coverage(parts: Seq<DownloadPart>, total: u64)
    requires
        valid_parts(parts, Some(total)),
    ensures
        forall|i: int, j: int, b: int|
            0 <= i < parts.len() && 0 <= j < parts.len() && i != j ==> !(#[trigger] parts[i].owes(
                b,
            ) && #[trigger] parts[j].owes(b)),
        forall|b: int| 0 <= b < total <==> #[trigger] accounted(parts, b),
{
    assert forall|i: int, j: int, b: int|
        0 <= i < parts.len() && 0 <= j < parts.len() && i != j implies !(#[trigger] parts[i].owes(
        b,
    ) && #[trigger] parts[j].owes(b)) by {
        assert(parts[i].well_formed() && parts[j].well_formed());
        if i < j {
            assert(parts[i].end_byte < parts[j].start_byte || parts[j].end_byte
                < parts[i].start_byte);
        } else {
            assert(parts[j].end_byte < parts[i].start_byte || parts[i].end_byte
                < parts[j].start_byte);
        }
    }
    assert forall|b: int| 0 <= b < total implies #[trigger] accounted(parts, b) by {
        assert(held(parts, b));
        let i = choose|i: int| 0 <= i < parts.len() && (#[trigger] parts[i]).holds(b);
        assert(parts[i].well_formed());
        assert(parts[i].owes(b) || parts[i].delivered(b));
    }
    assert forall|b: int| #[trigger] accounted(parts, b) implies 0 <= b < total by {
        let i = choose|i: int|
            0 <= i < parts.len() && ((#[trigger] parts[i]).owes(b) || parts[i].delivered(b));
        assert(parts[i].well_formed());
        assert(parts[i].end_byte < total);
    }
}

/// The full persistent state of one download.
#[derive(Debug, Clone)]
pub struct DownloadSession {
    pub url: String,
    pub output_path: String,
    pub total_size: Option<u64>,
    pub state: DownloadState,
    pub parts: Vec<DownloadPart>,
    pub connections: u8,
}

/// Mathematical value of a [`DownloadSession`].
pub struct SessionView {
    pub url: Seq<char>,
    pub output_path: Seq<char>,
    pub total_size: Option<u64>,
    pub state: StateView,
    pub parts: Seq<DownloadPart>,
    pub connections: u8,
}

impl View for DownloadSession {
    type V = SessionView;

    open spec fn view(&self) -> SessionView {
        SessionView {
            url: self.url@,
            output_path: self.output_path@,
            total_size: self.total_size,
            state: self.state@,
            parts: self.parts@,
            connections: self.connections,
        }
    }
}

impl DownloadSession {
    /// The parts of the session are sound (see [`valid_parts`]).
    pub open spec fn well_formed(&self) -> bool {
        valid_parts(self.parts@, self.total_size)
    }

    /// Creates a pending session with no parts and an unknown size.
    pub fn new(url: String, output_path: String, connections: u8) -> (session: DownloadSession)
        ensures
            session@ == (SessionView {
                url: url@,
                output_path: output_path@,
                total_size: None,
                state: StateView::Pending,
                parts: Seq::empty(),
                connections,
            }),
    {
        DownloadSession {
            url,
            output_path,
            total_size: None,
            state: DownloadState::Pending,
            parts: Vec::new(),
            connections,
        }
    }
}

} // verus!
