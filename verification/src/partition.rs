//! Partition of a download into contiguous parts.

use crate::session::{held, valid_parts, DownloadPart};
use vstd::prelude::*;

verus! {

/// Number of parts that a download is split into.
///
/// A server that takes range requests gets as many parts as connections were
/// asked for, but never more than the file has bytes. Every other download of
/// a known, non-zero size gets one part, and an empty file gets none.
pub open spec fn part_count(total: u64, range_capable: bool, connections: u8) -> nat {
    if total == 0 {
        0
    } else if range_capable && connections > 1 && total > 1 {
        if connections <= total {
            connections as nat
        } else {
            total as nat
        }
    } else {
        1
    }
}

/// Part `i` of `count` parts over a file of `total` bytes: parts have
/// `total / count` bytes each, and the last one takes the remainder too.
pub open spec fn planned_part(total: u64, count: nat, i: int) -> DownloadPart {
    let size = total as int / count as int;
    let end = if i == count - 1 {
        total - 1
    } else {
        (i + 1) * size - 1
    };
    DownloadPart::fresh(i as u8, (i * size) as u64, end as u64)
}

/// The parts that a new download starts with. Where the size is unknown, a
/// single part `[0, 0]` stands in for the whole file.
pub open spec fn planned_parts(
    total_size: Option<u64>,
    range_capable: bool,
    connections: u8,
) -> Seq<DownloadPart> {
    match total_size {
        None => seq![DownloadPart::fresh(0, 0, 0)],
        Some(total) => {
            let count = part_count(total, range_capable, connections);
            Seq::new(count, |i: int| planned_part(total, count, i))
        },
    }
}

/// The parallelism that a new download runs with: the number of parts where
/// there are several, else one.
pub open spec fn planned_connections(
    total_size: Option<u64>,
    range_capable: bool,
    connections: u8,
) -> u8 {
    match total_size {
        Some(total) if part_count(total, range_capable, connections) > 1 => part_count(
            total,
            range_capable,
            connections,
        ) as u8,
        _ => 1,
    }
}

proof fn lemma_part_arithmetic(total: u64, count: nat, i: int)
    requires
        1 <= count <= total,
        0 <= i < count,
    ensures
        total as int / count as int >= 1,
        count * (total as int / count as int) <= total,
        i * (total as int / count as int) <= (count - 1) * (total as int / count as int),
        (count - 1) * (total as int / count as int) <= total - (total as int / count as int),
        i < count - 1 ==> (i + 1) * (total as int / count as int) <= (count - 1) * (total as int
            / count as int),
        0 <= i * (total as int / count as int),
        (i + 1) * (total as int / count as int) == i * (total as int / count as int) + total as int
            / count as int,
{
    let size = total as int / count as int;
    vstd::arithmetic::div_mod::lemma_fundamental_div_mod(total as int, count as int);
    vstd::arithmetic::div_mod::lemma_div_pos_is_pos(total as int, count as int);
    assert(size >= 1) by {
        if size <= 0 {
            vstd::arithmetic::div_mod::lemma_mod_bound(total as int, count as int);
            assert(count as int * size <= 0) by (nonlinear_arith)
                requires
                    size <= 0,
                    count >= 1,
            ;
        }
    }
    assert(count * size <= total) by {
        vstd::arithmetic::div_mod::lemma_mod_bound(total as int, count as int);
        assert(count as int * size == size * count) by (nonlinear_arith);
    }
    assert(i * size <= (count - 1) * size) by (nonlinear_arith)
        requires
            0 <= i <= count - 1,
            size >= 1,
    ;
    assert((count - 1) * size == count * size - size) by (nonlinear_arith);
    assert(i < count - 1 ==> (i + 1) * size <= (count - 1) * size) by (nonlinear_arith)
        requires
            0 <= i,
            size >= 1,
    ;
    assert(0 <= i * size) by (nonlinear_arith)
        requires
            0 <= i,
            size >= 1,
    ;
    assert((i + 1) * size == i * size + size) by (nonlinear_arith);
}

/// The parts that a new download starts with are sound: they are well formed
/// and pairwise disjoint, carry the ids `0..count`, and tile the file exactly.
pub proof fn lemma_planned_parts_valid(
    total_size: Option<u64>,
    range_capable: bool,
    connections: u8,
)
    ensures
        valid_parts(planned_parts(total_size, range_capable, connections), total_size),
        forall|i: int|
            0 <= i < planned_parts(total_size, range_capable, connections).len() ==> {
                let part = #[trigger] planned_parts(total_size, range_capable, connections)[i];
                &&& part.id == i
                &&& part.current_byte == part.start_byte
                &&& !part.completed
            },
{
    let parts = planned_parts(total_size, range_capable, connections);
    match total_size {
        None => {},
        Some(total) => {
            let count = part_count(total, range_capable, connections);
            let size = total as int / count as int;
            assert forall|i: int| 0 <= i < parts.len() implies {
                &&& (#[trigger] parts[i]).well_formed()
                &&& parts[i].id == i
                &&& parts[i].start_byte == i * size
                &&& parts[i].end_byte == if i == count - 1 {
                    total - 1
                } else {
                    (i + 1) * size - 1
                }
                &&& parts[i].end_byte < total
                &&& parts[i].current_byte == parts[i].start_byte
                &&& !parts[i].completed
            } by {
                lemma_part_arithmetic(total, count, i);
            }
            assert forall|i: int, j: int| 0 <= i < j < parts.len() implies (#[trigger] parts[i]).end_byte
                < (#[trigger] parts[j]).start_byte by {
                assert((i + 1) * size <= j * size) by (nonlinear_arith)
                    requires
                        i + 1 <= j,
                        size >= 0,
                ;
                lemma_part_arithmetic(total, count, i);
            }
            assert forall|b: int| 0 <= b < total implies #[trigger] held(parts, b) by {
                let q = b / size;
                let k = if q < count - 1 {
                    q
                } else {
                    count - 1
                };
                lemma_part_arithmetic(total, count, 0);
                vstd::arithmetic::div_mod::lemma_fundamental_div_mod(b, size);
                vstd::arithmetic::div_mod::lemma_mod_bound(b, size);
                vstd::arithmetic::div_mod::lemma_div_pos_is_pos(b, size);
                assert(size * q == q * size) by (nonlinear_arith);
                assert((q + 1) * size == q * size + size) by (nonlinear_arith);
                assert(k * size <= q * size) by (nonlinear_arith)
                    requires
                        k <= q,
                        size >= 1,
                ;
                assert(parts[k].holds(b));
            }
        },
    }
}

/// Number of parts that a download of `total` bytes is split into.
pub fn count_parts(total: u64, range_capable: bool, connections: u8) -> (count: u8)
    ensures
        count == part_count(total, range_capable, connections),
{
    if total == 0 {
        0
    } else if range_capable && connections > 1 && total > 1 {
        if connections as u64 <= total {
            connections
        } else {
            total as u8
        }
    } else {
        1
    }
}

/// Lays out the parts that a new download starts with.
pub fn plan_parts(total_size: Option<u64>, range_capable: bool, connections: u8) -> (parts: Vec<
    DownloadPart,
>)
    ensures
        parts@ == planned_parts(total_size, range_capable, connections),
        valid_parts(parts@, total_size),
{
    proof {
        lemma_planned_parts_valid(total_size, range_capable, connections);
    }
    let mut parts: Vec<DownloadPart> = Vec::new();
    match total_size {
        None => {
            parts.push(DownloadPart::new(0, 0, 0));
            assert(parts@ =~= planned_parts(total_size, range_capable, connections));
        },
        Some(total) => {
            let count = count_parts(total, range_capable, connections);
            if count > 0 {
                let size = total / (count as u64);
                let mut i: u8 = 0;
                let mut start: u64 = 0;
                while i < count
                    invariant
                        1 <= count <= total,
                        size == total as int / count as int,
                        i <= count,
                        i < count ==> start == i * size,
                        parts@ =~= Seq::new(
                            i as nat,
                            |k: int| planned_part(total, count as nat, k),
                        ),
                    decreases count - i,
                {
                    proof {
                        lemma_part_arithmetic(total, count as nat, i as int);
                    }
                    let end = if i == count - 1 {
                        total - 1
                    } else {
                        start + size - 1
                    };
                    parts.push(DownloadPart::new(i, start, end));
                    start = end + 1;
                    i = i + 1;
                }
            }
            assert(parts@ =~= planned_parts(total_size, range_capable, connections));
        },
    }
    parts
}

} // verus!
