use kitsune_core::coordinator::{
    all_parts_completed, count_active, find_part, find_victim, highest_id, plan_stops,
    plan_workers, Coordinator, DownloadError, OutputPlan, ProgressEvent, Reaction, StealPlan,
    StopOrder, WorkerPlan, WorkerStatus, FORWARD_INTERVAL_MS, SAVE_INTERVAL_MS, STEAL_THRESHOLD,
};
use kitsune_core::probe::new_download;
use kitsune_core::session::{DownloadPart, DownloadSession, DownloadState};

const MIB: u64 = 1024 * 1024;

fn part(id: u8, start: u64, end: u64, current: u64, completed: bool) -> DownloadPart {
    DownloadPart { id, start_byte: start, end_byte: end, current_byte: current, completed }
}

fn session(parts: Vec<DownloadPart>, total: u64) -> DownloadSession {
    DownloadSession {
        url: String::from("http://host/f"),
        output_path: String::from("/tmp/f"),
        total_size: Some(total),
        state: DownloadState::Pending,
        parts,
        connections: 2,
    }
}

fn started(parts: Vec<DownloadPart>, total: u64) -> Coordinator {
    Coordinator::start(session(parts, total), 0).0
}

/// The parts tile `[0, total - 1]`, ids are unique, and no part that is live
/// has run past the byte after its end.
fn sound(parts: &[DownloadPart], total: u64) -> bool {
    let mut covered = vec![0u8; total as usize];
    for p in parts {
        if p.start_byte > p.end_byte || p.end_byte >= total || p.start_byte > p.current_byte {
            return false;
        }
        if !p.completed && p.current_byte > p.end_byte + 1 {
            return false;
        }
        for b in p.start_byte..=p.end_byte {
            covered[b as usize] += 1;
        }
    }
    let unique = parts.iter().all(|p| parts.iter().filter(|q| q.id == p.id).count() == 1);
    unique && covered.iter().all(|c| *c == 1)
}

#[test]
fn constants_are_as_documented() {
    assert_eq!(STEAL_THRESHOLD, 5 * 1024 * 1024);
    assert_eq!(FORWARD_INTERVAL_MS, 50);
    assert_eq!(SAVE_INTERVAL_MS, 1000);
}

#[test]
fn status_codes() {
    assert_eq!(WorkerStatus::Progress.code(), 0);
    assert_eq!(WorkerStatus::Completed.code(), 1);
    assert_eq!(WorkerStatus::Failed.code(), 2);
    assert_eq!(WorkerStatus::from_code(0), Some(WorkerStatus::Progress));
    assert_eq!(WorkerStatus::from_code(1), Some(WorkerStatus::Completed));
    assert_eq!(WorkerStatus::from_code(2), Some(WorkerStatus::Failed));
    assert_eq!(WorkerStatus::from_code(3), None);
    assert_eq!(WorkerStatus::from_code(255), None);
}

#[test]
fn error_texts() {
    assert_eq!(DownloadError::WorkerFailed(7).to_string(), "Worker 7 reported failure");
    assert_eq!(DownloadError::WorkerFailed(255).to_string(), "Worker 255 reported failure");
    assert_eq!(DownloadError::Cancelled.to_string(), "cancelled");
}

#[test]
fn start_plans_a_worker_for_each_incomplete_part() {
    let parts = vec![
        part(0, 0, 99, 40, false),
        part(1, 100, 199, 200, true),
        part(5, 200, 299, 200, false),
    ];
    let (coordinator, plans) = Coordinator::start(session(parts.clone(), 300), 1234);
    assert_eq!(
        plans,
        vec![WorkerPlan { id: 0, start: 40, end: 99 }, WorkerPlan { id: 5, start: 200, end: 299 }]
    );
    assert_eq!(coordinator.session.state, DownloadState::Downloading);
    assert_eq!(coordinator.session.parts, parts);
    assert_eq!(coordinator.pending_bytes, 0);
    assert_eq!(coordinator.next_worker_id, 6);
    assert_eq!(coordinator.last_forward_ms, 1234);
    assert_eq!(coordinator.last_save_ms, 1234);
    assert_eq!(coordinator.active_workers(), 2);
    assert!(!coordinator.all_done());
    assert_eq!(plan_workers(&parts), plans);
    assert_eq!(highest_id(&parts), 5);
    assert_eq!(highest_id(&[].to_vec()), 0);
    assert_eq!(Coordinator::start(session(vec![], 0), 0).0.next_worker_id, 1);
    assert_eq!(
        Coordinator::start(session(vec![part(255, 0, 0, 0, false)], 1), 0).0.next_worker_id,
        256
    );
}

#[test]
fn output_file_is_created_only_when_missing() {
    let coordinator = started(vec![part(0, 0, 99, 0, false)], 100);
    assert_eq!(coordinator.output_plan(true), OutputPlan::Reuse);
    assert_eq!(coordinator.output_plan(false), OutputPlan::Create { length: Some(100) });
    let mut unknown = session(vec![part(0, 0, 0, 0, false)], 0);
    unknown.total_size = None;
    let coordinator = Coordinator::start(unknown, 0).0;
    assert_eq!(coordinator.output_plan(false), OutputPlan::Create { length: None });
}

#[test]
fn progress_moves_the_part_and_is_throttled() {
    let mut c = started(vec![part(0, 0, 99, 0, false), part(1, 100, 199, 100, false)], 200);
    // 10 ms after the start: nothing is forwarded yet.
    let r = c.on_message(1, 30, WorkerStatus::Progress, 10).unwrap();
    assert_eq!(r, Reaction { forward: None, steal: None });
    assert_eq!(c.session.parts[1], part(1, 100, 199, 130, false));
    assert_eq!(c.pending_bytes, 30);
    // 49 ms: still nothing.
    let r = c.on_message(0, 5, WorkerStatus::Progress, 49).unwrap();
    assert_eq!(r.forward, None);
    assert_eq!(c.pending_bytes, 35);
    // 50 ms: what is pending goes out under the id of the sender.
    let r = c.on_message(1, 20, WorkerStatus::Progress, 50).unwrap();
    assert_eq!(r.forward, Some(ProgressEvent { worker_id: 1, bytes: 55, active_workers: 2 }));
    assert_eq!(c.pending_bytes, 0);
    assert_eq!(c.last_forward_ms, 50);
    // The clock of the next event starts at 50.
    assert_eq!(c.on_message(1, 1, WorkerStatus::Progress, 99).unwrap().forward, None);
    assert_eq!(
        c.on_message(1, 1, WorkerStatus::Progress, 100).unwrap().forward,
        Some(ProgressEvent { worker_id: 1, bytes: 2, active_workers: 2 })
    );
    // A clock that went back forwards nothing.
    assert_eq!(c.on_message(1, 1, WorkerStatus::Progress, 20).unwrap().forward, None);
}

#[test]
fn a_part_is_completed_when_it_passes_its_end() {
    let mut c = started(vec![part(0, 0, 99, 0, false), part(1, 100, 199, 100, false)], 200);
    c.on_message(0, 99, WorkerStatus::Progress, 0).unwrap();
    assert_eq!(c.session.parts[0], part(0, 0, 99, 99, false));
    c.on_message(0, 1, WorkerStatus::Progress, 0).unwrap();
    assert_eq!(c.session.parts[0], part(0, 0, 99, 100, true));
    assert_eq!(c.active_workers(), 1);
    // A worker that ran past its end: the count goes on.
    c.on_message(1, 250, WorkerStatus::Progress, 0).unwrap();
    assert_eq!(c.session.parts[1], part(1, 100, 199, 350, true));
    assert!(c.all_done());
    assert!(sound(&c.session.parts, 200));
}

#[test]
fn completion_is_forwarded_at_once() {
    let mut c = started(vec![part(0, 0, 99, 0, false), part(1, 100, 199, 100, false)], 200);
    c.on_message(0, 10, WorkerStatus::Progress, 1).unwrap();
    let r = c.on_message(1, 0, WorkerStatus::Completed, 2).unwrap();
    assert_eq!(r.forward, Some(ProgressEvent { worker_id: 1, bytes: 10, active_workers: 1 }));
    assert_eq!(r.steal, None);
    // The part is marked, its count is left alone.
    assert_eq!(c.session.parts[1], part(1, 100, 199, 100, true));
}

#[test]
fn message_of_an_unknown_worker_changes_no_part() {
    let parts = vec![part(0, 0, 99, 0, false)];
    let mut c = started(parts.clone(), 100);
    let r = c.on_message(9, 5, WorkerStatus::Progress, 60).unwrap();
    assert_eq!(c.session.parts, parts);
    assert_eq!(r.forward, Some(ProgressEvent { worker_id: 9, bytes: 5, active_workers: 1 }));
}

#[test]
fn failure_fails_the_run_and_keeps_the_session() {
    let parts = vec![part(0, 0, 99, 10, false), part(1, 100, 199, 100, false)];
    let mut c = started(parts.clone(), 200);
    c.on_message(0, 5, WorkerStatus::Progress, 1).unwrap();
    let before = (c.session.parts.clone(), c.pending_bytes, c.next_worker_id, c.last_forward_ms);
    assert_eq!(c.on_message(1, 0, WorkerStatus::Failed, 500), Err(DownloadError::WorkerFailed(1)));
    assert_eq!(
        (c.session.parts.clone(), c.pending_bytes, c.next_worker_id, c.last_forward_ms),
        before
    );
    assert_eq!(c.session.state, DownloadState::Downloading);
}

#[test]
fn slowest_part_is_split_in_the_middle() {
    let total = 40 * MIB;
    let parts = vec![
        part(0, 0, 20 * MIB - 1, 4 * MIB, false),
        part(1, 20 * MIB, 40 * MIB - 1, 30 * MIB, false),
    ];
    let mut c = started(parts, total);
    let r = c.on_message(1, 0, WorkerStatus::Completed, 0).unwrap();
    // 16 MiB - 1 remain on part 0: it keeps the front half.
    let split = 4 * MIB + (20 * MIB - 1 - 4 * MIB) / 2;
    assert_eq!(split, 12_582_911);
    assert_eq!(
        r.steal,
        Some(StealPlan {
            victim: StopOrder { id: 0, stop_at: split },
            part: part(2, split + 1, 20 * MIB - 1, split + 1, false),
        })
    );
    assert_eq!(
        c.session.parts,
        vec![
            part(0, 0, split, 4 * MIB, false),
            part(1, 20 * MIB, 40 * MIB - 1, 30 * MIB, true),
            part(2, split + 1, 20 * MIB - 1, split + 1, false),
        ]
    );
    assert_eq!(c.next_worker_id, 3);
    // The event that goes out with the completion does not count the new part.
    assert_eq!(r.forward.unwrap().active_workers, 1);
    assert_eq!(c.active_workers(), 2);
    assert!(sound(&c.session.parts, total));
}

#[test]
fn the_part_with_most_remaining_is_the_victim() {
    let parts = vec![
        part(0, 0, 10 * MIB, 0, false),
        part(1, 20 * MIB, 40 * MIB, 20 * MIB, true),
        part(2, 50 * MIB, 62 * MIB, 50 * MIB, false),
        part(3, 70 * MIB, 82 * MIB, 70 * MIB, false),
        part(4, 90 * MIB, 95 * MIB, 90 * MIB, false),
    ];
    // Completed parts do not count; of two equal parts the first is taken.
    assert_eq!(find_victim(&parts), Some(2));
    assert_eq!(find_victim(&parts[..2].to_vec()), Some(0));
    assert_eq!(find_victim(&parts[4..].to_vec()), None);
    assert_eq!(find_victim(&vec![]), None);
    assert_eq!(find_part(&parts, 3), Some(3));
    assert_eq!(find_part(&parts, 9), None);
    assert_eq!(count_active(&parts), 4);
    assert!(!all_parts_completed(&parts));
    assert!(all_parts_completed(&parts[1..2].to_vec()));
    assert!(all_parts_completed(&vec![]));
}

#[test]
fn a_part_at_the_threshold_is_not_split() {
    // Exactly 5 MiB remain: not more than the threshold.
    let at = vec![part(0, 0, 5 * MIB, 0, false)];
    assert_eq!(find_victim(&at), None);
    let mut c = started(at.clone(), 5 * MIB + 1);
    assert_eq!(c.steal_work(), None);
    assert_eq!(c.session.parts, at);
    assert_eq!(c.next_worker_id, 1);
    // One byte more, and the part is split.
    let above = vec![part(0, 0, 5 * MIB + 1, 0, false)];
    assert_eq!(find_victim(&above), Some(0));
    let mut c = started(above, 5 * MIB + 2);
    let plan = c.steal_work().expect("the part is eligible");
    assert_eq!(plan.victim, StopOrder { id: 0, stop_at: 2_621_440 });
    assert_eq!(plan.part, part(1, 2_621_441, 5 * MIB + 1, 2_621_441, false));
    // Neither half is split again.
    assert_eq!(c.steal_work(), None);
    assert!(sound(&c.session.parts, 5 * MIB + 2));
}

#[test]
fn no_part_is_split_once_the_ids_are_used_up() {
    let parts = vec![part(255, 0, 20 * MIB, 0, false)];
    let mut c = started(parts.clone(), 20 * MIB + 1);
    assert_eq!(c.next_worker_id, 256);
    assert_eq!(c.steal_work(), None);
    assert_eq!(c.session.parts, parts);
    let parts = vec![part(254, 0, 20 * MIB, 0, false)];
    let mut c = started(parts, 20 * MIB + 1);
    assert_eq!(c.steal_work().map(|p| p.part.id), Some(255));
    assert_eq!(c.next_worker_id, 256);
    assert_eq!(c.steal_work(), None);
}

#[test]
fn repeated_splits_keep_the_parts_sound_and_progress_never_falls() {
    let total: u64 = 64 * MIB;
    let mut c = Coordinator::start(new_download("u", String::from("o"), 2, Some(total), true), 0).0;
    assert!(sound(&c.session.parts, total));
    let mut now = 0;
    for round in 0..40u64 {
        let before = c.session.parts.clone();
        let id = (round % c.session.parts.len() as u64) as u8;
        let status = if round % 3 == 2 { WorkerStatus::Completed } else { WorkerStatus::Progress };
        let bytes = if status == WorkerStatus::Progress { MIB + round * 1000 } else { 0 };
        now += 17;
        assert!(c.can_accept(id, bytes, status));
        c.on_message(id, bytes, status, now).unwrap();
        assert!(sound(&c.session.parts, total), "round {}", round);
        for (old, new) in before.iter().zip(c.session.parts.iter()) {
            assert_eq!(old.id, new.id);
            assert_eq!(old.start_byte, new.start_byte);
            assert!(new.current_byte >= old.current_byte);
            assert!(new.end_byte <= old.end_byte);
            assert!(!old.completed || new.completed);
        }
        // No byte is owed twice.
        let live: Vec<_> = c.session.parts.iter().filter(|p| !p.completed).collect();
        for a in &live {
            for b in &live {
                if a.id != b.id {
                    assert!(a.end_byte < b.current_byte || b.end_byte < a.current_byte);
                }
            }
        }
    }
    assert!(c.session.parts.len() > 2);
}

#[test]
fn counters_that_would_overflow_are_not_accepted() {
    let mut c = started(vec![part(0, 0, u64::MAX - 1, u64::MAX - 10, false)], u64::MAX);
    assert!(c.can_accept(0, 10, WorkerStatus::Progress));
    assert!(!c.can_accept(0, 11, WorkerStatus::Progress));
    assert!(c.can_accept(0, 11, WorkerStatus::Completed));
    assert!(c.can_accept(7, 11, WorkerStatus::Progress));
    assert!(c.can_accept(0, u64::MAX, WorkerStatus::Failed));
    c.pending_bytes = u64::MAX - 5;
    assert!(c.can_accept(7, 5, WorkerStatus::Progress));
    assert!(!c.can_accept(7, 6, WorkerStatus::Progress));
    assert!(!c.can_accept(7, 6, WorkerStatus::Completed));
}

#[test]
fn snapshots_are_due_once_a_second() {
    let mut c = Coordinator::start(session(vec![part(0, 0, 9, 0, false)], 10), 100).0;
    assert!(!c.save_due(100));
    assert!(!c.save_due(1099));
    assert_eq!(c.last_save_ms, 100);
    assert!(c.save_due(1100));
    assert_eq!(c.last_save_ms, 1100);
    assert!(!c.save_due(1101));
    assert!(!c.save_due(0));
    assert!(c.save_due(5000));
}

#[test]
fn finish_flushes_what_is_pending() {
    let mut c = started(vec![part(0, 0, 99, 0, false), part(1, 100, 199, 100, false)], 200);
    c.on_message(0, 100, WorkerStatus::Progress, 1).unwrap();
    c.on_message(1, 100, WorkerStatus::Progress, 2).unwrap();
    assert!(c.all_done());
    assert_eq!(c.finish(), Some(ProgressEvent { worker_id: 0, bytes: 200, active_workers: 0 }));
    assert_eq!(c.pending_bytes, 0);
    assert_eq!(c.session.state, DownloadState::Completed);
    assert_eq!(c.finish(), None);
    let session = c.into_session();
    assert_eq!(session.state, DownloadState::Completed);
    assert_eq!(session.parts.len(), 2);
}

#[test]
fn cancel_stops_every_live_worker_where_it_stands() {
    let parts = vec![
        part(0, 0, 99, 40, false),
        part(1, 100, 199, 200, true),
        part(2, 200, 299, 250, false),
    ];
    let mut c = started(parts.clone(), 300);
    let (orders, error) = c.cancel();
    assert_eq!(
        orders,
        vec![StopOrder { id: 0, stop_at: 40 }, StopOrder { id: 2, stop_at: 250 }]
    );
    assert_eq!(error, DownloadError::Cancelled);
    assert_eq!(error.to_string(), "cancelled");
    assert_eq!(c.session.state, DownloadState::Paused);
    assert_eq!(c.session.parts, parts);
    assert_eq!(plan_stops(&parts), orders);
}
