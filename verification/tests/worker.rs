use kitsune_core::worker::{
    backoff, range_header, Worker, WorkerAction, WorkerEvent, WorkerPhase, MAX_RETRIES,
};

fn streaming(start: u64, end: u64) -> Worker {
    let mut w = Worker::new(1, (start, end));
    assert_eq!(w.step(WorkerEvent::Wake), WorkerAction::Request { first: start, last: end });
    assert_eq!(w.step(WorkerEvent::Response { status: 206 }), WorkerAction::OpenFile { offset: start });
    assert_eq!(w.step(WorkerEvent::FileReady), WorkerAction::ReadChunk);
    w
}

#[test]
fn range_header_is_inclusive() {
    assert_eq!(range_header(0, 1023), "bytes=0-1023");
    assert_eq!(range_header(2_621_440, 5_242_879), "bytes=2621440-5242879");
    assert_eq!(range_header(u64::MAX, u64::MAX), "bytes=18446744073709551615-18446744073709551615");
}

#[test]
fn backoff_starts_at_one_second_and_doubles() {
    assert_eq!(MAX_RETRIES, 5);
    let seconds: Vec<u64> = (0..=5).map(backoff).collect();
    assert_eq!(seconds, vec![1, 2, 4, 8, 16, 32]);
}

#[test]
fn new_worker_is_ready() {
    let w = Worker::new(3, (10, 20));
    assert_eq!(w.id(), 3);
    assert_eq!(w.position(), 10);
    assert_eq!(w.end(), 20);
    assert_eq!(w.retries(), 0);
    assert_eq!(w.phase(), WorkerPhase::Ready);
    assert!(!w.is_finished());
}

#[test]
fn chunks_are_written_and_reported() {
    let mut w = streaming(100, 199);
    assert_eq!(w.phase(), WorkerPhase::Streaming);
    assert_eq!(w.step(WorkerEvent::Chunk { len: 60, stop_at: Some(199) }), WorkerAction::WriteChunk);
    assert_eq!(w.phase(), WorkerPhase::Writing { len: 60 });
    assert_eq!(w.position(), 100);
    assert_eq!(w.step(WorkerEvent::Written), WorkerAction::ReportProgress { bytes: 60 });
    assert_eq!(w.position(), 160);
    assert_eq!(w.step(WorkerEvent::Reported), WorkerAction::ReadChunk);
    assert_eq!(w.step(WorkerEvent::Chunk { len: 40, stop_at: None }), WorkerAction::WriteChunk);
    assert_eq!(w.step(WorkerEvent::Written), WorkerAction::ReportProgress { bytes: 40 });
    assert_eq!(w.step(WorkerEvent::Reported), WorkerAction::ReadChunk);
    assert_eq!(w.step(WorkerEvent::EndOfBody), WorkerAction::ReportCompleted);
    assert!(w.is_finished());
    assert_eq!(w.position(), 200);
}

#[test]
fn status_200_is_a_success_like_206() {
    for status in [200u16, 206, 204, 299] {
        let mut w = Worker::new(0, (5, 9));
        w.step(WorkerEvent::Wake);
        // The body is written from the offset that was asked for.
        assert_eq!(w.step(WorkerEvent::Response { status }), WorkerAction::OpenFile { offset: 5 });
    }
}

#[test]
fn other_statuses_fail_or_are_retried() {
    for status in [404u16, 403, 500, 416, 301, 199, 300, 100] {
        let mut w = Worker::new(0, (5, 9));
        w.step(WorkerEvent::Wake);
        assert_eq!(w.step(WorkerEvent::Response { status }), WorkerAction::ReportFailed);
        assert!(w.is_finished());
        assert_eq!(w.retries(), 0);
    }
    for status in [429u16, 503] {
        let mut w = Worker::new(0, (5, 9));
        w.step(WorkerEvent::Wake);
        assert_eq!(w.step(WorkerEvent::Response { status }), WorkerAction::Sleep { seconds: 1 });
        assert_eq!(w.phase(), WorkerPhase::Sleeping);
        assert_eq!(w.retries(), 1);
    }
}

#[test]
fn worker_gives_up_after_five_attempts() {
    let mut w = Worker::new(4, (0, 99));
    let mut slept = Vec::new();
    let mut requests = 0;
    let mut action = w.step(WorkerEvent::Wake);
    loop {
        match action {
            WorkerAction::Request { first, last } => {
                assert_eq!((first, last), (0, 99));
                requests += 1;
                action = w.step(WorkerEvent::RequestFailed);
            }
            WorkerAction::Sleep { seconds } => {
                slept.push(seconds);
                action = w.step(WorkerEvent::Wake);
            }
            other => {
                assert_eq!(other, WorkerAction::ReportFailed);
                break;
            }
        }
    }
    assert_eq!(requests, 5);
    assert_eq!(slept, vec![1, 2, 4, 8, 16]);
    assert_eq!(w.retries(), 5);
    assert!(w.is_finished());
}

#[test]
fn retry_resumes_at_the_position_reached() {
    let mut w = streaming(0, 99);
    w.step(WorkerEvent::Chunk { len: 30, stop_at: Some(99) });
    w.step(WorkerEvent::Written);
    w.step(WorkerEvent::Reported);
    assert_eq!(w.step(WorkerEvent::StreamFailed), WorkerAction::Sleep { seconds: 1 });
    assert_eq!(w.step(WorkerEvent::Wake), WorkerAction::Request { first: 30, last: 99 });
    assert_eq!(w.step(WorkerEvent::Response { status: 503 }), WorkerAction::Sleep { seconds: 2 });
    assert_eq!(w.step(WorkerEvent::Wake), WorkerAction::Request { first: 30, last: 99 });
    assert_eq!(w.retries(), 2);
}

#[test]
fn worker_stops_at_the_shared_boundary() {
    let mut w = streaming(0, 999);
    w.step(WorkerEvent::Chunk { len: 400, stop_at: Some(999) });
    w.step(WorkerEvent::Written);
    w.step(WorkerEvent::Reported);
    // The boundary was lowered below the position: the chunk is dropped.
    assert_eq!(
        w.step(WorkerEvent::Chunk { len: 400, stop_at: Some(399) }),
        WorkerAction::ReportCompleted
    );
    assert!(w.is_finished());
    assert_eq!(w.position(), 400);

    // At the boundary itself the worker stops too.
    let mut w = streaming(0, 999);
    w.step(WorkerEvent::Chunk { len: 400, stop_at: Some(999) });
    w.step(WorkerEvent::Written);
    w.step(WorkerEvent::Reported);
    assert_eq!(
        w.step(WorkerEvent::Chunk { len: 1, stop_at: Some(400) }),
        WorkerAction::ReportCompleted
    );

    // Below the boundary the whole chunk is written, even across it.
    let mut w = streaming(0, 999);
    assert_eq!(w.step(WorkerEvent::Chunk { len: 400, stop_at: Some(1) }), WorkerAction::WriteChunk);
    assert_eq!(w.step(WorkerEvent::Written), WorkerAction::ReportProgress { bytes: 400 });
}

#[test]
fn used_up_range_is_completed_without_a_request() {
    let mut w = Worker::new(2, (10, 9));
    assert_eq!(w.step(WorkerEvent::Wake), WorkerAction::ReportCompleted);
    assert!(w.is_finished());
    let mut w = Worker::new(2, (10, 10));
    assert_eq!(w.step(WorkerEvent::Wake), WorkerAction::Request { first: 10, last: 10 });
}

#[test]
fn file_failures_are_fatal() {
    let mut w = Worker::new(0, (0, 9));
    w.step(WorkerEvent::Wake);
    w.step(WorkerEvent::Response { status: 206 });
    assert_eq!(w.step(WorkerEvent::FileFailed), WorkerAction::ReportFailed);
    assert!(w.is_finished());

    let mut w = streaming(0, 9);
    w.step(WorkerEvent::Chunk { len: 4, stop_at: None });
    assert_eq!(w.step(WorkerEvent::FileFailed), WorkerAction::ReportFailed);
    assert!(w.is_finished());
    assert_eq!(w.position(), 0);
}

#[test]
fn worker_leaves_silently_when_the_coordinator_is_gone() {
    let mut w = streaming(0, 9);
    w.step(WorkerEvent::Chunk { len: 4, stop_at: None });
    w.step(WorkerEvent::Written);
    assert_eq!(w.step(WorkerEvent::ReceiverGone), WorkerAction::Exit);
    assert!(w.is_finished());
}

#[test]
fn finished_worker_and_stray_events_do_nothing() {
    let mut w = streaming(0, 9);
    // Events that do not belong to the phase.
    for event in [
        WorkerEvent::Wake,
        WorkerEvent::Response { status: 200 },
        WorkerEvent::RequestFailed,
        WorkerEvent::FileReady,
        WorkerEvent::FileFailed,
        WorkerEvent::Written,
        WorkerEvent::Reported,
        WorkerEvent::ReceiverGone,
    ] {
        assert_eq!(w.step(event), WorkerAction::Nothing);
        assert_eq!(w.phase(), WorkerPhase::Streaming);
    }
    assert_eq!(w.step(WorkerEvent::EndOfBody), WorkerAction::ReportCompleted);
    for event in [
        WorkerEvent::Wake,
        WorkerEvent::EndOfBody,
        WorkerEvent::StreamFailed,
        WorkerEvent::Chunk { len: 1, stop_at: None },
    ] {
        assert!(w.can_accept(event));
        assert_eq!(w.step(event), WorkerAction::Nothing);
        assert!(w.is_finished());
    }
}

#[test]
fn chunk_that_would_run_over_the_offsets_is_not_accepted() {
    let w = streaming(u64::MAX - 10, u64::MAX);
    assert!(w.can_accept(WorkerEvent::Chunk { len: 10, stop_at: None }));
    assert!(!w.can_accept(WorkerEvent::Chunk { len: 11, stop_at: None }));
    assert!(w.can_accept(WorkerEvent::EndOfBody));
    let ready = Worker::new(0, (u64::MAX, u64::MAX));
    assert!(ready.can_accept(WorkerEvent::Chunk { len: 11, stop_at: None }));
}
