use wallet_backend::jobs::{Job, JobBoard, CAPACITY};

#[test]
fn a_fresh_job_is_pending() {
    let mut board = JobBoard::new();
    let id = board.start();
    assert_eq!(board.take(&id), Job::Pending);
}

#[test]
fn ids_are_distinct() {
    let mut board = JobBoard::new();
    let a = board.start();
    let b = board.start();
    assert_ne!(a, b);
}

#[test]
fn a_completed_job_reads_ready_once_and_then_unknown() {
    let mut board = JobBoard::new();
    let id = board.start();
    board.complete(&id, "{\"ok\":true}".to_string());
    assert_eq!(board.take(&id), Job::Ready("{\"ok\":true}".to_string()));
    assert_eq!(board.take(&id), Job::Unknown);
}

#[test]
fn an_id_that_was_never_issued_is_unknown() {
    let mut board = JobBoard::new();
    assert_eq!(board.take("j999"), Job::Unknown);
}

#[test]
fn collecting_frees_the_slot() {
    let mut board = JobBoard::new();
    let id = board.start();
    assert_eq!(board.len(), 1);
    board.complete(&id, "x".to_string());
    let _ = board.take(&id);
    assert!(board.is_empty());
}

// The bound is the point: a caller that starts and never collects must not
// grow the board. The oldest slot goes, and it reads Unknown, an answer a
// caller can act on, rather than staying Pending for ever.
#[test]
fn the_board_is_bounded_and_evicts_the_oldest() {
    let mut board = JobBoard::new();
    let first = board.start();
    for _ in 1..CAPACITY {
        board.start();
    }
    assert_eq!(board.len(), CAPACITY);
    let newest = board.start();
    assert_eq!(board.len(), CAPACITY);
    assert_eq!(board.take(&first), Job::Unknown);
    assert_eq!(board.take(&newest), Job::Pending);
}

// A reply that lands after its slot was evicted is dropped, not resurrected.
#[test]
fn completing_an_evicted_job_does_not_resurrect_it() {
    let mut board = JobBoard::new();
    let first = board.start();
    for _ in 0..CAPACITY {
        board.start();
    }
    board.complete(&first, "late".to_string());
    assert_eq!(board.take(&first), Job::Unknown);
}

#[test]
fn slots_are_independent() {
    let mut board = JobBoard::new();
    let a = board.start();
    let b = board.start();
    board.complete(&a, "first".to_string());
    assert_eq!(board.take(&b), Job::Pending);
    assert_eq!(board.take(&a), Job::Ready("first".to_string()));
    assert_eq!(board.take(&b), Job::Pending);
    board.complete(&b, "second".to_string());
    assert_eq!(board.take(&b), Job::Ready("second".to_string()));
}

#[test]
fn ids_count_up_and_are_not_reused() {
    let mut board = JobBoard::new();
    assert_eq!(board.start(), "j1");
    assert_eq!(board.start(), "j2");
    board.complete("j2", "x".to_string());
    assert_eq!(board.take("j2"), Job::Ready("x".to_string()));
    assert_eq!(board.start(), "j3");
    assert_eq!(board.take("j2"), Job::Unknown);
}

#[test]
fn a_job_in_flight_stays_pending_however_often_it_is_asked_for() {
    let mut board = JobBoard::default();
    let id = board.start();
    for _ in 0..3 {
        assert_eq!(board.take(&id), Job::Pending);
    }
    assert_eq!(board.len(), 1);
}

#[test]
fn collecting_makes_room_before_anything_is_evicted() {
    let mut board = JobBoard::new();
    let mut ids = Vec::new();
    for _ in 0..CAPACITY {
        ids.push(board.start());
    }
    board.complete(&ids[5], "x".to_string());
    assert_eq!(board.take(&ids[5]), Job::Ready("x".to_string()));
    board.start();
    assert_eq!(board.take(&ids[0]), Job::Pending);
    board.start();
    assert_eq!(board.take(&ids[0]), Job::Unknown);
    assert_eq!(board.take(&ids[1]), Job::Pending);
}

#[test]
fn the_last_answer_parked_counts() {
    let mut board = JobBoard::new();
    let id = board.start();
    board.complete(&id, "one".to_string());
    board.complete(&id, "two".to_string());
    assert_eq!(board.take(&id), Job::Ready("two".to_string()));
}

#[test]
fn a_board_can_be_shown_for_debugging() {
    let mut board = JobBoard::new();
    board.start();
    assert!(format!("{board:?}").contains("j1"));
}
