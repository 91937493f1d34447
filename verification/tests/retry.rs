use nel::report::NELReport;
use nel::reporter::{retry_delay, ReporterState, RETRY_TIMEOUT_MS};

fn report(n: u64) -> NELReport {
    NELReport::new(format!("https://h/{}", n), n)
}

#[test]
fn retry_backoff_floor_is_ten_milliseconds() {
    // A report that failed two timeouts ago sleeps exactly the floor:
    // not a negative or zero duration.
    let now = 2 * RETRY_TIMEOUT_MS + 123;
    assert_eq!(retry_delay(now, 123), 10);
}

#[test]
fn retry_delay_counts_down_to_the_floor() {
    assert_eq!(retry_delay(30000, 0), 30000);
    assert_eq!(retry_delay(0, 0), RETRY_TIMEOUT_MS);
    // A remainder of exactly the floor is kept as it is.
    assert_eq!(retry_delay(RETRY_TIMEOUT_MS - 10, 0), 10);
    // Remainders below the floor are raised to it, down to and past the
    // point where the whole timeout has elapsed.
    assert_eq!(retry_delay(RETRY_TIMEOUT_MS - 9, 0), 10);
    assert_eq!(retry_delay(RETRY_TIMEOUT_MS, 0), 10);
    assert_eq!(retry_delay(RETRY_TIMEOUT_MS + 1, 0), 10);
    // A clock that reads earlier than the attempt counts as no elapsed time.
    assert_eq!(retry_delay(5, 10), RETRY_TIMEOUT_MS);
}

#[test]
fn first_failure_arms_the_timer() {
    let mut state = ReporterState::new();
    assert!(!state.has_retry());
    let armed = state.on_post_failed(report(1), 100);
    assert_eq!(armed, Some(RETRY_TIMEOUT_MS));
    assert!(state.has_retry());
    assert_eq!(state.retry_report().unwrap().url, "https://h/1");
    // A second failure queues behind the armed one without re-arming.
    let queued = state.on_post_failed(report(2), 200);
    assert_eq!(queued, None);
    assert_eq!(state.retry_report().unwrap().url, "https://h/1");
}

#[test]
fn successful_retry_moves_to_next_queued() {
    let mut state = ReporterState::new();
    state.on_post_failed(report(1), 0);
    state.on_post_failed(report(2), 1000);
    // The first retry succeeded: the queued report becomes the armed one,
    // with the remainder of its own timeout.
    let next = state.after_retry(true, 31000);
    assert_eq!(next, Some(RETRY_TIMEOUT_MS - 30000));
    assert_eq!(state.retry_report().unwrap().url, "https://h/2");
    // Nothing is queued now: a successful retry disarms the timer.
    let done = state.after_retry(true, 32000);
    assert_eq!(done, None);
    assert!(!state.has_retry());
}

#[test]
fn failed_retry_requeues_the_report() {
    let mut state = ReporterState::new();
    state.on_post_failed(report(1), 0);
    // The retry failed and nothing else is queued: the same report is
    // re-queued and re-armed with a full timeout.
    let next = state.after_retry(false, 60000);
    assert_eq!(next, Some(RETRY_TIMEOUT_MS));
    assert_eq!(state.retry_report().unwrap().url, "https://h/1");
}

#[test]
fn retry_queue_is_bounded() {
    let mut state = ReporterState::new();
    state.on_post_failed(report(0), 0);
    // Queue capacity is 256: failures beyond the armed report plus the
    // queue are dropped.
    for i in 1..400u64 {
        assert_eq!(state.on_post_failed(report(i), i), None);
    }
    let mut seen = 0;
    while state.has_retry() {
        state.after_retry(true, 1000);
        seen += 1;
    }
    // The armed report plus a full queue.
    assert_eq!(seen, 257);
}
