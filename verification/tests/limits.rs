use kimmy_api::error::{ApiError, ErrorCode, Retry};
use kimmy_api::limits::{
    declared_length, drains, request_time_left, Drain, DrainCut, RequestLimits,
    BODY_DRAIN_TIMEOUT_MS, MAX_BODY_DRAIN_BYTES,
};

/// How many chunks of a body are pulled: by a reader that gives up past
/// `ceiling`, and then by the drain.
fn pulled(chunks: usize, chunk: usize, declared: Option<usize>, ceiling: usize) -> (u16, usize) {
    let mut pulled = 0;
    while pulled < chunks && pulled * chunk <= ceiling {
        pulled += 1;
    }
    let status = if pulled * chunk > ceiling { 413 } else { 200 };
    if drains(status, pulled == chunks) {
        let mut drain = Drain::new(declared, pulled * chunk);
        while drain.wants_more() && pulled < chunks {
            pulled += 1;
            drain.took(chunk);
        }
    }
    (status, pulled)
}

#[test]
fn the_rest_of_a_refused_body_is_read_before_the_413_is_answered() {
    let (status, pulled) = pulled(16, 1024, Some(16 * 1024), 1536);
    assert_eq!(status, 413);
    assert_eq!(pulled, 16, "the whole body should have been read");
}

#[test]
fn a_body_under_the_ceiling_is_not_touched_by_the_drain() {
    let (status, pulled) = pulled(4, 1024, Some(4096), 1 << 20);
    assert_eq!(status, 200);
    assert_eq!(pulled, 4);
    assert!(!drains(200, false));
}

#[test]
fn the_drain_stops_at_the_cap_rather_than_reading_a_body_forever() {
    for declared in [None, Some(usize::MAX / 2)] {
        let chunk = 64 * 1024;
        let (status, pulled) = pulled(1 << 20, chunk, declared, 1024);
        assert_eq!(status, 413);
        let read = pulled * chunk;
        assert!(read >= MAX_BODY_DRAIN_BYTES, "drained {read} bytes, under the cap");
        assert!(read <= MAX_BODY_DRAIN_BYTES + 2 * chunk, "drained {read} bytes, over the cap");
    }
}

#[test]
fn a_sender_that_stalls_is_answered_at_the_drain_deadline() {
    assert_eq!(BODY_DRAIN_TIMEOUT_MS, 2_000);
    let drain = Drain::new(Some(1 << 20), 2048);
    assert!(drain.wants_more());
    assert_eq!(drain.cut(true, false), Some(DrainCut::Deadline));
}

#[test]
fn a_drain_says_whether_the_cap_cut_it() {
    let mut drain = Drain::new(Some(100), 40);
    assert_eq!(drain.bound, 60);
    drain.took(59);
    assert!(drain.wants_more());
    assert_eq!(drain.cut(false, true), None);
    drain.took(10);
    assert!(!drain.wants_more());
    assert_eq!(drain.cut(false, false), Some(DrainCut::Cap));
    assert_eq!(drain.cut(false, true), None);
    assert_eq!(Drain::new(Some(10), 40).bound, 0);
    assert_eq!(Drain::new(None, 0).bound, MAX_BODY_DRAIN_BYTES);
}

#[test]
fn a_request_pending_at_the_deadline_is_answered_with_the_envelope() {
    let e = ApiError::timeout(30);
    assert_eq!(e.status, 503);
    assert_eq!(e.code, ErrorCode::Timeout);
    assert_eq!(e.code.as_str(), "timeout");
    assert_eq!(e.retry(), Retry::Wait);
    assert!(
        e.message.contains("request_timeout_secs"),
        "the message should name the setting an operator would change: {}",
        e.message
    );
}

#[test]
fn the_defaults_are_what_the_server_enforced_before_the_settings_existed() {
    let limits = RequestLimits::default();
    assert_eq!(limits.max_body_bytes, 2_097_152);
    assert_eq!(limits.request_timeout_ms, 30_000);
}

#[test]
fn the_time_left_runs_down_to_nothing() {
    assert_eq!(request_time_left(None, 5), None);
    assert_eq!(request_time_left(Some(10), 4), Some(6));
    assert_eq!(request_time_left(Some(10), 10), Some(0));
    assert_eq!(request_time_left(Some(10), 40), Some(0));
}

#[test]
fn a_declared_length_is_a_whole_number_or_none() {
    assert_eq!(declared_length("1024"), Some(1024));
    assert_eq!(declared_length("+7"), Some(7));
    for bad in ["", "-1", "1 ", "0x10", "99999999999999999999999"] {
        assert_eq!(declared_length(bad), None, "{bad:?}");
        assert_eq!(declared_length(bad), bad.parse::<usize>().ok(), "{bad:?}");
    }
}
