use fetchurls::diag::{got_line, requesting_line, timestamp};
use fetchurls::dispatch::{Dispatch, Verdict};
use fetchurls::fetch::{decide_retry, FetchUnit, Outcome, Phase, Step, MAX_ELAPSED_MS};
use fetchurls::USER_AGENT;

#[test]
fn timestamp_pads_seconds_and_millis() {
    assert_eq!(timestamp(0), "[    0.000]");
    assert_eq!(timestamp(42), "[    0.042]");
    assert_eq!(timestamp(1000), "[    1.000]");
    assert_eq!(timestamp(5123), "[    5.123]");
    assert_eq!(timestamp(99_999_999), "[99999.999]");
    assert_eq!(timestamp(123_456_789), "[123456.789]");
}

#[test]
fn timestamp_matches_std_formatting() {
    for ms in [0u64, 7, 999, 1001, 61_234, 300_000, 86_400_123, u64::MAX] {
        let expected = format!("[{:5}.{:03}]", ms / 1000, ms % 1000);
        assert_eq!(timestamp(ms), expected);
    }
}

#[test]
fn lines_have_stamp_and_message() {
    assert_eq!(
        requesting_line(1500, "http://example.com/"),
        "[    1.500] requesting http://example.com/..."
    );
    assert_eq!(got_line(2, "http://example.com/"), "[    0.002] got http://example.com/");
}

#[test]
fn user_agent_names_tool_and_version() {
    assert_eq!(USER_AGENT, "fetchurls/0.1.0");
}

#[test]
fn decide_retry_keeps_next_attempt_in_budget() {
    assert_eq!(decide_retry(0, Some(500), MAX_ELAPSED_MS), Some(500));
    assert_eq!(decide_retry(299_800, Some(200), MAX_ELAPSED_MS), Some(200));
    assert_eq!(decide_retry(299_900, Some(200), MAX_ELAPSED_MS), None);
    assert_eq!(decide_retry(0, None, MAX_ELAPSED_MS), None);
    assert_eq!(decide_retry(400_000, Some(0), MAX_ELAPSED_MS), None);
    assert_eq!(decide_retry(0, Some(u128::MAX), MAX_ELAPSED_MS), None);
}

fn fail_then_succeed(k: u32, status: u16) -> (Vec<String>, usize) {
    let url = "http://127.0.0.1:9/";
    let mut unit = FetchUnit::new(url.to_string());
    let mut lines = Vec::new();
    let mut gots = 0;
    for _ in 0..k {
        assert_eq!(unit.phase(), Phase::Ready);
        lines.push(unit.begin_attempt(10).expect("within budget"));
        match unit.on_outcome(Outcome::TransportError, 10) {
            Step::Retry(delay) => assert!(delay <= MAX_ELAPSED_MS),
            other => panic!("expected a retry, got {:?}", other),
        }
    }
    lines.push(unit.begin_attempt(20).expect("within budget"));
    match unit.on_outcome(Outcome::Response(status), 30) {
        Step::Got(line) => {
            assert_eq!(line, format!("[    0.030] got {}", url));
            gots += 1;
        }
        other => panic!("expected success, got {:?}", other),
    }
    assert_eq!(unit.phase(), Phase::Succeeded);
    (lines, gots)
}

#[test]
fn success_after_failures_writes_k_plus_one_requests() {
    let (lines, gots) = fail_then_succeed(3, 200);
    assert_eq!(lines.len(), 4);
    assert_eq!(gots, 1);
    assert_eq!(lines[0], "[    0.010] requesting http://127.0.0.1:9/...");
    assert_eq!(lines[3], "[    0.020] requesting http://127.0.0.1:9/...");
}

#[test]
fn first_attempt_success_writes_one_request() {
    let (lines, gots) = fail_then_succeed(0, 200);
    assert_eq!(lines.len(), 1);
    assert_eq!(gots, 1);
}

#[test]
fn any_status_is_success() {
    for status in [200u16, 404, 500] {
        let (lines, gots) = fail_then_succeed(1, status);
        assert_eq!(lines.len(), 2);
        assert_eq!(gots, 1);
    }
}

#[test]
fn no_attempt_after_budget() {
    let mut unit = FetchUnit::new("http://x/".to_string());
    assert!(unit.begin_attempt(1000).is_some());
    assert!(matches!(unit.on_outcome(Outcome::TransportError, 1000), Step::Retry(_)));
    assert_eq!(unit.begin_attempt(1000 + MAX_ELAPSED_MS + 1), None);
    assert_eq!(unit.phase(), Phase::Exhausted);
}

#[test]
fn attempt_at_budget_edge_is_made() {
    let mut unit = FetchUnit::new("http://x/".to_string());
    assert!(unit.begin_attempt(0).is_some());
    assert!(matches!(unit.on_outcome(Outcome::TransportError, 0), Step::Retry(_)));
    assert_eq!(
        unit.begin_attempt(MAX_ELAPSED_MS),
        Some("[  300.000] requesting http://x/...".to_string())
    );
    assert_eq!(unit.phase(), Phase::InFlight);
}

#[test]
fn failure_near_budget_gives_up() {
    let mut unit = FetchUnit::new("http://x/".to_string());
    assert!(unit.begin_attempt(0).is_some());
    // Any delay the policy proposes pushes the next attempt past the budget.
    assert!(matches!(
        unit.on_outcome(Outcome::TransportError, MAX_ELAPSED_MS),
        Step::Exhausted
    ));
    assert_eq!(unit.phase(), Phase::Exhausted);
}

#[test]
fn stamps_never_go_back() {
    let mut unit = FetchUnit::new("u".to_string());
    assert_eq!(unit.begin_attempt(1000), Some("[    1.000] requesting u...".to_string()));
    match unit.on_outcome(Outcome::Response(200), 500) {
        Step::Got(line) => assert_eq!(line, "[    1.000] got u"),
        other => panic!("expected success, got {:?}", other),
    }
}

#[test]
fn no_units_succeeds_at_once() {
    let d = Dispatch::new(0);
    assert_eq!(d.verdict(), Verdict::AllSucceeded);
    assert_eq!(d.units(), 0);
}

#[test]
fn first_failure_decides() {
    let mut d = Dispatch::new(3);
    assert_eq!(d.verdict(), Verdict::Pending);
    assert_eq!(d.report(1, true), Verdict::Pending);
    assert_eq!(d.report(0, false), Verdict::Failed(0));
    assert_eq!(d.report(2, true), Verdict::Failed(0));
    assert_eq!(d.report(2, false), Verdict::Failed(0));
}

#[test]
fn success_needs_every_unit() {
    let mut d = Dispatch::new(2);
    assert_eq!(d.report(1, true), Verdict::Pending);
    assert_eq!(d.report(1, true), Verdict::Pending);
    assert_eq!(d.report(0, true), Verdict::AllSucceeded);
}
