use ghost_link_scanner::outcome::{classify_response, ProbeOutcome};
use ghost_link_scanner::plan::plan_scan;
use ghost_link_scanner::session::ScanSession;

fn urls(n: usize) -> Vec<String> {
    (0..n).map(|i| format!("https://example.com/{}", i)).collect()
}

#[test]
fn new_session_has_one_unsettled_task_per_target() {
    let session = ScanSession::new(urls(3), false);
    assert_eq!(session.task_count(), 3);
    assert_eq!(session.target(1), "https://example.com/1");
    assert!((0..3).all(|t| !session.is_settled(t)));
    assert!(!session.is_complete());
}

#[test]
fn empty_session_is_complete_with_nothing_to_report() {
    let session = ScanSession::new(Vec::new(), false);
    assert!(session.is_complete());
    assert!(session.report().is_none());
}

#[test]
fn healthy_probe_is_not_recorded_and_not_found_is() {
    let mut session = ScanSession::new(urls(2), false);
    session.record_outcome(0, &classify_response(Ok(200)));
    session.record_outcome(1, &classify_response(Ok(404)));
    assert!(session.is_complete());
    let rows = session.report().unwrap();
    assert_eq!(rows.len(), 1);
    assert_eq!(rows[0].number, 1);
    assert_eq!(rows[0].url, "https://example.com/1");
    assert!(rows[0].reason.contains("404"));
}

#[test]
fn no_dead_links_gives_no_report() {
    let mut session = ScanSession::new(urls(3), false);
    for t in 0..3 {
        session.record_outcome(t, &ProbeOutcome::Healthy);
    }
    assert!(session.is_complete());
    assert!(session.report().is_none());
}

#[test]
fn hundred_dead_outcomes_in_any_order_give_hundred_rows() {
    let mut session = ScanSession::new(urls(100), false);
    let order: Vec<usize> = (0..100).map(|k| (k * 37) % 100).collect();
    for &t in &order {
        session.record_outcome(t, &ProbeOutcome::Dead(500));
    }
    assert!(session.is_complete());
    let rows = session.report().unwrap();
    assert_eq!(rows.len(), 100);
    for (k, row) in rows.iter().enumerate() {
        assert_eq!(row.number, k + 1);
        assert_eq!(row.url, format!("https://example.com/{}", order[k]));
        assert_eq!(row.reason, "Dead (Status: 500)");
    }
}

#[test]
fn a_timed_out_probe_does_not_hold_back_the_others() {
    let mut session = ScanSession::new(urls(3), false);
    session.record_outcome(2, &ProbeOutcome::Dead(404));
    session.record_outcome(0, &ProbeOutcome::Healthy);
    assert!(!session.is_complete());
    session.record_outcome(1, &classify_response(Err("operation timed out".to_string())));
    assert!(session.is_complete());
    let rows = session.report().unwrap();
    assert_eq!(rows.len(), 1);
    assert_eq!(rows[0].url, "https://example.com/2");
}

#[test]
fn failed_probes_are_reported_when_asked() {
    let mut session = ScanSession::new(urls(2), true);
    session.record_outcome(0, &ProbeOutcome::Failed("dns error".to_string()));
    session.record_outcome(1, &ProbeOutcome::Healthy);
    let rows = session.report().unwrap();
    assert_eq!(rows.len(), 1);
    assert_eq!(rows[0].url, "https://example.com/0");
    assert_eq!(rows[0].reason, "dns error");
}

#[test]
fn a_failed_task_settles_without_a_record() {
    let mut session = ScanSession::new(urls(2), false);
    session.record_task_failure(0);
    assert!(session.is_settled(0));
    assert!(!session.is_complete());
    session.record_outcome(1, &ProbeOutcome::Dead(404));
    assert!(session.is_complete());
    let rows = session.report().unwrap();
    assert_eq!(rows.len(), 1);
    assert_eq!(rows[0].url, "https://example.com/1");
}

#[test]
fn page_with_ok_missing_and_malformed_links() {
    let page = r#"<html><body><a href="/ok">ok</a><a href="/missing">missing</a><a href="ftp://bad::url">bad</a></body></html>"#;
    let plan = plan_scan("http://127.0.0.1:8080/", page).unwrap();
    assert_eq!(plan.skipped.len(), 1);
    let mut session = ScanSession::new(plan.targets, false);
    assert_eq!(session.task_count(), 2);
    let statuses = [200u16, 404u16];
    for t in 0..session.task_count() {
        session.record_outcome(t, &classify_response(Ok(statuses[t])));
    }
    let rows = session.report().unwrap();
    assert_eq!(rows.len(), 1);
    assert_eq!(rows[0].number, 1);
    assert_eq!(rows[0].url, "http://127.0.0.1:8080/missing");
    assert_eq!(rows[0].reason, "Dead (Status: 404)");
}

#[test]
fn mixed_outcomes_each_recorded_once_in_settling_order() {
    let mut session = ScanSession::new(urls(5), false);
    session.record_outcome(3, &ProbeOutcome::Dead(404));
    session.record_outcome(0, &ProbeOutcome::Healthy);
    session.record_outcome(4, &ProbeOutcome::Failed("timed out".to_string()));
    session.record_outcome(1, &ProbeOutcome::Dead(500));
    session.record_outcome(2, &ProbeOutcome::Healthy);
    assert!(session.is_complete());
    let rows = session.report().unwrap();
    assert_eq!(rows.len(), 2);
    assert_eq!(rows[0].url, "https://example.com/3");
    assert_eq!(rows[0].reason, "Dead (Status: 404)");
    assert_eq!(rows[1].number, 2);
    assert_eq!(rows[1].url, "https://example.com/1");
    assert_eq!(rows[1].reason, "Dead (Status: 500)");
}
