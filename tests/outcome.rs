use ghost_link_scanner::outcome::{classify_response, dead_status_reason, report_reason, ProbeOutcome};

#[test]
fn success_statuses_are_healthy() {
    assert!(matches!(classify_response(Ok(200)), ProbeOutcome::Healthy));
    assert!(matches!(classify_response(Ok(204)), ProbeOutcome::Healthy));
    assert!(matches!(classify_response(Ok(299)), ProbeOutcome::Healthy));
}

#[test]
fn other_statuses_are_dead() {
    assert!(matches!(classify_response(Ok(404)), ProbeOutcome::Dead(404)));
    assert!(matches!(classify_response(Ok(199)), ProbeOutcome::Dead(199)));
    assert!(matches!(classify_response(Ok(300)), ProbeOutcome::Dead(300)));
    assert!(matches!(classify_response(Ok(500)), ProbeOutcome::Dead(500)));
}

#[test]
fn transport_errors_are_failed() {
    match classify_response(Err("operation timed out".to_string())) {
        ProbeOutcome::Failed(e) => assert_eq!(e, "operation timed out"),
        other => panic!("unexpected outcome {:?}", other),
    }
}

#[test]
fn dead_reason_holds_the_status_code() {
    assert_eq!(dead_status_reason(404), "Dead (Status: 404)");
    assert_eq!(dead_status_reason(0), "Dead (Status: 0)");
    assert_eq!(dead_status_reason(7), "Dead (Status: 7)");
    assert_eq!(dead_status_reason(10), "Dead (Status: 10)");
    assert_eq!(dead_status_reason(503), "Dead (Status: 503)");
    assert_eq!(dead_status_reason(65535), "Dead (Status: 65535)");
}

#[test]
fn healthy_is_never_reported() {
    assert_eq!(report_reason(&ProbeOutcome::Healthy, false), None);
    assert_eq!(report_reason(&ProbeOutcome::Healthy, true), None);
}

#[test]
fn failed_is_reported_only_by_policy() {
    let failed = ProbeOutcome::Failed("connection refused".to_string());
    assert_eq!(report_reason(&failed, false), None);
    assert_eq!(report_reason(&failed, true), Some("connection refused".to_string()));
    assert_eq!(report_reason(&ProbeOutcome::Dead(410), false), Some("Dead (Status: 410)".to_string()));
}
