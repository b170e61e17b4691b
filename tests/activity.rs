use argo_tunnel::activity::{ActivityEvent, ActivityEventType, ActivityFilter, ActivitySeverity, ActivityState};

fn event(n: u32, kind: ActivityEventType, severity: ActivitySeverity, at: Option<i64>, service: Option<u128>) -> ActivityEvent {
    ActivityEvent {
        id: format!("e{n}"),
        event_type: kind,
        timestamp: String::new(),
        at,
        description: format!("event {n}"),
        details: None,
        service_id: service,
        user_id: None,
        ip_address: None,
        severity,
    }
}

fn no_filter() -> ActivityFilter {
    ActivityFilter { event_type: None, severity: None, service_id: None, start: None, end: None, limit: None, offset: None }
}

fn ids(v: &[ActivityEvent]) -> Vec<String> {
    v.iter().map(|e| e.id.clone()).collect()
}

fn sample() -> ActivityState {
    let mut log = ActivityState::new(10);
    log.add_event(event(1, ActivityEventType::SshServiceConnected, ActivitySeverity::Info, Some(100), Some(7)));
    log.add_event(event(2, ActivityEventType::ServiceConnectionError, ActivitySeverity::Error, Some(200), Some(8)));
    log.add_event(event(3, ActivityEventType::SshServiceDisconnected, ActivitySeverity::Info, None, Some(7)));
    log.add_event(event(4, ActivityEventType::SshServiceConnected, ActivitySeverity::Info, Some(400), None));
    log
}

#[test]
fn newest_first_and_bounded() {
    let mut log = ActivityState::new(2);
    log.add_event(event(1, ActivityEventType::UserLogin, ActivitySeverity::Info, None, None));
    log.add_event(event(2, ActivityEventType::UserLogout, ActivitySeverity::Info, None, None));
    log.add_event(event(3, ActivityEventType::TokenRefresh, ActivitySeverity::Info, None, None));
    assert_eq!(ids(&log.get_events(None)), vec!["e3", "e2"]);
    assert_eq!(log.cleanup_old_events(), 2);
    assert!(log.get_events(None).is_empty());
}

#[test]
fn filter_by_type_severity_service() {
    let log = sample();
    let f = ActivityFilter { event_type: Some(ActivityEventType::SshServiceConnected), ..no_filter() };
    assert_eq!(ids(&log.get_events(Some(f))), vec!["e4", "e1"]);
    let f = ActivityFilter { severity: Some(ActivitySeverity::Error), ..no_filter() };
    assert_eq!(ids(&log.get_events(Some(f))), vec!["e2"]);
    let f = ActivityFilter { service_id: Some(7), ..no_filter() };
    assert_eq!(ids(&log.get_events(Some(f))), vec!["e3", "e1"]);
}

#[test]
fn filter_by_time_keeps_unknown_times() {
    let log = sample();
    let f = ActivityFilter { start: Some(150), end: Some(300), ..no_filter() };
    assert_eq!(ids(&log.get_events(Some(f))), vec!["e3", "e2"]);
}

#[test]
fn pagination() {
    let log = sample();
    let f = ActivityFilter { offset: Some(1), limit: Some(2), ..no_filter() };
    assert_eq!(ids(&log.get_events(Some(f))), vec!["e3", "e2"]);
    let f = ActivityFilter { offset: Some(4), ..no_filter() };
    assert!(log.get_events(Some(f)).is_empty());
    let f = ActivityFilter { limit: Some(10), ..no_filter() };
    assert_eq!(log.get_events(Some(f)).len(), 4);
    let f = ActivityFilter { limit: Some(0), ..no_filter() };
    assert!(log.get_events(Some(f)).is_empty());
}

#[test]
fn stats_by_type_severity_and_window() {
    let log = sample();
    let now = 400 + 86400 * 2;
    let stats = log.get_stats(now);
    assert_eq!(stats.total_events, 4);
    assert_eq!(stats.events_by_type.get("SshServiceConnected"), Some(&2));
    assert_eq!(stats.events_by_type.get("ServiceConnectionError"), Some(&1));
    assert_eq!(stats.events_by_type.get("UserLogin"), None);
    assert_eq!(stats.events_by_severity.get("Info"), Some(&3));
    assert_eq!(stats.events_by_severity.get("Error"), Some(&1));
    assert_eq!(stats.events_by_severity.get("Critical"), None);
    assert_eq!(stats.events_last_24h, 0);
    assert_eq!(stats.events_last_7d, 3);
    assert_eq!(stats.events_last_30d, 3);
    let stats = log.get_stats(400);
    assert_eq!(stats.events_last_24h, 3);
}

#[test]
fn event_names() {
    assert_eq!(ActivityEventType::ActivityLogExported.name(), "ActivityLogExported");
    assert_eq!(ActivitySeverity::Warning.name(), "Warning");
}
