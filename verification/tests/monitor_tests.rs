use common_models::monitor::{
    heartbeat_filter, heartbeat_topic, is_heartbeat_topic, status_log_level, ServiceRegistry,
    SILENCE_LIMIT_NS,
};
use common_models::system::{HeartbeatMessage, LogLevel, ServiceStatus};

fn hb(name: &str, status: ServiceStatus) -> HeartbeatMessage {
    HeartbeatMessage::new(name, status, 0)
}

const SEC: u64 = 1_000_000_000;

#[test]
fn heartbeat_topics() {
    assert_eq!(heartbeat_topic("mqtt-bridge-rpi"), "heartbeat/mqtt-bridge-rpi");
    assert_eq!(heartbeat_filter(), "heartbeat/#");
    assert!(is_heartbeat_topic("heartbeat/mqtt-bridge-rpi"));
    assert!(is_heartbeat_topic(&heartbeat_topic("any")));
    assert!(!is_heartbeat_topic("heartbeat"));
    assert!(!is_heartbeat_topic("raw/heartbeat/x"));
}

#[test]
fn status_levels() {
    assert_eq!(status_log_level(ServiceStatus::Healthy), Some(LogLevel::Info));
    assert_eq!(status_log_level(ServiceStatus::Degraded), Some(LogLevel::Warn));
    assert_eq!(status_log_level(ServiceStatus::Error), Some(LogLevel::Error));
    assert_eq!(status_log_level(ServiceStatus::Dead), None);
}

#[test]
fn recording_replaces_previous_heartbeat() {
    let mut r = ServiceRegistry::new();
    let out = r.record_heartbeat(hb("a", ServiceStatus::Healthy), 1 * SEC);
    assert!(!out.recovered);
    assert_eq!(out.level, Some(LogLevel::Info));
    let out = r.record_heartbeat(hb("a", ServiceStatus::Error), 2 * SEC);
    assert!(!out.recovered);
    assert_eq!(out.level, Some(LogLevel::Error));
    assert_eq!(r.len(), 1);
    let rec = r.get("a").unwrap();
    assert_eq!(rec.heartbeat.status, ServiceStatus::Error);
    assert_eq!(rec.last_seen_ns, 2 * SEC);
    assert!(r.get("b").is_none());
}

#[test]
fn watchdog_marks_silent_services_dead() {
    let mut r = ServiceRegistry::new();
    r.record_heartbeat(hb("old", ServiceStatus::Healthy), 0);
    r.record_heartbeat(hb("fresh", ServiceStatus::Degraded), 20 * SEC);
    let dead = r.mark_silent_services_dead(31 * SEC);
    assert_eq!(dead, vec!["old".to_string()]);
    assert_eq!(r.get("old").unwrap().heartbeat.status, ServiceStatus::Dead);
    assert_eq!(r.get("old").unwrap().last_seen_ns, 0);
    assert_eq!(r.get("fresh").unwrap().heartbeat.status, ServiceStatus::Degraded);
    // a second round names nobody again
    assert!(r.mark_silent_services_dead(40 * SEC).is_empty());
}

#[test]
fn watchdog_limit_is_strict() {
    let mut r = ServiceRegistry::new();
    r.record_heartbeat(hb("edge", ServiceStatus::Healthy), 5 * SEC);
    assert!(r.mark_silent_services_dead(5 * SEC + SILENCE_LIMIT_NS).is_empty());
    assert_eq!(r.get("edge").unwrap().heartbeat.status, ServiceStatus::Healthy);
    assert_eq!(r.mark_silent_services_dead(5 * SEC + SILENCE_LIMIT_NS + 1), vec!["edge".to_string()]);
}

#[test]
fn clock_before_last_seen_is_not_silence() {
    let mut r = ServiceRegistry::new();
    r.record_heartbeat(hb("x", ServiceStatus::Healthy), 100 * SEC);
    assert!(r.mark_silent_services_dead(0).is_empty());
}

#[test]
fn dead_service_recovers_on_heartbeat() {
    let mut r = ServiceRegistry::new();
    r.record_heartbeat(hb("svc", ServiceStatus::Healthy), 0);
    r.mark_silent_services_dead(60 * SEC);
    let out = r.record_heartbeat(hb("svc", ServiceStatus::Healthy), 61 * SEC);
    assert!(out.recovered);
    assert_eq!(out.level, Some(LogLevel::Info));
    assert_eq!(r.get("svc").unwrap().heartbeat.status, ServiceStatus::Healthy);
    let out = r.record_heartbeat(hb("svc", ServiceStatus::Healthy), 62 * SEC);
    assert!(!out.recovered);
}

#[test]
fn watchdog_reports_in_arrival_order() {
    let mut r = ServiceRegistry::new();
    r.record_heartbeat(hb("c", ServiceStatus::Healthy), 0);
    r.record_heartbeat(hb("a", ServiceStatus::Error), 0);
    r.record_heartbeat(hb("b", ServiceStatus::Dead), 0);
    let dead = r.mark_silent_services_dead(100 * SEC);
    assert_eq!(dead, vec!["c".to_string(), "a".to_string()]);
    assert_eq!(r.len(), 3);
}
