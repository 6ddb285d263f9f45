use common_models::system::{HeartbeatMessage, LogLevel, LogMessage, ServiceStatus};

#[test]
fn heartbeat_new_fills_fields() {
    let hb = HeartbeatMessage::new("weather-fetcher", ServiceStatus::Degraded, 45);
    assert_eq!(hb.service_name, "weather-fetcher");
    assert_eq!(hb.status, ServiceStatus::Degraded);
    assert_eq!(hb.uptime_seconds, 45);
    assert!(hb.status_message.is_none());
    assert!(hb.timestamp.secs > 1_600_000_000);
    assert!(hb.timestamp.nanos < 1_000_000_000);
}

#[test]
fn log_message_new_fills_fields() {
    let m = LogMessage::new("parser", LogLevel::Warn, "bad payload");
    assert_eq!(m.service_name, "parser");
    assert_eq!(m.level, LogLevel::Warn);
    assert_eq!(m.message, "bad payload");
    assert!(m.code_location.is_none());
    assert!(m.timestamp.nanos < 1_000_000_000);
}
