//! Service health reports (heartbeats) and log records.

use vstd::prelude::*;

use crate::time::{now, Timestamp};

verus! {

/// The health a service reports of itself.
#[derive(Clone, Copy, Debug, PartialEq, Eq, Structural)]
pub enum ServiceStatus {
    Healthy,
    /// Running, but something it depends on is failing (a database, say).
    Degraded,
    /// A fatal problem.
    Error,
    /// Set by the controller, never sent: the service has gone silent.
    Dead,
}

/// The periodic sign of life that a service publishes.
#[derive(Clone, Debug)]
pub struct HeartbeatMessage {
    pub service_name: String,
    pub status: ServiceStatus,
    pub uptime_seconds: u64,
    pub timestamp: Timestamp,
    /// A short description, such as the reason for a degraded status.
    pub status_message: Option<String>,
}

impl HeartbeatMessage {
    /// A heartbeat of `service_name`, stamped with the current time and
    /// without a status message.
    pub fn new(service_name: &str, status: ServiceStatus, uptime_seconds: u64) -> (hb: Self)
        ensures
            hb.service_name@ == service_name@,
            hb.status == status,
            hb.uptime_seconds == uptime_seconds,
            hb.timestamp.is_clock_reading(),
            hb.status_message is None,
    {
        HeartbeatMessage {
            service_name: service_name.to_owned(),
            status,
            uptime_seconds,
            timestamp: now(),
            status_message: None,
        }
    }
}

/// Severity of a log record.
#[derive(Clone, Copy, Debug, PartialEq, Eq, Structural)]
pub enum LogLevel {
    Trace,
    Debug,
    Info,
    Warn,
    Error,
}

/// A log record that a service publishes.
#[derive(Clone, Debug)]
pub struct LogMessage {
    pub service_name: String,
    pub level: LogLevel,
    pub message: String,
    pub timestamp: Timestamp,
    /// Where the record was made, such as a file name and line.
    pub code_location: Option<String>,
}

impl LogMessage {
    /// A log record stamped with the current time and without a module path.
    pub fn new(service_name: &str, level: LogLevel, message: &str) -> (m: Self)
        ensures
            m.service_name@ == service_name@,
            m.level == level,
            m.message@ == message@,
            m.timestamp.is_clock_reading(),
            m.code_location is None,
    {
        LogMessage {
            service_name: service_name.to_owned(),
            level,
            message: message.to_owned(),
            timestamp: now(),
            code_location: None,
        }
    }
}

} // verus!
