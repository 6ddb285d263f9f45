//! Shared data model and decision logic of the home dashboard services:
//! MQTT connection settings, dashboard and heartbeat messages, and the
//! health bookkeeping that the controller keeps for every service.

pub mod bridge;
pub mod config;
pub mod ids;
pub mod json;
pub mod keyed;
pub mod messages;
pub mod monitor;
pub mod system;
pub mod text;
pub mod time;

pub use config::{plan_connection, ConnectionPlan, MqttConfig};
pub use keyed::KeyedList;
pub use messages::{DashboardMessage, MessageType};
pub use monitor::{HeartbeatOutcome, ServiceRecord, ServiceRegistry};
pub use system::{HeartbeatMessage, LogLevel, LogMessage, ServiceStatus};
pub use time::Timestamp;
