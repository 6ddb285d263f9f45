use common_models::bridge::{bridge_source_id, publish_topic, subscribe_topic, BRIDGE_SERVICE_NAME, HEARTBEAT_PERIOD_SECS};
use common_models::config::MqttConfig;

#[test]
fn source_id_from_topic() {
    assert_eq!(bridge_source_id("/msh/internal_temp/ds2"), "mqtt-bridge--msh-internal_temp-ds2");
    assert_eq!(bridge_source_id("msh/internal_temp/ds2"), "mqtt-bridge-msh-internal_temp-ds2");
    assert_eq!(bridge_source_id(""), "mqtt-bridge-");
    assert_eq!(bridge_source_id("plain"), "mqtt-bridge-plain");
}

#[test]
fn topics_default_when_not_configured() {
    let mut c = MqttConfig::default();
    assert_eq!(subscribe_topic(&c), "msh/internal_temp/#");
    assert_eq!(publish_topic(&c), "vnitrni/senzory/data");
    c.topic = Some("sensors/+".to_string());
    assert_eq!(subscribe_topic(&c), "sensors/+");
    assert_eq!(publish_topic(&c), "sensors/+");
}

#[test]
fn bridge_constants() {
    assert_eq!(BRIDGE_SERVICE_NAME, "mqtt-bridge-rpi");
    assert_eq!(HEARTBEAT_PERIOD_SECS, 15);
}

#[test]
fn uptime_grows_by_one_period() {
    assert_eq!(common_models::bridge::next_uptime(0), 15);
    assert_eq!(common_models::bridge::next_uptime(30), 45);
    assert_eq!(common_models::bridge::next_uptime(u64::MAX - 15), u64::MAX);
}
