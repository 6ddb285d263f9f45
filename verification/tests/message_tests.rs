use common_models::messages::{DashboardMessage, MessageType};
use serde_json::Value;

#[test]
fn new_message_has_only_identity() {
    let m = DashboardMessage::new(MessageType::Value);
    assert_eq!(m.msg_type(), MessageType::Value);
    assert!(m.mod_timestamp().is_none());
    assert!(m.last_access_timestamp().is_none());
    assert!(m.peek_value().is_none());
    assert!(m.peek_other().is_none());
    assert!(m.source().is_none());
    assert!(m.storage().is_none());
    assert!(m.metadata().is_none());
    let id = uuid::Uuid::from_u128(m.id());
    assert_eq!(id.get_version_num(), 4);
    assert!(m.create_timestamp().secs > 1_600_000_000);
    assert!(m.create_timestamp().nanos < 1_000_000_000);
}

#[test]
fn ids_are_distinct() {
    let a = DashboardMessage::new(MessageType::Data);
    let b = DashboardMessage::new(MessageType::Data);
    assert_ne!(a.id(), b.id());
}

#[test]
fn set_value_then_get_value() {
    let mut m = DashboardMessage::new(MessageType::Value);
    let id = m.id();
    let created = m.create_timestamp();
    m.set_value(Value::from(22));
    assert!(m.mod_timestamp().is_some());
    assert!(m.last_access_timestamp().is_none());
    assert_eq!(m.get_value(), Some(&Value::from(22)));
    assert!(m.last_access_timestamp().is_some());
    assert_eq!(m.id(), id);
    assert_eq!(m.create_timestamp(), created);
}

#[test]
fn get_value_of_empty_message_is_none_but_stamps_access() {
    let mut m = DashboardMessage::new(MessageType::Event);
    assert_eq!(m.get_value(), None);
    assert!(m.last_access_timestamp().is_some());
    assert!(m.mod_timestamp().is_none());
    assert_eq!(m.get_other(), None);
}

#[test]
fn text_setters() {
    let mut m = DashboardMessage::new(MessageType::Data);
    m.set_source("mqtt-bridge--msh-internal_temp-ds2");
    m.set_storage("postgres");
    assert_eq!(m.source().map(|s| s.as_str()), Some("mqtt-bridge--msh-internal_temp-ds2"));
    assert_eq!(m.storage().map(|s| s.as_str()), Some("postgres"));
    assert!(m.mod_timestamp().is_some());
}

#[test]
fn other_data_round_trip() {
    let mut m = DashboardMessage::new(MessageType::Data);
    m.set_other(Value::from("extra"));
    assert_eq!(m.get_other(), Some(&Value::from("extra")));
    assert_eq!(m.peek_other(), Some(&Value::from("extra")));
}

#[test]
fn metadata_last_write_wins() {
    let mut m = DashboardMessage::new(MessageType::Data);
    m.add_metadata("unit", Value::from("C"));
    m.add_metadata("room", Value::from("kitchen"));
    m.add_metadata("unit", Value::from("K"));
    let md = m.metadata().unwrap();
    assert_eq!(md.len(), 2);
    assert_eq!(md.get("unit"), Some(&Value::from("K")));
    assert_eq!(md.get("room"), Some(&Value::from("kitchen")));
    assert_eq!(md.get("missing"), None);
    assert_eq!(md.key_at(0), "unit");
    assert_eq!(md.key_at(1), "room");
    assert!(m.mod_timestamp().is_some());
}

#[test]
fn modification_time_moves_forward_or_stays() {
    let mut m = DashboardMessage::new(MessageType::Data);
    m.set_source("a");
    let first = m.mod_timestamp().unwrap();
    m.set_storage("b");
    let second = m.mod_timestamp().unwrap();
    assert!((second.secs, second.nanos) >= (first.secs, first.nanos));
}

#[test]
fn clone_keeps_identity_and_content() {
    let mut m = DashboardMessage::new(MessageType::Event);
    m.set_value(Value::from(1.5));
    m.set_source("s");
    m.add_metadata("k", Value::from(true));
    let _ = m.get_other();
    let c = m.clone();
    assert_eq!(c.id(), m.id());
    assert_eq!(c.create_timestamp(), m.create_timestamp());
    assert_eq!(c.msg_type(), MessageType::Event);
    assert_eq!(c.mod_timestamp(), m.mod_timestamp());
    assert_eq!(c.last_access_timestamp(), m.last_access_timestamp());
    assert_eq!(c.peek_value(), Some(&Value::from(1.5)));
    assert_eq!(c.source().map(|s| s.as_str()), Some("s"));
    assert!(c.storage().is_none());
    assert_eq!(c.metadata().unwrap().get("k"), Some(&Value::from(true)));
    assert!(format!("{:?}", c).contains("DashboardMessage"));
}

#[test]
fn id_survives_every_operation() {
    let mut m = DashboardMessage::new(MessageType::Data);
    let i0 = m.id();
    m.set_value(Value::from(3));
    m.set_source("a");
    m.set_storage("b");
    m.set_other(Value::Null);
    m.add_metadata("x", Value::from(4));
    let _ = m.get_value();
    let _ = m.get_other();
    let m2 = m.clone();
    assert_eq!(m.id(), i0);
    assert_eq!(m2.id(), i0);
}
