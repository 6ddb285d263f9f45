# common_models

Shared library of the home dashboard services, verified with Verus.

- `src/config.rs`: MQTT connection settings, their defaults, and the plan a
  client is created and connected with (address, TLS, credentials).
- `src/messages.rs`: dashboard messages; every change is stamped, reads stamp
  the access time, metadata is a map from key to JSON value.
- `src/system.rs`: heartbeats and log records.
- `src/monitor.rs`: the controller's registry of services and its watchdog.
- `src/bridge.rs`: naming and topics of the sensor bridge.
- `src/keyed.rs`, `src/text.rs`: a string-keyed list and string helpers.
- `src/ids.rs`, `src/time.rs`, `src/json.rs`: UUIDs, the clock and JSON values
  from the `uuid`, `chrono` and `serde_json` crates.

`app/` holds the programs (`controller`, `mqtt-bridge-rpi`): configuration
loading, logging, the MQTT clients and the JSON forms of the messages.
