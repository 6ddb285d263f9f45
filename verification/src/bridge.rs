//! Decisions of the bridge that forwards sensor readings from an external
//! broker into the dashboard's internal broker.

use vstd::prelude::*;

use crate::config::{opt_text, MqttConfig};
use crate::text::{append_slashes_to_dashes, slashes_to_dashes};

verus! {

/// The name under which the bridge reports its heartbeats.
pub const BRIDGE_SERVICE_NAME: &'static str = "mqtt-bridge-rpi";

/// Seconds between two heartbeats of the bridge; its reported uptime grows by
/// this much each time.
pub const HEARTBEAT_PERIOD_SECS: u64 = 15;

/// The uptime the bridge reports one heartbeat period after reporting
/// `uptime_seconds`.
pub fn next_uptime(uptime_seconds: u64) -> (next: u64)
    requires
        uptime_seconds + HEARTBEAT_PERIOD_SECS <= u64::MAX,
    ensures
        next == uptime_seconds + HEARTBEAT_PERIOD_SECS,
{
    uptime_seconds + HEARTBEAT_PERIOD_SECS
}

/// The source a reading on `topic` is attributed to: `mqtt-bridge-` followed
/// by the topic with every `/` turned into `-`.
pub open spec fn source_id_for(topic: Seq<char>) -> Seq<char> {
    "mqtt-bridge-"@ + slashes_to_dashes(topic)
}

/// Names the source of a reading received on `topic`; for example
/// `/msh/internal_temp/ds2` becomes `mqtt-bridge--msh-internal_temp-ds2`.
pub fn bridge_source_id(topic: &str) -> (id: String)
    ensures
        id@ == source_id_for(topic@),
        id@.len() == 12 + topic@.len(),
        id@.subrange(0, 12) == "mqtt-bridge-"@,
        forall|i: int| 0 <= i < topic@.len() ==> #[trigger] id@[12 + i]
            == (if topic@[i] == '/' { '-' } else { topic@[i] }),
{
    let mut id = String::from_str("mqtt-bridge-");
    proof {
        reveal_strlit("mqtt-bridge-");
    }
    append_slashes_to_dashes(&mut id, topic);
    id
}

/// The topic the bridge subscribes to on the external broker: the configured
/// one, or `msh/internal_temp/#`.
pub fn subscribe_topic(external: &MqttConfig) -> (topic: String)
    ensures
        topic@ == match opt_text(external.topic) {
            Some(t) => t,
            None => "msh/internal_temp/#"@,
        },
{
    match &external.topic {
        Some(t) => t.clone(),
        None => String::from_str("msh/internal_temp/#"),
    }
}

/// The topic the bridge publishes to on the internal broker: the configured
/// one, or `vnitrni/senzory/data`.
pub fn publish_topic(internal: &MqttConfig) -> (topic: String)
    ensures
        topic@ == match opt_text(internal.topic) {
            Some(t) => t,
            None => "vnitrni/senzory/data"@,
        },
{
    match &internal.topic {
        Some(t) => t.clone(),
        None => String::from_str("vnitrni/senzory/data"),
    }
}

/// A source name holds no `/` past its prefix, and one character for each
/// character of the topic.
pub proof fn lemma_source_id_shape(topic: Seq<char>)
    ensures
        source_id_for(topic).len() == "mqtt-bridge-"@.len() + topic.len(),
        !slashes_to_dashes(topic).contains('/'),
        source_id_for(topic).subrange(0, "mqtt-bridge-"@.len() as int) == "mqtt-bridge-"@,
{
    let p = "mqtt-bridge-"@;
    assert(source_id_for(topic).subrange(0, p.len() as int) =~= p);
    if slashes_to_dashes(topic).contains('/') {
        let i = choose|i: int| 0 <= i < slashes_to_dashes(topic).len() && slashes_to_dashes(topic)[i] == '/';
        assert(slashes_to_dashes(topic)[i] == crate::text::dash_for_slash(topic[i]));
    }
}

} // verus!
