//! Settings for a connection to an MQTT broker, their defaults, and how a
//! connection is set up from them.

use vstd::prelude::*;

use crate::ids::{is_random_uuid, new_random_uuid, uuid_simple, uuid_simple_string};
use crate::text::{contains, decimal, has_prefix, occurs_at, occurs_in, starts_with, u16_to_decimal};

verus! {

/// Shared settings for connecting to an MQTT broker. Whatever a configuration
/// source leaves out takes its value from `MqttConfig::default()`.
#[derive(Clone, Debug)]
pub struct MqttConfig {
    pub host: String,
    pub port: u16,
    pub client_id: String,
    pub username: Option<String>,
    pub password: Option<String>,
    pub ca_cert_path: Option<String>,
    pub client_cert_path: Option<String>,
    pub client_key_path: Option<String>,
    pub insecure_skip_verify: Option<bool>,
    pub topic: Option<String>,
}

/// A client identifier of the form `dashboard-<uuid>`, with a random UUID in
/// its simple text form.
pub open spec fn is_generated_client_id(id: Seq<char>) -> bool {
    exists|bits: u128| is_random_uuid(bits) && id == "dashboard-"@ + uuid_simple(bits)
}

/// The option as the characters of its string.
pub open spec fn opt_text(o: Option<String>) -> Option<Seq<char>> {
    match o {
        Some(s) => Some(s@),
        None => None,
    }
}

impl Default for MqttConfig {
    /// A local broker on the standard port, with a fresh client identifier.
    fn default() -> (config: Self)
        ensures
            config.host@ == "127.0.0.1"@,
            config.port == 1883,
            is_generated_client_id(config.client_id@),
            config.username is None,
            config.password is None,
            config.ca_cert_path is None,
            config.client_cert_path is None,
            config.client_key_path is None,
            config.insecure_skip_verify is None,
            config.topic is None,
    {
        let bits = new_random_uuid();
        let mut client_id = String::from_str("dashboard-");
        let suffix = uuid_simple_string(bits);
        client_id.append(suffix.as_str());
        MqttConfig {
            host: String::from_str("127.0.0.1"),
            port: 1883,
            client_id,
            username: None,
            password: None,
            ca_cert_path: None,
            client_cert_path: None,
            client_key_path: None,
            insecure_skip_verify: None,
            topic: None,
        }
    }
}

/// The scheme put before the host: none where the host already names one,
/// TLS on the MQTT-over-TLS port 8883, plain TCP otherwise.
pub open spec fn scheme_for(host: Seq<char>, port: u16) -> Seq<char> {
    if occurs_in(host, "://"@) {
        Seq::empty()
    } else if port == 8883 {
        "ssl://"@
    } else {
        "tcp://"@
    }
}

/// The broker address: scheme, host, a colon and the port in decimal.
pub open spec fn server_uri_for(host: Seq<char>, port: u16) -> Seq<char> {
    scheme_for(host, port) + host + ":"@ + decimal(port as nat)
}

/// Everything the MQTT client is created and connected with.
#[derive(Clone, Debug)]
pub struct ConnectionPlan {
    /// Address of the broker, such as `tcp://127.0.0.1:1883`.
    pub server_uri: String,
    pub client_id: String,
    /// At most this many outgoing messages are buffered while offline.
    pub max_buffered_messages: i32,
    pub clean_session: bool,
    /// Reconnection is attempted automatically, waiting between these bounds.
    pub min_retry_secs: u64,
    pub max_retry_secs: u64,
    pub keep_alive_secs: u64,
    /// User name and password, given only where both are configured.
    pub credentials: Option<(String, String)>,
    /// TLS is used exactly where the address starts with `ssl://`.
    pub use_ssl: bool,
    /// Whether the broker's certificate is checked when TLS is used.
    pub verify_server_certificate: bool,
}

impl ConnectionPlan {
    /// The credentials as the characters of user name and password.
    pub open spec fn credential_text(self) -> Option<(Seq<char>, Seq<char>)> {
        match self.credentials {
            Some((u, p)) => Some((u@, p@)),
            None => None,
        }
    }
}

/// The credentials of a configuration: both user name and password, or none.
pub open spec fn credentials_of(config: MqttConfig) -> Option<(Seq<char>, Seq<char>)> {
    match (config.username, config.password) {
        (Some(u), Some(p)) => Some((u@, p@)),
        _ => None,
    }
}

/// Works out how to connect to the broker that `config` describes.
pub fn plan_connection(config: &MqttConfig) -> (plan: ConnectionPlan)
    ensures
        plan.server_uri@ == server_uri_for(config.host@, config.port),
        plan.client_id@ == config.client_id@,
        plan.use_ssl == has_prefix(plan.server_uri@, "ssl://"@),
        !occurs_in(config.host@, "://"@) ==> (plan.use_ssl <==> config.port == 8883),
        occurs_in(config.host@, "://"@) ==> (plan.use_ssl <==> has_prefix(config.host@, "ssl://"@)),
        plan.credential_text() == credentials_of(*config),
        plan.max_buffered_messages == 5000,
        plan.clean_session,
        plan.min_retry_secs == 1,
        plan.max_retry_secs == 60,
        plan.keep_alive_secs == 20,
        !plan.verify_server_certificate,
{
    let mut uri = if contains(config.host.as_str(), "://") {
        String::new()
    } else if config.port == 8883 {
        String::from_str("ssl://")
    } else {
        String::from_str("tcp://")
    };
    uri.append(config.host.as_str());
    uri.append(":");
    let port = u16_to_decimal(config.port);
    uri.append(port.as_str());
    let use_ssl = starts_with(uri.as_str(), "ssl://");
    proof {
        lemma_tls_choice(config.host@, config.port);
    }
    let credentials = match (&config.username, &config.password) {
        (Some(u), Some(p)) => Some((u.clone(), p.clone())),
        _ => None,
    };
    ConnectionPlan {
        server_uri: uri,
        client_id: config.client_id.clone(),
        max_buffered_messages: 5000,
        clean_session: true,
        min_retry_secs: 1,
        max_retry_secs: 60,
        keep_alive_secs: 20,
        credentials,
        use_ssl,
        verify_server_certificate: false,
    }
}

/// Whether a connection uses TLS: for a host without a scheme, exactly on
/// port 8883; for a host that names its scheme, exactly where that scheme
/// is `ssl://`.
pub proof fn lemma_tls_choice(host: Seq<char>, port: u16)
    ensures
        !occurs_in(host, "://"@) ==> (has_prefix(server_uri_for(host, port), "ssl://"@) <==> port == 8883),
        occurs_in(host, "://"@) ==> (has_prefix(server_uri_for(host, port), "ssl://"@) <==> has_prefix(host, "ssl://"@)),
{
    reveal_strlit("ssl://");
    reveal_strlit("tcp://");
    let uri = server_uri_for(host, port);
    let rest = host + ":"@ + decimal(port as nat);
    if !occurs_in(host, "://"@) {
        if port == 8883 {
            assert(uri == "ssl://"@ + rest);
            assert(uri.take(6) =~= "ssl://"@);
        } else {
            assert(uri == "tcp://"@ + rest);
            assert(uri[0] == 't');
            assert(uri.take(6)[0] != "ssl://"@[0]);
        }
    } else {
        assert(uri == rest);
        if host.len() >= 6 {
            assert(uri.take(6) =~= host.take(6));
        } else {
            reveal_strlit("://");
            let i = choose|i: int| occurs_at(host, "://"@, i);
            assert(host.subrange(i, i + 3)[0] == ':');
            assert(host[i] == ':');
            if uri.len() >= 6 && uri.take(6) == "ssl://"@ {
                assert(uri[i] == host[i]);
                assert(uri.take(6)[i] == uri[i]);
            }
        }
    }
}

} // verus!
