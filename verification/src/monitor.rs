//! The controller's view of the system's health: the last heartbeat of every
//! service, and the watchdog that declares silent services dead.

use vstd::prelude::*;

use crate::keyed::KeyedList;
use crate::system::{HeartbeatMessage, LogLevel, ServiceStatus};
use crate::text::{has_prefix, starts_with};

verus! {

/// How long a service may stay silent before the watchdog declares it dead:
/// thirty seconds, in nanoseconds.
pub const SILENCE_LIMIT_NS: u64 = 30_000_000_000;

/// How often the watchdog looks at the registry, in seconds.
pub const WATCHDOG_PERIOD_SECS: u64 = 10;

/// Keep-alive interval of the controller's own broker connection, in seconds.
pub const CONTROLLER_KEEP_ALIVE_SECS: u64 = 5;

/// Capacity of the controller's outgoing request queue.
pub const CONTROLLER_QUEUE_CAPACITY: usize = 10;

/// Pause before the controller polls again after a network error, in seconds.
pub const RECONNECT_PAUSE_SECS: u64 = 3;

/// The topic on which service `service_name` publishes its heartbeats.
pub fn heartbeat_topic(service_name: &str) -> (topic: String)
    ensures
        topic@ == "heartbeat/"@ + service_name@,
{
    let mut topic = String::from_str("heartbeat/");
    topic.append(service_name);
    topic
}

/// The subscription filter that covers the heartbeats of all services.
pub fn heartbeat_filter() -> (filter: String)
    ensures
        filter@ == "heartbeat/#"@,
{
    String::from_str("heartbeat/#")
}

/// Whether a message on `topic` is a heartbeat.
pub fn is_heartbeat_topic(topic: &str) -> (b: bool)
    ensures
        b == has_prefix(topic@, "heartbeat/"@),
{
    starts_with(topic, "heartbeat/")
}

/// Every service's heartbeat topic is recognised as a heartbeat topic.
pub proof fn lemma_heartbeat_topics_recognised(service_name: Seq<char>)
    ensures
        has_prefix("heartbeat/"@ + service_name, "heartbeat/"@),
{
    let t = "heartbeat/"@ + service_name;
    assert(t.take("heartbeat/"@.len() as int) =~= "heartbeat/"@);
}

/// The last heartbeat of a service and when it arrived, in nanoseconds on the
/// controller's monotonic clock.
#[derive(Debug)]
pub struct ServiceRecord {
    pub heartbeat: HeartbeatMessage,
    pub last_seen_ns: u64,
}

/// The service has been silent for longer than the limit at `now_ns`; an
/// arrival time after `now_ns` counts as no silence at all.
pub open spec fn is_silent(r: ServiceRecord, now_ns: u64) -> bool {
    now_ns - r.last_seen_ns > SILENCE_LIMIT_NS
}

/// The record as the watchdog leaves it at `now_ns`: a silent service that is
/// not yet dead becomes dead, and nothing else changes.
pub open spec fn after_watch(r: ServiceRecord, now_ns: u64) -> ServiceRecord {
    if goes_dead(r, now_ns) {
        ServiceRecord {
            heartbeat: HeartbeatMessage { status: ServiceStatus::Dead, ..r.heartbeat },
            ..r
        }
    } else {
        r
    }
}

/// The watchdog marks this record dead at `now_ns`.
pub open spec fn goes_dead(r: ServiceRecord, now_ns: u64) -> bool {
    is_silent(r, now_ns) && r.heartbeat.status != ServiceStatus::Dead
}

/// The characters of each string.
pub open spec fn texts(v: Seq<String>) -> Seq<Seq<char>> {
    v.map_values(|s: String| s@)
}

/// A whole registry as the watchdog leaves it at `now_ns`.
pub open spec fn watched(m: Map<Seq<char>, ServiceRecord>, now_ns: u64) -> Map<Seq<char>, ServiceRecord> {
    Map::new(|k: Seq<char>| m.contains_key(k), |k: Seq<char>| after_watch(m[k], now_ns))
}

/// What the controller logs for a heartbeat of the given status: healthy at
/// info, degraded as a warning, errors as errors, and nothing for `Dead`.
pub open spec fn report_level(status: ServiceStatus) -> Option<LogLevel> {
    match status {
        ServiceStatus::Healthy => Some(LogLevel::Info),
        ServiceStatus::Degraded => Some(LogLevel::Warn),
        ServiceStatus::Error => Some(LogLevel::Error),
        ServiceStatus::Dead => None,
    }
}

/// The level at which the controller reports a heartbeat of `status`.
pub fn status_log_level(status: ServiceStatus) -> (level: Option<LogLevel>)
    ensures
        level == report_level(status),
        status == ServiceStatus::Healthy ==> level == Some(LogLevel::Info),
        status == ServiceStatus::Degraded ==> level == Some(LogLevel::Warn),
        status == ServiceStatus::Error ==> level == Some(LogLevel::Error),
        status == ServiceStatus::Dead ==> level is None,
{
    match status {
        ServiceStatus::Healthy => Some(LogLevel::Info),
        ServiceStatus::Degraded => Some(LogLevel::Warn),
        ServiceStatus::Error => Some(LogLevel::Error),
        ServiceStatus::Dead => None,
    }
}

/// What the controller makes of one incoming heartbeat.
#[derive(Clone, Copy, Debug, PartialEq, Eq, Structural)]
pub struct HeartbeatOutcome {
    /// The service had been declared dead and is heard from again.
    pub recovered: bool,
    /// The level at which to report the heartbeat, if at all.
    pub level: Option<LogLevel>,
}

/// A service heard from at `heard_ns` is not declared dead by a watchdog round
/// at `now_ns` within the silence limit: its record, with the status it
/// reported, comes through the round unchanged.
pub proof fn lemma_recent_heartbeat_survives_watch(
    m: Map<Seq<char>, ServiceRecord>,
    heartbeat: HeartbeatMessage,
    heard_ns: u64,
    now_ns: u64,
)
    requires
        now_ns <= heard_ns + SILENCE_LIMIT_NS,
    ensures
        ({
            let rec = ServiceRecord { heartbeat, last_seen_ns: heard_ns };
            let after = watched(m.insert(heartbeat.service_name@, rec), now_ns);
            &&& after.contains_key(heartbeat.service_name@)
            &&& after[heartbeat.service_name@] == rec
            &&& after[heartbeat.service_name@].heartbeat.status == heartbeat.status
        }),
{
}

/// A watchdog round at `now_ns` declares dead every service last heard from
/// more than thirty seconds earlier that is not dead already, whatever status
/// it reported; every other service keeps its record as it was; and no
/// service is added or dropped.
pub proof fn lemma_watchdog_round(m: Map<Seq<char>, ServiceRecord>, now_ns: u64)
    ensures
        watched(m, now_ns).dom() == m.dom(),
        forall|k: Seq<char>| #[trigger] m.contains_key(k)
            && now_ns - m[k].last_seen_ns > 30_000_000_000
            && m[k].heartbeat.status != ServiceStatus::Dead
            ==> goes_dead(m[k], now_ns)
                && watched(m, now_ns)[k].heartbeat.status == ServiceStatus::Dead
                && watched(m, now_ns)[k].heartbeat.service_name == m[k].heartbeat.service_name
                && watched(m, now_ns)[k].heartbeat.uptime_seconds == m[k].heartbeat.uptime_seconds
                && watched(m, now_ns)[k].heartbeat.timestamp == m[k].heartbeat.timestamp
                && watched(m, now_ns)[k].heartbeat.status_message == m[k].heartbeat.status_message
                && watched(m, now_ns)[k].last_seen_ns == m[k].last_seen_ns,
        forall|k: Seq<char>| #[trigger] m.contains_key(k)
            && (now_ns - m[k].last_seen_ns <= 30_000_000_000 || m[k].heartbeat.status == ServiceStatus::Dead)
            ==> !goes_dead(m[k], now_ns) && watched(m, now_ns)[k] == m[k],
{
    assert(watched(m, now_ns).dom() =~= m.dom());
}

/// The controller reports healthy services at info level, degraded ones as
/// warnings, failing ones as errors, and a dead status not at all.
pub proof fn lemma_report_levels(status: ServiceStatus)
    ensures
        report_level(status) == Some(LogLevel::Info) <==> status == ServiceStatus::Healthy,
        report_level(status) == Some(LogLevel::Warn) <==> status == ServiceStatus::Degraded,
        report_level(status) == Some(LogLevel::Error) <==> status == ServiceStatus::Error,
        report_level(status) is None <==> status == ServiceStatus::Dead,
{
}

/// After a watchdog round every service silent past the limit is dead, every
/// other record is untouched, a dead service stays dead, and no service is
/// added, dropped or given another arrival time.
pub proof fn lemma_watch_outcome(m: Map<Seq<char>, ServiceRecord>, now_ns: u64)
    ensures
        watched(m, now_ns).dom() == m.dom(),
        forall|k: Seq<char>| #[trigger] m.contains_key(k) ==> {
            let after = watched(m, now_ns)[k];
            &&& after.last_seen_ns == m[k].last_seen_ns
            &&& after.heartbeat.service_name == m[k].heartbeat.service_name
            &&& (is_silent(m[k], now_ns) ==> after.heartbeat.status == ServiceStatus::Dead)
            &&& (!is_silent(m[k], now_ns) ==> after == m[k])
            &&& (m[k].heartbeat.status == ServiceStatus::Dead ==> after.heartbeat.status == ServiceStatus::Dead)
        },
{
    assert(watched(m, now_ns).dom() =~= m.dom());
}

/// A second watchdog round at the same time changes nothing.
pub proof fn lemma_watch_idempotent(m: Map<Seq<char>, ServiceRecord>, now_ns: u64)
    ensures
        watched(watched(m, now_ns), now_ns) == watched(m, now_ns),
{
    assert(watched(watched(m, now_ns), now_ns) =~= watched(m, now_ns));
}

/// Rounds only move forward: a round at `now_ns` after one at `earlier_ns`
/// leaves the registry as a single round at `now_ns` would.
pub proof fn lemma_watch_rounds_compose(m: Map<Seq<char>, ServiceRecord>, earlier_ns: u64, now_ns: u64)
    requires
        earlier_ns <= now_ns,
    ensures
        watched(watched(m, earlier_ns), now_ns) == watched(m, now_ns),
{
    assert(watched(watched(m, earlier_ns), now_ns) =~= watched(m, now_ns));
}

/// The last heartbeat of every service that has sent one, by service name.
pub struct ServiceRegistry {
    services: KeyedList<ServiceRecord>,
}

impl View for ServiceRegistry {
    type V = Map<Seq<char>, ServiceRecord>;

    closed spec fn view(&self) -> Map<Seq<char>, ServiceRecord> {
        self.services.as_map()
    }
}

/// Every record is filed under the name its heartbeat carries.
pub open spec fn filed_by_name(m: Map<Seq<char>, ServiceRecord>) -> bool {
    forall|k: Seq<char>| #[trigger] m.contains_key(k) ==> m[k].heartbeat.service_name@ == k
}

impl ServiceRegistry {
    #[verifier::type_invariant]
    spec fn well_formed(self) -> bool {
        &&& self.services.wf()
        &&& filed_by_name(self.services.as_map())
    }

    /// A registry that has heard from no service.
    pub fn new() -> (r: Self)
        ensures
            r@ == Map::<Seq<char>, ServiceRecord>::empty(),
    {
        ServiceRegistry { services: KeyedList::new() }
    }

    /// The number of services heard from.
    pub fn len(&self) -> (n: usize)
        ensures
            n == self@.dom().len(),
    {
        proof {
            use_type_invariant(self);
        }
        self.services.len()
    }

    /// The record of service `name`, if it has been heard from.
    pub fn get(&self, name: &str) -> (r: Option<&ServiceRecord>)
        ensures
            r is Some <==> self@.contains_key(name@),
            r matches Some(rec) ==> *rec == self@[name@],
            r matches Some(rec) ==> rec.heartbeat.service_name@ == name@,
    {
        proof {
            use_type_invariant(self);
        }
        self.services.get(name)
    }

    /// Files `heartbeat`, received at `now_ns`, as the latest of its service,
    /// and says whether the service comes back from the dead and at which
    /// level to report it.
    pub fn record_heartbeat(&mut self, heartbeat: HeartbeatMessage, now_ns: u64) -> (outcome: HeartbeatOutcome)
        ensures
            final(self)@ == old(self)@.insert(
                heartbeat.service_name@,
                ServiceRecord { heartbeat, last_seen_ns: now_ns },
            ),
            outcome.recovered == (old(self)@.contains_key(heartbeat.service_name@)
                && old(self)@[heartbeat.service_name@].heartbeat.status == ServiceStatus::Dead),
            outcome.level == report_level(heartbeat.status),
    {
        proof {
            use_type_invariant(&*self);
        }
        let ghost pre = self@;
        let recovered = match self.services.get(heartbeat.service_name.as_str()) {
            Some(rec) => rec.heartbeat.status == ServiceStatus::Dead,
            None => false,
        };
        let level = status_log_level(heartbeat.status);
        let name = heartbeat.service_name.clone();
        let ghost key = name@;
        let mut services = KeyedList::new();
        std::mem::swap(&mut services, &mut self.services);
        services.insert(name, ServiceRecord { heartbeat, last_seen_ns: now_ns });
        proof {
            assert forall|k: Seq<char>| #[trigger] services.as_map().contains_key(k)
                implies services.as_map()[k].heartbeat.service_name@ == k by {
                if k != key {
                    assert(pre.contains_key(k));
                }
            }
        }
        self.services = services;
        HeartbeatOutcome { recovered, level }
    }
    /// The watchdog's round at `now_ns`: every service silent for longer than
    /// the limit, and not dead yet, is declared dead. Returns the names of
    /// the services so declared, each once.
    pub fn mark_silent_services_dead(&mut self, now_ns: u64) -> (newly_dead: Vec<String>)
        ensures
            final(self)@ == watched(old(self)@, now_ns),
            forall|k: Seq<char>| #[trigger] texts(newly_dead@).contains(k)
                <==> (old(self)@.contains_key(k) && goes_dead(old(self)@[k], now_ns)),
            texts(newly_dead@).no_duplicates(),
            final(self)@.dom() == old(self)@.dom(),
            forall|k: Seq<char>| #[trigger] old(self)@.contains_key(k)
                && now_ns - old(self)@[k].last_seen_ns > 30_000_000_000
                && old(self)@[k].heartbeat.status != ServiceStatus::Dead
                ==> final(self)@[k].heartbeat.status == ServiceStatus::Dead && texts(newly_dead@).contains(k),
            forall|k: Seq<char>| #[trigger] old(self)@.contains_key(k)
                && (now_ns - old(self)@[k].last_seen_ns <= 30_000_000_000
                || old(self)@[k].heartbeat.status == ServiceStatus::Dead)
                ==> final(self)@[k] == old(self)@[k] && !texts(newly_dead@).contains(k),
    {
        proof {
            use_type_invariant(&*self);
        }
        let ghost pre = self@;
        let mut services = KeyedList::new();
        std::mem::swap(&mut services, &mut self.services);
        let ghost orig = services;
        let n = services.len();
        let mut newly: Vec<String> = Vec::new();
        let mut i: usize = 0;
        while i < n
            invariant
                orig.wf(),
                orig.as_map() == pre,
                services.wf(),
                services.key_seq() == orig.key_seq(),
                n == orig.key_seq().len(),
                i <= n,
                forall|j: int| 0 <= j < i ==> #[trigger] services.val_seq()[j] == after_watch(orig.val_seq()[j], now_ns),
                forall|j: int| i <= j < n ==> #[trigger] services.val_seq()[j] == orig.val_seq()[j],
                forall|k: Seq<char>| #[trigger] texts(newly@).contains(k)
                    <==> exists|j: int| 0 <= j < i && orig.key_seq()[j] == k && goes_dead(orig.val_seq()[j], now_ns),
                forall|m: int, j: int| 0 <= m < newly@.len() && i <= j < n
                    ==> #[trigger] texts(newly@)[m] != #[trigger] orig.key_seq()[j],
                texts(newly@).no_duplicates(),
            decreases n - i,
        {
            let ghost before = newly@;
            let ghost vals0 = services.val_seq();
            proof {
                services.lemma_lengths();
                orig.lemma_lengths();
            }
            let rec = services.value_at_mut(i);
            let ghost rec0 = *rec;
            let dies = now_ns > rec.last_seen_ns && now_ns - rec.last_seen_ns > SILENCE_LIMIT_NS
                && rec.heartbeat.status != ServiceStatus::Dead;
            if dies {
                rec.heartbeat.status = ServiceStatus::Dead;
            }
            proof {
                assert(rec0 == orig.val_seq()[i as int]);
                assert(dies == goes_dead(rec0, now_ns));
                assert(services.val_seq() == vals0.update(i as int, after_watch(rec0, now_ns)));
            }
            if dies {
                let name = services.key_at(i).clone();
                newly.push(name);
                proof {
                    assert(texts(newly@) =~= texts(before).push(orig.key_seq()[i as int]));
                    assert forall|m: int| 0 <= m < before.len() implies texts(before)[m] != orig.key_seq()[i as int] by {
                        assert(texts(before)[m] != orig.key_seq()[i as int]);
                    }
                }
            }
            proof {
                assert forall|k: Seq<char>| #[trigger] texts(newly@).contains(k)
                    <==> exists|j: int| 0 <= j < i + 1 && orig.key_seq()[j] == k && goes_dead(orig.val_seq()[j], now_ns) by {
                    if texts(newly@).contains(k) && !texts(before).contains(k) {
                        let m = choose|m: int| 0 <= m < texts(newly@).len() && texts(newly@)[m] == k;
                        assert(m == before.len());
                    }
                    if exists|j: int| 0 <= j < i + 1 && orig.key_seq()[j] == k && goes_dead(orig.val_seq()[j], now_ns) {
                        let j = choose|j: int| 0 <= j < i + 1 && orig.key_seq()[j] == k && goes_dead(orig.val_seq()[j], now_ns);
                        if j == i {
                            assert(texts(newly@)[before.len() as int] == k);
                        } else {
                            assert(texts(before).contains(k));
                            let m = choose|m: int| 0 <= m < texts(before).len() && texts(before)[m] == k;
                            assert(texts(newly@)[m] == k);
                        }
                    }
                }
                assert forall|m: int, j: int| 0 <= m < newly@.len() && i + 1 <= j < n
                    implies #[trigger] texts(newly@)[m] != #[trigger] orig.key_seq()[j] by {
                    if m < before.len() {
                        assert(texts(newly@)[m] == texts(before)[m]);
                        assert(texts(before)[m] != orig.key_seq()[j]);
                    } else {
                        assert(texts(newly@)[m] == orig.key_seq()[i as int]);
                        orig.lemma_position(j);
                        orig.lemma_position(i as int);
                    }
                }
            }
            i = i + 1;
        }
        proof {
            assert forall|k: Seq<char>| #[trigger] services.as_map().contains_key(k) <==> pre.contains_key(k) by {
                services.lemma_contains(k);
                orig.lemma_contains(k);
            }
            assert forall|k: Seq<char>| services.as_map().contains_key(k)
                implies #[trigger] services.as_map()[k] == after_watch(pre[k], now_ns) by {
                orig.lemma_contains(k);
                let p = choose|p: int| 0 <= p < orig.key_seq().len() && orig.key_seq()[p] == k;
                orig.lemma_position(p);
                services.lemma_position(p);
            }
            assert(services.as_map() =~= watched(pre, now_ns));
            lemma_watchdog_round(pre, now_ns);
            assert forall|k: Seq<char>| #[trigger] texts(newly@).contains(k)
                <==> (pre.contains_key(k) && goes_dead(pre[k], now_ns)) by {
                orig.lemma_contains(k);
                if pre.contains_key(k) {
                    let p = choose|p: int| 0 <= p < orig.key_seq().len() && orig.key_seq()[p] == k;
                    orig.lemma_position(p);
                    if exists|j: int| 0 <= j < n && orig.key_seq()[j] == k && goes_dead(orig.val_seq()[j], now_ns) {
                        let j = choose|j: int| 0 <= j < n && orig.key_seq()[j] == k && goes_dead(orig.val_seq()[j], now_ns);
                        orig.lemma_position(j);
                    }
                }
            }
            assert forall|k: Seq<char>| #[trigger] services.as_map().contains_key(k)
                implies services.as_map()[k].heartbeat.service_name@ == k by {
                assert(pre.contains_key(k));
            }
        }
        self.services = services;
        newly
    }
}

} // verus!
