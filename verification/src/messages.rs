//! The message that every data source publishes to the dashboard.

use vstd::prelude::*;

use serde_json::Value;

use crate::ids::{is_random_uuid, new_random_uuid};
use crate::keyed::KeyedList;
use crate::time::{now, Timestamp};

verus! {

/// What a dashboard message carries.
#[derive(Clone, Copy, Debug, PartialEq, Eq, Structural)]
pub enum MessageType {
    Data,
    Event,
    Value,
}

/// A dashboard message: identity and creation time, which never change, and
/// optional content, each change of which is stamped with the time it
/// happened; reading the value or the extra data stamps the access time.
#[derive(Debug)]
pub struct DashboardMessage {
    id: u128,
    create_timestamp: Timestamp,
    msg_type: MessageType,
    mod_timestamp: Option<Timestamp>,
    last_access_timestamp: Option<Timestamp>,
    value: Option<Value>,
    source: Option<String>,
    storage: Option<String>,
    metadata: Option<KeyedList<Value>>,
    other: Option<Value>,
}

/// The content of a `DashboardMessage`, with strings as their characters and
/// metadata as a map.
pub struct DashboardMessageView {
    pub id: u128,
    pub create_timestamp: Timestamp,
    pub msg_type: MessageType,
    pub mod_timestamp: Option<Timestamp>,
    pub last_access_timestamp: Option<Timestamp>,
    pub value: Option<Value>,
    pub source: Option<Seq<char>>,
    pub storage: Option<Seq<char>>,
    pub metadata: Option<Map<Seq<char>, Value>>,
    pub other: Option<Value>,
}

/// The characters of an optional string.
pub open spec fn text_of(o: Option<String>) -> Option<Seq<char>> {
    match o {
        Some(s) => Some(s@),
        None => None,
    }
}

impl DashboardMessageView {
    /// A fresh message of type `t`: only identity, creation time and type set.
    pub open spec fn fresh(id: u128, created: Timestamp, t: MessageType) -> Self {
        DashboardMessageView {
            id,
            create_timestamp: created,
            msg_type: t,
            mod_timestamp: None,
            last_access_timestamp: None,
            value: None,
            source: None,
            storage: None,
            metadata: None,
            other: None,
        }
    }

    pub open spec fn with_value(self, v: Value, at: Timestamp) -> Self {
        DashboardMessageView { value: Some(v), mod_timestamp: Some(at), ..self }
    }

    pub open spec fn with_source(self, s: Seq<char>, at: Timestamp) -> Self {
        DashboardMessageView { source: Some(s), mod_timestamp: Some(at), ..self }
    }

    pub open spec fn with_storage(self, s: Seq<char>, at: Timestamp) -> Self {
        DashboardMessageView { storage: Some(s), mod_timestamp: Some(at), ..self }
    }

    pub open spec fn with_other(self, v: Value, at: Timestamp) -> Self {
        DashboardMessageView { other: Some(v), mod_timestamp: Some(at), ..self }
    }

    /// The metadata, or no entries where there is none yet.
    pub open spec fn metadata_or_empty(self) -> Map<Seq<char>, Value> {
        match self.metadata {
            Some(m) => m,
            None => Map::empty(),
        }
    }

    pub open spec fn with_metadata_entry(self, k: Seq<char>, v: Value, at: Timestamp) -> Self {
        DashboardMessageView {
            metadata: Some(self.metadata_or_empty().insert(k, v)),
            mod_timestamp: Some(at),
            ..self
        }
    }

    pub open spec fn accessed_at(self, at: Timestamp) -> Self {
        DashboardMessageView { last_access_timestamp: Some(at), ..self }
    }
}

impl View for DashboardMessage {
    type V = DashboardMessageView;

    closed spec fn view(&self) -> DashboardMessageView {
        DashboardMessageView {
            id: self.id,
            create_timestamp: self.create_timestamp,
            msg_type: self.msg_type,
            mod_timestamp: self.mod_timestamp,
            last_access_timestamp: self.last_access_timestamp,
            value: self.value,
            source: text_of(self.source),
            storage: text_of(self.storage),
            metadata: match self.metadata {
                Some(m) => Some(m.as_map()),
                None => None,
            },
            other: self.other,
        }
    }
}


/// No change of content touches a message's identity: id, creation time and
/// type stay as they were through every setter and every read.
pub proof fn lemma_identity_is_kept(m: DashboardMessageView, v: Value, s: Seq<char>, k: Seq<char>, at: Timestamp)
    ensures
        ({
            let same = |n: DashboardMessageView|
                n.id == m.id && n.create_timestamp == m.create_timestamp && n.msg_type == m.msg_type;
            &&& same(m.with_value(v, at))
            &&& same(m.with_source(s, at))
            &&& same(m.with_storage(s, at))
            &&& same(m.with_other(v, at))
            &&& same(m.with_metadata_entry(k, v, at))
            &&& same(m.accessed_at(at))
        }),
{
}

/// Reading gives back what was last written: the value after `set_value`,
/// the extra data after `set_other`, whatever was read or written in between
/// to other parts.
pub proof fn lemma_read_after_write(m: DashboardMessageView, v: Value, s: Seq<char>, k: Seq<char>, at: Timestamp, later: Timestamp)
    ensures
        m.with_value(v, at).accessed_at(later).value == Some(v),
        m.with_value(v, at).with_source(s, later).with_storage(s, later).with_metadata_entry(k, v, later).value == Some(v),
        m.with_other(v, at).accessed_at(later).other == Some(v),
        m.with_other(v, at).with_value(v, later).other == Some(v),
{
}

/// A fresh message holds exactly the identity, creation time and type it was
/// made with, and nothing else.
pub proof fn lemma_fresh_message(id: u128, created: Timestamp, t: MessageType)
    ensures
        DashboardMessageView::fresh(id, created, t).id == id,
        DashboardMessageView::fresh(id, created, t).create_timestamp == created,
        DashboardMessageView::fresh(id, created, t).msg_type == t,
        DashboardMessageView::fresh(id, created, t).mod_timestamp is None,
        DashboardMessageView::fresh(id, created, t).last_access_timestamp is None,
        DashboardMessageView::fresh(id, created, t).value is None,
        DashboardMessageView::fresh(id, created, t).source is None,
        DashboardMessageView::fresh(id, created, t).storage is None,
        DashboardMessageView::fresh(id, created, t).metadata is None,
        DashboardMessageView::fresh(id, created, t).other is None,
{
}

/// Each setter stores what it is given, whatever was there before, stamps
/// the change with the time given, and leaves every other part alone.
pub proof fn lemma_setters_overwrite(m: DashboardMessageView, v: Value, s: Seq<char>, at: Timestamp)
    ensures
        m.with_value(v, at).value == Some(v),
        m.with_source(s, at).source == Some(s),
        m.with_storage(s, at).storage == Some(s),
        m.with_other(v, at).other == Some(v),
        m.with_value(v, at).mod_timestamp == Some(at),
        m.with_source(s, at).mod_timestamp == Some(at),
        m.with_storage(s, at).mod_timestamp == Some(at),
        m.with_other(v, at).mod_timestamp == Some(at),
        m.with_value(v, at).source == m.source && m.with_value(v, at).storage == m.storage
            && m.with_value(v, at).other == m.other && m.with_value(v, at).metadata == m.metadata
            && m.with_value(v, at).last_access_timestamp == m.last_access_timestamp,
        m.with_source(s, at).value == m.value && m.with_source(s, at).storage == m.storage
            && m.with_source(s, at).other == m.other && m.with_source(s, at).metadata == m.metadata
            && m.with_source(s, at).last_access_timestamp == m.last_access_timestamp,
        m.with_storage(s, at).value == m.value && m.with_storage(s, at).source == m.source
            && m.with_storage(s, at).other == m.other && m.with_storage(s, at).metadata == m.metadata
            && m.with_storage(s, at).last_access_timestamp == m.last_access_timestamp,
        m.with_other(v, at).value == m.value && m.with_other(v, at).source == m.source
            && m.with_other(v, at).storage == m.storage && m.with_other(v, at).metadata == m.metadata
            && m.with_other(v, at).last_access_timestamp == m.last_access_timestamp,
{
}

/// Two settings of the same part in a row leave the second one.
pub proof fn lemma_last_setting_wins(m: DashboardMessageView, v1: Value, v2: Value, s1: Seq<char>, s2: Seq<char>, t1: Timestamp, t2: Timestamp)
    ensures
        m.with_source(s1, t1).with_source(s2, t2).source == Some(s2),
        m.with_storage(s1, t1).with_storage(s2, t2).storage == Some(s2),
        m.with_value(v1, t1).with_value(v2, t2).value == Some(v2),
        m.with_other(v1, t1).with_other(v2, t2).other == Some(v2),
{
}

/// Adding a metadata entry stores the value under its key, keeps every other
/// key with its value, adds no other key, and stamps the change.
pub proof fn lemma_metadata_entry(m: DashboardMessageView, k: Seq<char>, v: Value, at: Timestamp, other: Seq<char>)
    ensures
        m.with_metadata_entry(k, v, at).metadata is Some,
        m.with_metadata_entry(k, v, at).metadata->0.contains_key(k),
        m.with_metadata_entry(k, v, at).metadata->0[k] == v,
        m.with_metadata_entry(k, v, at).mod_timestamp == Some(at),
        other != k ==> (m.with_metadata_entry(k, v, at).metadata->0.contains_key(other) <==> (m.metadata matches Some(md) && md.contains_key(other))),
        other != k && (m.metadata matches Some(md) && md.contains_key(other))
            ==> m.with_metadata_entry(k, v, at).metadata->0[other] == m.metadata->0[other],
        m.with_metadata_entry(k, v, at).value == m.value && m.with_metadata_entry(k, v, at).source == m.source
            && m.with_metadata_entry(k, v, at).storage == m.storage && m.with_metadata_entry(k, v, at).other == m.other,
{
}

/// A read changes nothing but the access time, which it sets to the time
/// given.
pub proof fn lemma_read_stamps_only_access(m: DashboardMessageView, at: Timestamp)
    ensures
        m.accessed_at(at).last_access_timestamp == Some(at),
        m.accessed_at(at).id == m.id && m.accessed_at(at).create_timestamp == m.create_timestamp
            && m.accessed_at(at).msg_type == m.msg_type && m.accessed_at(at).mod_timestamp == m.mod_timestamp
            && m.accessed_at(at).value == m.value && m.accessed_at(at).source == m.source
            && m.accessed_at(at).storage == m.storage && m.accessed_at(at).metadata == m.metadata
            && m.accessed_at(at).other == m.other,
{
}

/// Metadata behaves as a map: the last value added under a key is the one
/// kept, and entries under different keys can be added in either order.
pub proof fn lemma_metadata_is_a_map(
    m: DashboardMessageView,
    k1: Seq<char>,
    v1: Value,
    k2: Seq<char>,
    v2: Value,
    t1: Timestamp,
    t2: Timestamp,
)
    ensures
        m.with_metadata_entry(k1, v1, t1).with_metadata_entry(k1, v2, t2)
            == m.with_metadata_entry(k1, v2, t2),
        k1 != k2 ==> m.with_metadata_entry(k1, v1, t1).with_metadata_entry(k2, v2, t2).metadata
            == m.with_metadata_entry(k2, v2, t1).with_metadata_entry(k1, v1, t2).metadata,
        m.with_metadata_entry(k1, v1, t1).metadata->0[k1] == v1,
{
    assert(m.with_metadata_entry(k1, v1, t1).with_metadata_entry(k1, v2, t2).metadata->0
        =~= m.with_metadata_entry(k1, v2, t2).metadata->0);
    if k1 != k2 {
        assert(m.with_metadata_entry(k1, v1, t1).with_metadata_entry(k2, v2, t2).metadata->0
            =~= m.with_metadata_entry(k2, v2, t1).with_metadata_entry(k1, v1, t2).metadata->0);
    }
}

/// `a` is not later than `b`.
pub open spec fn not_after(a: Timestamp, b: Timestamp) -> bool {
    a.secs < b.secs || (a.secs == b.secs && a.nanos <= b.nanos)
}

/// No modification or access stamp of the message precedes its creation.
pub open spec fn stamps_follow_creation(m: DashboardMessageView) -> bool {
    &&& (m.mod_timestamp matches Some(t) ==> not_after(m.create_timestamp, t))
    &&& (m.last_access_timestamp matches Some(t) ==> not_after(m.create_timestamp, t))
}

/// While the clock does not go back, no stamp precedes the creation time: a
/// fresh message has no stamps, and every change or read stamped at a time
/// not before the creation keeps it so; the creation time itself never
/// changes.
pub proof fn lemma_stamps_follow_creation(
    m: DashboardMessageView,
    v: Value,
    s: Seq<char>,
    k: Seq<char>,
    at: Timestamp,
)
    requires
        stamps_follow_creation(m),
        not_after(m.create_timestamp, at),
    ensures
        stamps_follow_creation(DashboardMessageView::fresh(m.id, m.create_timestamp, m.msg_type)),
        stamps_follow_creation(m.with_value(v, at)),
        stamps_follow_creation(m.with_source(s, at)),
        stamps_follow_creation(m.with_storage(s, at)),
        stamps_follow_creation(m.with_other(v, at)),
        stamps_follow_creation(m.with_metadata_entry(k, v, at)),
        stamps_follow_creation(m.accessed_at(at)),
        m.with_value(v, at).create_timestamp == m.create_timestamp,
        m.with_metadata_entry(k, v, at).create_timestamp == m.create_timestamp,
        m.accessed_at(at).create_timestamp == m.create_timestamp,
{
}

/// The timestamp is `Some` reading of the clock.
pub open spec fn stamped(t: Option<Timestamp>) -> bool {
    t matches Some(at) && at.is_clock_reading()
}

impl DashboardMessage {
    #[verifier::type_invariant]
    spec fn metadata_well_formed(self) -> bool {
        self.metadata matches Some(m) ==> m.wf()
    }

    /// A new message of type `msg_type`, with a random identifier and the
    /// current time as its creation time.
    pub fn new(msg_type: MessageType) -> (m: Self)
        ensures
            m@ == DashboardMessageView::fresh(m@.id, m@.create_timestamp, msg_type),
            m@.msg_type == msg_type,
            m@.mod_timestamp is None,
            m@.last_access_timestamp is None,
            m@.value is None,
            m@.source is None,
            m@.storage is None,
            m@.metadata is None,
            m@.other is None,
            is_random_uuid(m@.id),
            m@.create_timestamp.is_clock_reading(),
    {
        DashboardMessage {
            id: new_random_uuid(),
            create_timestamp: now(),
            msg_type,
            mod_timestamp: None,
            last_access_timestamp: None,
            value: None,
            source: None,
            storage: None,
            metadata: None,
            other: None,
        }
    }

    /// Records `at` as the time of the latest change.
    fn touch_mod(&mut self, at: Timestamp)
        ensures
            final(self)@ == (DashboardMessageView { mod_timestamp: Some(at), ..old(self)@ }),
    {
        proof {
            use_type_invariant(&*self);
        }
        self.mod_timestamp = Some(at);
    }

    pub fn set_value(&mut self, value: Value)
        ensures
            stamped(final(self)@.mod_timestamp),
            final(self)@ == old(self)@.with_value(value, final(self)@.mod_timestamp->0),
            final(self)@.value == Some(value),
    {
        proof {
            use_type_invariant(&*self);
        }
        self.value = Some(value);
        self.touch_mod(now());
    }

    pub fn set_source(&mut self, source: &str)
        ensures
            stamped(final(self)@.mod_timestamp),
            final(self)@ == old(self)@.with_source(source@, final(self)@.mod_timestamp->0),
            final(self)@.source == Some(source@),
    {
        proof {
            use_type_invariant(&*self);
        }
        self.source = Some(source.to_owned());
        self.touch_mod(now());
    }

    pub fn set_storage(&mut self, storage: &str)
        ensures
            stamped(final(self)@.mod_timestamp),
            final(self)@ == old(self)@.with_storage(storage@, final(self)@.mod_timestamp->0),
            final(self)@.storage == Some(storage@),
    {
        proof {
            use_type_invariant(&*self);
        }
        self.storage = Some(storage.to_owned());
        self.touch_mod(now());
    }

    /// Stores `value` under `key` in the metadata, which is created empty
    /// where there is none yet; a value already under `key` is replaced.
    pub fn add_metadata(&mut self, key: &str, value: Value)
        ensures
            stamped(final(self)@.mod_timestamp),
            final(self)@ == old(self)@.with_metadata_entry(key@, value, final(self)@.mod_timestamp->0),
            final(self)@.metadata matches Some(md) && md.contains_key(key@) && md[key@] == value,
    {
        proof {
            use_type_invariant(&*self);
        }
        let mut current: Option<KeyedList<Value>> = None;
        std::mem::swap(&mut current, &mut self.metadata);
        let mut list = match current {
            Some(list) => list,
            None => KeyedList::new(),
        };
        list.insert(key.to_owned(), value);
        self.metadata = Some(list);
        self.touch_mod(now());
    }

    pub fn set_other(&mut self, other_data: Value)
        ensures
            stamped(final(self)@.mod_timestamp),
            final(self)@ == old(self)@.with_other(other_data, final(self)@.mod_timestamp->0),
            final(self)@.other == Some(other_data),
    {
        proof {
            use_type_invariant(&*self);
        }
        self.other = Some(other_data);
        self.touch_mod(now());
    }

    /// The value, stamping the access time.
    pub fn get_value(&mut self) -> (r: Option<&Value>)
        ensures
            stamped(final(self)@.last_access_timestamp),
            final(self)@ == old(self)@.accessed_at(final(self)@.last_access_timestamp->0),
            r is Some <==> old(self)@.value is Some,
            r matches Some(v) ==> *v == old(self)@.value->0,
    {
        proof {
            use_type_invariant(&*self);
        }
        self.last_access_timestamp = Some(now());
        self.value.as_ref()
    }

    /// The extra data, stamping the access time.
    pub fn get_other(&mut self) -> (r: Option<&Value>)
        ensures
            stamped(final(self)@.last_access_timestamp),
            final(self)@ == old(self)@.accessed_at(final(self)@.last_access_timestamp->0),
            r is Some <==> old(self)@.other is Some,
            r matches Some(v) ==> *v == old(self)@.other->0,
    {
        proof {
            use_type_invariant(&*self);
        }
        self.last_access_timestamp = Some(now());
        self.other.as_ref()
    }

    pub fn id(&self) -> (id: u128)
        ensures
            id == self@.id,
    {
        self.id
    }

    pub fn create_timestamp(&self) -> (t: Timestamp)
        ensures
            t == self@.create_timestamp,
    {
        self.create_timestamp
    }
    pub fn msg_type(&self) -> (t: MessageType)
        ensures
            t == self@.msg_type,
    {
        self.msg_type
    }

    pub fn mod_timestamp(&self) -> (t: Option<Timestamp>)
        ensures
            t == self@.mod_timestamp,
    {
        self.mod_timestamp
    }

    pub fn last_access_timestamp(&self) -> (t: Option<Timestamp>)
        ensures
            t == self@.last_access_timestamp,
    {
        self.last_access_timestamp
    }

    /// The value, without stamping the access time (for serialising).
    pub fn peek_value(&self) -> (r: Option<&Value>)
        ensures
            r is Some <==> self@.value is Some,
            r matches Some(v) ==> *v == self@.value->0,
    {
        self.value.as_ref()
    }

    /// The extra data, without stamping the access time (for serialising).
    pub fn peek_other(&self) -> (r: Option<&Value>)
        ensures
            r is Some <==> self@.other is Some,
            r matches Some(v) ==> *v == self@.other->0,
    {
        self.other.as_ref()
    }

    pub fn source(&self) -> (r: Option<&String>)
        ensures
            r is Some <==> self@.source is Some,
            r matches Some(s) ==> s@ == self@.source->0,
    {
        self.source.as_ref()
    }

    pub fn storage(&self) -> (r: Option<&String>)
        ensures
            r is Some <==> self@.storage is Some,
            r matches Some(s) ==> s@ == self@.storage->0,
    {
        self.storage.as_ref()
    }

    /// The metadata entries, in the order their keys were first added.
    pub fn metadata(&self) -> (r: Option<&KeyedList<Value>>)
        ensures
            r is Some <==> self@.metadata is Some,
            r matches Some(m) ==> m.wf() && m.as_map() == self@.metadata->0,
    {
        proof {
            use_type_invariant(self);
        }
        self.metadata.as_ref()
    }

    /// A message with the given content, as read back from its serialised
    /// form.
    pub fn from_parts(
        id: u128,
        create_timestamp: Timestamp,
        msg_type: MessageType,
        mod_timestamp: Option<Timestamp>,
        last_access_timestamp: Option<Timestamp>,
        value: Option<Value>,
        source: Option<String>,
        storage: Option<String>,
        metadata: Option<KeyedList<Value>>,
        other: Option<Value>,
    ) -> (m: Self)
        requires
            metadata matches Some(l) ==> l.wf(),
        ensures
            m@ == (DashboardMessageView {
                id,
                create_timestamp,
                msg_type,
                mod_timestamp,
                last_access_timestamp,
                value,
                source: text_of(source),
                storage: text_of(storage),
                metadata: match metadata {
                    Some(l) => Some(l.as_map()),
                    None => None,
                },
                other,
            }),
    {
        DashboardMessage {
            id,
            create_timestamp,
            msg_type,
            mod_timestamp,
            last_access_timestamp,
            value,
            source,
            storage,
            metadata,
            other,
        }
    }
}

impl Clone for DashboardMessage {
    /// A copy with the same identity, type, timestamps and texts, the same
    /// metadata keys, and JSON payloads cloned from the original's.
    fn clone(&self) -> (r: Self)
        ensures
            r@.id == self@.id,
            r@.create_timestamp == self@.create_timestamp,
            r@.msg_type == self@.msg_type,
            r@.mod_timestamp == self@.mod_timestamp,
            r@.last_access_timestamp == self@.last_access_timestamp,
            r@.source == self@.source,
            r@.storage == self@.storage,
            r@.value is Some <==> self@.value is Some,
            r@.value matches Some(v) ==> cloned::<Value>(self@.value->0, v),
            r@.other is Some <==> self@.other is Some,
            r@.other matches Some(v) ==> cloned::<Value>(self@.other->0, v),
            r@.metadata is Some <==> self@.metadata is Some,
            r@.metadata matches Some(m) ==> m.dom() == self@.metadata->0.dom(),
            r@.metadata matches Some(m) ==> forall|k: Seq<char>| #[trigger] m.contains_key(k)
                ==> cloned::<Value>(self@.metadata->0[k], m[k]),
    {
        proof {
            use_type_invariant(self);
        }
        let source = match &self.source {
            Some(s) => Some(s.clone()),
            None => None,
        };
        let storage = match &self.storage {
            Some(s) => Some(s.clone()),
            None => None,
        };
        let metadata = match &self.metadata {
            Some(list) => Some(list.clone()),
            None => None,
        };
        DashboardMessage {
            id: self.id,
            create_timestamp: self.create_timestamp,
            msg_type: self.msg_type,
            mod_timestamp: self.mod_timestamp,
            last_access_timestamp: self.last_access_timestamp,
            value: self.value.clone(),
            source,
            storage,
            metadata,
            other: self.other.clone(),
        }
    }
}

} // verus!
