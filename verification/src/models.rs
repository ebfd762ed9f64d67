//! Data model of the engine: time windows, attribute key pairs, events,
//! tenant configuration, and the error and result types of the public
//! operations. Each executable type has a mathematical view used by contracts.
use vstd::prelude::*;
use vstd::string::StringExecFns;

use crate::text::lower_seq;
use crate::text::to_lowercase_string;

verus! {

/// The time granularity of a rollup bucket.
#[derive(Clone, Copy, Debug, PartialEq, Eq, Structural)]
pub enum WindowType {
    Hour,
    Day,
    Week,
    Month,
    AllTime,
}

impl DeepView for WindowType {
    type V = WindowType;

    open spec fn deep_view(&self) -> WindowType {
        *self
    }
}

/// Canonical lowercase name of a window, as it appears inside bucket
/// identifiers and collection names.
pub open spec fn window_name(w: WindowType) -> Seq<char> {
    match w {
        WindowType::Hour => "hour"@,
        WindowType::Day => "day"@,
        WindowType::Week => "week"@,
        WindowType::Month => "month"@,
        WindowType::AllTime => "alltime"@,
    }
}

impl WindowType {
    /// The canonical lowercase name of this window.
    pub fn name(&self) -> (r: String)
        ensures
            r@ == window_name(*self),
    {
        match *self {
            WindowType::Hour => String::from_str("hour"),
            WindowType::Day => String::from_str("day"),
            WindowType::Week => String::from_str("week"),
            WindowType::Month => String::from_str("month"),
            WindowType::AllTime => String::from_str("alltime"),
        }
    }
}

/// Mathematical view of a key/value attribute pair.
#[verifier::ext_equal]
pub struct KeyPairView {
    pub key: Seq<char>,
    pub value: Seq<char>,
}

impl KeyPairView {
    /// The same pair with key and value ASCII-lowercased.
    pub open spec fn lowered(self) -> KeyPairView {
        KeyPairView { key: lower_seq(self.key), value: lower_seq(self.value) }
    }
}

/// A key/value attribute pair whose comparisons for grouping are always
/// case-insensitive.
pub trait KeyPairing: Sized {
    spec fn kp_view(&self) -> KeyPairView;

    /// The lowercased key.
    fn key(&self) -> (r: String)
        ensures
            r@ == lower_seq(self.kp_view().key),
    ;

    /// The lowercased value.
    fn value(&self) -> (r: String)
        ensures
            r@ == lower_seq(self.kp_view().value),
    ;

    /// A copy of the pair with key and value lowercased.
    fn lowercase(&self) -> (r: Self)
        ensures
            r.kp_view() == self.kp_view().lowered(),
    ;
}

/// An attribute pair as stored on an event.
#[derive(Clone, Debug)]
pub struct KeyPair {
    pub key: String,
    pub value: String,
}

impl View for KeyPair {
    type V = KeyPairView;

    open spec fn view(&self) -> KeyPairView {
        KeyPairView { key: self.key@, value: self.value@ }
    }
}

impl DeepView for KeyPair {
    type V = KeyPairView;

    open spec fn deep_view(&self) -> KeyPairView {
        self.view()
    }
}

impl KeyPairing for KeyPair {
    open spec fn kp_view(&self) -> KeyPairView {
        self@
    }

    fn key(&self) -> (r: String)
        ensures
            r@ == lower_seq(self.kp_view().key),
    {
        to_lowercase_string(self.key.as_str())
    }

    fn value(&self) -> (r: String)
        ensures
            r@ == lower_seq(self.kp_view().value),
    {
        to_lowercase_string(self.value.as_str())
    }

    fn lowercase(&self) -> (r: Self)
        ensures
            r.kp_view() == self.kp_view().lowered(),
    {
        KeyPair { key: self.key(), value: self.value() }
    }
}

/// An attribute pair as submitted with a new event.
#[derive(Clone, Debug)]
pub struct NewKeyPair {
    pub key: String,
    pub value: String,
}

impl View for NewKeyPair {
    type V = KeyPairView;

    open spec fn view(&self) -> KeyPairView {
        KeyPairView { key: self.key@, value: self.value@ }
    }
}

impl DeepView for NewKeyPair {
    type V = KeyPairView;

    open spec fn deep_view(&self) -> KeyPairView {
        self.view()
    }
}

impl KeyPairing for NewKeyPair {
    open spec fn kp_view(&self) -> KeyPairView {
        self@
    }

    fn key(&self) -> (r: String)
        ensures
            r@ == lower_seq(self.kp_view().key),
    {
        to_lowercase_string(self.key.as_str())
    }

    fn value(&self) -> (r: String)
        ensures
            r@ == lower_seq(self.kp_view().value),
    {
        to_lowercase_string(self.value.as_str())
    }

    fn lowercase(&self) -> (r: Self)
        ensures
            r.kp_view() == self.kp_view().lowered(),
    {
        NewKeyPair { key: self.key(), value: self.value() }
    }
}

/// The views of a sequence of attribute pairs.
pub open spec fn attrs_of<K: KeyPairing>(kps: Seq<K>) -> Seq<KeyPairView> {
    kps.map_values(|k: K| k.kp_view())
}

/// A sequence of attribute pair views, each lowercased.
pub open spec fn lower_attrs(attrs: Seq<KeyPairView>) -> Seq<KeyPairView> {
    attrs.map_values(|a: KeyPairView| a.lowered())
}

/// Mathematical view of an embedded event summary.
#[verifier::ext_equal]
pub struct EmbeddedEventView {
    pub timestamp: int,
    pub raw_timestamp: int,
    pub ip_address: Option<Seq<char>>,
    pub event_type: Option<Seq<char>>,
}

/// The lightweight event summary appended to a bucket's history on merge.
#[derive(Clone, Debug)]
pub struct EmbeddedEvent {
    pub timestamp: i32,
    pub raw_timestamp: i64,
    pub ip_address: Option<String>,
    pub event_type: Option<String>,
}

impl View for EmbeddedEvent {
    type V = EmbeddedEventView;

    open spec fn view(&self) -> EmbeddedEventView {
        EmbeddedEventView {
            timestamp: self.timestamp as int,
            raw_timestamp: self.raw_timestamp as int,
            ip_address: self.ip_address.deep_view(),
            event_type: self.event_type.deep_view(),
        }
    }
}

impl DeepView for EmbeddedEvent {
    type V = EmbeddedEventView;

    open spec fn deep_view(&self) -> EmbeddedEventView {
        self.view()
    }
}

/// Mathematical view of a stored event.
#[verifier::ext_equal]
pub struct EventView {
    pub id: Seq<char>,
    pub keys: Seq<KeyPairView>,
    pub timestamp: int,
}

/// A raw event as kept in a tenant's event log.
#[derive(Clone, Debug)]
pub struct Event {
    pub id: String,
    pub keys: Vec<KeyPair>,
    pub timestamp: i32,
}

impl View for Event {
    type V = EventView;

    open spec fn view(&self) -> EventView {
        EventView { id: self.id@, keys: self.keys.deep_view(), timestamp: self.timestamp as int }
    }
}

impl DeepView for Event {
    type V = EventView;

    open spec fn deep_view(&self) -> EventView {
        self.view()
    }
}

/// Mathematical view of an incoming event.
#[verifier::ext_equal]
pub struct NewEventView {
    pub id: Option<Seq<char>>,
    pub keys: Seq<KeyPairView>,
    pub timestamp: int,
}

/// An incoming event: attributes plus a timestamp in seconds since the epoch.
#[derive(Clone, Debug)]
pub struct NewEvent {
    pub id: Option<String>,
    pub keys: Vec<NewKeyPair>,
    pub timestamp: i32,
}

impl View for NewEvent {
    type V = NewEventView;

    open spec fn view(&self) -> NewEventView {
        NewEventView {
            id: self.id.deep_view(),
            keys: self.keys.deep_view(),
            timestamp: self.timestamp as int,
        }
    }
}

impl DeepView for NewEvent {
    type V = NewEventView;

    open spec fn deep_view(&self) -> NewEventView {
        self.view()
    }
}

/// Mathematical view of a tenant configuration.
#[verifier::ext_equal]
pub struct ConfigView {
    pub application_id: Seq<char>,
    pub windows: Seq<WindowType>,
    pub groups: Seq<Seq<char>>,
    pub log_all_events: Option<bool>,
}

/// One tenant's configuration: which windows to maintain, which attribute
/// groupings to roll up, and whether raw events are also stored durably.
#[derive(Clone, Debug)]
pub struct Config {
    pub application_id: String,
    pub windows: Vec<WindowType>,
    pub groups: Vec<String>,
    pub log_all_events: Option<bool>,
}

impl View for Config {
    type V = ConfigView;

    open spec fn view(&self) -> ConfigView {
        ConfigView {
            application_id: self.application_id@,
            windows: self.windows@,
            groups: self.groups.deep_view(),
            log_all_events: self.log_all_events,
        }
    }
}

impl DeepView for Config {
    type V = ConfigView;

    open spec fn deep_view(&self) -> ConfigView {
        self.view()
    }
}

/// A configuration as submitted for creation, before canonicalization.
#[derive(Clone, Debug)]
pub struct NewConfig {
    pub application_id: String,
    pub windows: Vec<WindowType>,
    pub groups: Vec<String>,
    pub log_all_events: Option<bool>,
}

impl View for NewConfig {
    type V = ConfigView;

    open spec fn view(&self) -> ConfigView {
        ConfigView {
            application_id: self.application_id@,
            windows: self.windows@,
            groups: self.groups.deep_view(),
            log_all_events: self.log_all_events,
        }
    }
}

/// A partial update to an existing configuration.
#[derive(Debug)]
pub struct UpdateConfig {
    pub windows: Option<Vec<WindowType>>,
    pub groups: Option<Vec<String>>,
    pub log_all_events: Option<bool>,
}

/// The attribute pairs of an incoming event, lowercased and converted to
/// stored pairs.
pub fn lowercased_pairs(keys: &Vec<NewKeyPair>) -> (r: Vec<KeyPair>)
    ensures
        r.deep_view() == lower_attrs(keys.deep_view()),
{
    let mut r: Vec<KeyPair> = Vec::new();
    let mut i: usize = 0;
    while i < keys.len()
        invariant
            i <= keys@.len(),
            r.deep_view() == lower_attrs(keys.deep_view()).take(i as int),
        decreases keys@.len() - i,
    {
        let ghost pre = r.deep_view();
        let kp = KeyPair { key: keys[i].key(), value: keys[i].value() };
        r.push(kp);
        proof {
            assert(r.deep_view() =~= pre.push(kp@));
            assert(kp@ =~= keys.deep_view()[i as int].lowered());
            assert(lower_attrs(keys.deep_view()).take(i + 1) =~= lower_attrs(
                keys.deep_view(),
            ).take(i as int).push(keys.deep_view()[i as int].lowered()));
        }
        i = i + 1;
    }
    proof {
        assert(lower_attrs(keys.deep_view()).take(lower_attrs(keys.deep_view()).len() as int)
            =~= lower_attrs(keys.deep_view()));
    }
    r
}

/// Copy a vector of attribute pairs, preserving its view.
pub fn clone_keypair_vec(v: &Vec<KeyPair>) -> (r: Vec<KeyPair>)
    ensures
        r.deep_view() == v.deep_view(),
{
    let mut r: Vec<KeyPair> = Vec::new();
    let mut i: usize = 0;
    while i < v.len()
        invariant
            i <= v@.len(),
            r.deep_view() == v.deep_view().take(i as int),
        decreases v@.len() - i,
    {
        let ghost pre = r.deep_view();
        let kp = KeyPair { key: v[i].key.clone(), value: v[i].value.clone() };
        r.push(kp);
        proof {
            assert(r.deep_view() =~= pre.push(v.deep_view()[i as int]));
            assert(v.deep_view().take(i + 1) =~= v.deep_view().take(i as int).push(
                v.deep_view()[i as int],
            ));
        }
        i = i + 1;
    }
    proof {
        assert(v.deep_view().take(v.deep_view().len() as int) =~= v.deep_view());
    }
    r
}

impl Event {
    /// Copy this event, preserving its view.
    pub fn duplicate(&self) -> (r: Event)
        ensures
            r@ == self@,
    {
        let r = Event {
            id: self.id.clone(),
            keys: clone_keypair_vec(&self.keys),
            timestamp: self.timestamp,
        };
        proof {
            assert(r@ =~= self@);
        }
        r
    }
}

/// The errors surfaced by the engine's operations.
#[derive(Clone, Copy, Debug, PartialEq, Eq, Structural)]
pub enum EngineError {
    /// The referenced tenant is absent from the configuration snapshot.
    InvalidApplicationId,
    /// A point lookup found no matching document.
    NotFound,
    /// An insert collided with an existing primary key.
    DuplicateApplicationId,
}

/// The outcome of logging one event.
#[derive(Debug)]
pub struct LogEventResult {
    pub success: bool,
    pub inserted_id: Option<String>,
}

/// Mathematical view of one grouped count row.
#[verifier::ext_equal]
pub struct CountView {
    pub timestamp: int,
    pub aggregate_count: nat,
    pub record_count: nat,
}

/// One grouped row of a count query: all matching buckets sharing one
/// bucket-start timestamp.
#[derive(Clone, Debug)]
pub struct Count {
    pub timestamp: i64,
    pub aggregate_count: u128,
    pub record_count: u64,
}

impl View for Count {
    type V = CountView;

    open spec fn view(&self) -> CountView {
        CountView {
            timestamp: self.timestamp as int,
            aggregate_count: self.aggregate_count as nat,
            record_count: self.record_count as nat,
        }
    }
}

impl DeepView for Count {
    type V = CountView;

    open spec fn deep_view(&self) -> CountView {
        self.view()
    }
}

/// The grouped counts over a timestamp range, with their totals.
#[derive(Debug)]
pub struct CountResponse {
    pub total_record_count: u64,
    pub total_aggregate_count: u128,
    pub counts: Vec<Count>,
}

} // verus!
