//! The counter and gauge families of `prometheus_client`, and its registry.
//!
//! A family maps label sets to metrics. `prometheus_client` hands out shared
//! handles and changes a family behind `&self`. Here each family has one owner
//! that alone may change it, through `&mut self`; what the registry gets is a
//! handle that it only reads from. So what a family holds is a property of the
//! owned value, and the functions below say how they change it.

use prometheus_client::metrics::counter::Counter;
use prometheus_client::metrics::family::Family;
use prometheus_client::metrics::gauge::Gauge;
use prometheus_client::registry::Registry;
use std::sync::atomic::{AtomicI64, AtomicU64};
use vstd::prelude::*;

verus! {

/// A label set: names with their values, in order.
pub type Labels = Seq<(Seq<char>, Seq<char>)>;

/// What a counter family holds.
pub type Counts = Map<Labels, u64>;

/// What a gauge family holds.
pub type Levels = Map<Labels, i64>;

/// The label set that pairs of strings stand for.
pub open spec fn label_set(pairs: Seq<(String, String)>) -> Labels {
    pairs.map_values(|pair: (String, String)| (pair.0@, pair.1@))
}

/// The metric registry of `prometheus_client`.
#[verifier::external_type_specification]
#[verifier::external_body]
pub struct ExRegistry(prometheus_client::registry::Registry);

/// A family of counters, one for each label set.
#[verifier::external_body]
pub struct CounterFamily {
    family: Family<Vec<(String, String)>, Counter<u64, AtomicU64>>,
}

/// A family of gauges, one for each label set.
#[verifier::external_body]
pub struct GaugeFamily {
    family: Family<Vec<(String, String)>, Gauge<i64, AtomicI64>>,
}

/// A family that a registry knows, by its handle.
pub ghost enum Registered {
    Counters(int),
    Gauges(int),
    /// A metric that this library does not hold.
    Other,
}

/// The counters that a family holds.
pub uninterp spec fn counts(family: CounterFamily) -> Counts;

/// The gauges that a family holds.
pub uninterp spec fn levels(family: GaugeFamily) -> Levels;

/// Registered metrics, in order: name, help text, family.
pub type Listing = Seq<(Seq<char>, Seq<char>, Registered)>;

/// Which counters a family is the owner of. A registry reads from the same
/// counters through a handle of its own, so this tells which family it shows.
pub uninterp spec fn counter_handle(family: CounterFamily) -> int;

/// Which gauges a family is the owner of, as for counters.
pub uninterp spec fn gauge_handle(family: GaugeFamily) -> int;

/// The metrics that were registered. Nothing is said of a registry that puts a
/// prefix or labels of its own on them, or that holds collectors or other
/// registries besides.
pub uninterp spec fn registered(registry: Registry) -> Option<Listing>;

/// What is registered once a metric was registered as well.
pub open spec fn with_entry(
    listing: Option<Listing>,
    name: Seq<char>,
    help: Seq<char>,
    metric: Registered,
) -> Option<Listing> {
    match listing {
        Some(entries) => Some(entries.push((name, help + "."@, metric))),
        None => None,
    }
}

/// The counters after one was added up, or made for this. A counter that
/// stands at the largest number goes on at zero.
pub open spec fn bumped(counts: Counts, labels: Labels) -> Counts {
    counts.insert(
        labels,
        if !counts.contains_key(labels) {
            1
        } else if counts[labels] == u64::MAX {
            0
        } else {
            (counts[labels] + 1) as u64
        },
    )
}

/// The counters with one for the given labels, made if there is none yet.
pub open spec fn touched(counts: Counts, labels: Labels) -> Counts {
    if counts.contains_key(labels) {
        counts
    } else {
        counts.insert(labels, 0)
    }
}

impl CounterFamily {
    /// `Family::default` makes a family without any metric.
    #[verifier::external_body]
    pub(crate) fn new() -> (family: CounterFamily)
        ensures
            counts(family) == Counts::empty(),
    {
        CounterFamily { family: Family::default() }
    }

    /// `Family::get_or_create` followed by `Counter::inc`: the counter for the
    /// labels, made at zero if there is none, goes up by one, as an atomic
    /// addition does, so from the largest number to zero. No other counter
    /// changes, and the handle stays.
    #[verifier::external_body]
    pub(crate) fn inc(&mut self, labels: &Vec<(String, String)>)
        ensures
            counts(*final(self)) == bumped(counts(*old(self)), label_set(labels@)),
            counter_handle(*final(self)) == counter_handle(*old(self)),
    {
        self.family.get_or_create(labels).inc();
    }

    /// `Family::get_or_create` makes a counter at zero for labels that have
    /// none, and changes nothing otherwise.
    #[verifier::external_body]
    pub(crate) fn touch(&mut self, labels: &Vec<(String, String)>)
        ensures
            counts(*final(self)) == touched(counts(*old(self)), label_set(labels@)),
            counter_handle(*final(self)) == counter_handle(*old(self)),
    {
        let _ = self.family.get_or_create(labels);
    }

    /// `Registry::register` puts a handle of the family at the end of the
    /// registry, under the given name and with a full stop behind the help text.
    #[verifier::external_body]
    pub(crate) fn register(&self, registry: &mut Registry, name: &str, help: &str)
        ensures
            registered(*final(registry)) == with_entry(
                registered(*old(registry)),
                name@,
                help@,
                Registered::Counters(counter_handle(*self)),
            ),
    {
        registry.register(name, help, self.family.clone());
    }
}

impl GaugeFamily {
    /// `Family::default` makes a family without any metric.
    #[verifier::external_body]
    pub(crate) fn new() -> (family: GaugeFamily)
        ensures
            levels(family) == Levels::empty(),
    {
        GaugeFamily { family: Family::default() }
    }

    /// `Family::get_or_create` followed by `Gauge::set`: the gauge for the
    /// labels, made if there is none, has the given value. No other gauge
    /// changes, and the handle stays.
    #[verifier::external_body]
    pub(crate) fn set(&mut self, labels: &Vec<(String, String)>, value: i64)
        ensures
            levels(*final(self)) == levels(*old(self)).insert(label_set(labels@), value),
            gauge_handle(*final(self)) == gauge_handle(*old(self)),
    {
        self.family.get_or_create(labels).set(value);
    }

    /// `Registry::register`, as for counters.
    #[verifier::external_body]
    pub(crate) fn register(&self, registry: &mut Registry, name: &str, help: &str)
        ensures
            registered(*final(registry)) == with_entry(
                registered(*old(registry)),
                name@,
                help@,
                Registered::Gauges(gauge_handle(*self)),
            ),
    {
        registry.register(name, help, self.family.clone());
    }
}

/// `Registry::default` makes a registry that knows no metric and adds nothing to
/// what is registered.
#[verifier::external_body]
pub(crate) fn empty_registry() -> (registry: Registry)
    ensures
        registered(registry) == Some(Listing::empty()),
{
    Registry::default()
}

/// A counter that is added up goes up by one, from nothing to 1, and from the
/// largest number to 0; no other counter changes.
pub proof fn law_counter_goes_up_by_one(counts: Counts, labels: Labels, other: Labels)
    ensures
        bumped(counts, labels).contains_key(labels),
        !counts.contains_key(labels) ==> bumped(counts, labels)[labels] == 1,
        counts.contains_key(labels) ==> bumped(counts, labels)[labels] == (counts[labels] + 1)
            % 0x1_0000_0000_0000_0000,
        other != labels ==> bumped(counts, labels).contains_key(other) == counts.contains_key(
            other,
        ) && bumped(counts, labels)[other] == counts[other],
{
}

/// A counter that is made stands at 0, one that is there stays as it is, and no
/// other changes.
pub proof fn law_counter_made_at_zero(counts: Counts, labels: Labels, other: Labels)
    ensures
        touched(counts, labels).contains_key(labels),
        touched(counts, labels)[labels] == if counts.contains_key(labels) {
            counts[labels]
        } else {
            0
        },
        other != labels ==> touched(counts, labels).contains_key(other) == counts.contains_key(
            other,
        ) && touched(counts, labels)[other] == counts[other],
{
}

} // verus!
