//! Metrics of a service: emit, error and restart counters, total emit
//! latency, and named custom counters.
//!
//! The built-in counters wrap around at 2^64 like the atomic counters they
//! stand for. Custom counters behave as a map from name to value: adding to
//! a name changes that name's value and no other.
use vstd::prelude::*;
use crate::qos::{counter_step, wrap_add};

verus! {

/// Custom counters as a map, built from a list of `(name, value)` entries;
/// a later entry of a name overrides an earlier one.
pub open spec fn counters_map(s: Seq<(String, u64)>) -> Map<Seq<char>, u64>
    decreases s.len(),
{
    if s.len() == 0 {
        Map::empty()
    } else {
        counters_map(s.drop_last()).insert(s.last().0@, s.last().1)
    }
}

/// No name occurs twice in the list.
pub open spec fn names_distinct(s: Seq<(String, u64)>) -> bool {
    forall|i: int, j: int| 0 <= i < j < s.len() ==> s[i].0@ != s[j].0@
}

/// In a list without repeated names, every entry is in the map with its
/// value, and the map holds nothing else.
pub proof fn lemma_counters_map(s: Seq<(String, u64)>)
    requires
        names_distinct(s),
    ensures
        forall|i: int| 0 <= i < s.len() ==> #[trigger] counters_map(s).contains_key(s[i].0@)
            && counters_map(s)[s[i].0@] == s[i].1,
        forall|k: Seq<char>| #[trigger]
            counters_map(s).contains_key(k) ==> exists|i: int| 0 <= i < s.len() && s[i].0@ == k,
    decreases s.len(),
{
    if s.len() > 0 {
        let t = s.drop_last();
        assert(names_distinct(t));
        lemma_counters_map(t);
        assert forall|k: Seq<char>| #[trigger]
            counters_map(s).contains_key(k) implies exists|i: int|
            0 <= i < s.len() && s[i].0@ == k by {
            if k != s.last().0@ {
                assert(counters_map(t).contains_key(k));
                let i = choose|i: int| 0 <= i < t.len() && t[i].0@ == k;
                assert(s[i].0@ == k);
            } else {
                assert(s[s.len() - 1].0@ == k);
            }
        }
        assert forall|i: int| 0 <= i < s.len() implies #[trigger] counters_map(s).contains_key(
            s[i].0@,
        ) && counters_map(s)[s[i].0@] == s[i].1 by {
            if i < s.len() - 1 {
                assert(t[i] == s[i]);
                assert(counters_map(t).contains_key(t[i].0@));
                assert(s[i].0@ != s[s.len() - 1].0@);
            } else {
                assert(s[i] == s.last());
            }
        }
    }
}

/// Setting the value of the entry at `i` sets that name's value in the map.
proof fn lemma_counters_map_update(s: Seq<(String, u64)>, i: int, e: (String, u64))
    requires
        names_distinct(s),
        0 <= i < s.len(),
        e.0@ == s[i].0@,
    ensures
        counters_map(s.update(i, e)) == counters_map(s).insert(e.0@, e.1),
    decreases s.len(),
{
    let u = s.update(i, e);
    if i == s.len() - 1 {
        assert(u.drop_last() =~= s.drop_last());
        assert(counters_map(u) =~= counters_map(s).insert(e.0@, e.1));
    } else {
        let t = s.drop_last();
        assert(names_distinct(t));
        lemma_counters_map_update(t, i, e);
        assert(u.drop_last() =~= t.update(i, e));
        assert(s.last().0@ != e.0@);
        assert(counters_map(u) =~= counters_map(s).insert(e.0@, e.1));
    }
}

/// What the metrics hold.
pub struct ServiceMetricsView {
    pub emits_total: u64,
    pub emit_latency_us_total: u64,
    pub errors_total: u64,
    pub restarts_total: u64,
    pub counters: Map<Seq<char>, u64>,
}

/// The counters after one emit with the given latency.
pub open spec fn after_emit(v: ServiceMetricsView, latency_us: u64) -> ServiceMetricsView {
    ServiceMetricsView {
        emits_total: counter_step(v.emits_total),
        emit_latency_us_total: wrap_add(v.emit_latency_us_total, latency_us),
        ..v
    }
}

/// The counters after emits with these latencies, in order.
pub open spec fn after_emits(v: ServiceMetricsView, latencies: Seq<u64>) -> ServiceMetricsView
    decreases latencies.len(),
{
    if latencies.len() == 0 {
        v
    } else {
        after_emit(after_emits(v, latencies.drop_last()), latencies.last())
    }
}

/// The sum of the latencies.
pub open spec fn latency_sum(latencies: Seq<u64>) -> nat
    decreases latencies.len(),
{
    if latencies.len() == 0 {
        0
    } else {
        latency_sum(latencies.drop_last()) + latencies.last() as nat
    }
}

/// The average emit latency of a view, as `emit_latency_us_avg` gives it.
pub open spec fn average_latency(v: ServiceMetricsView) -> u64 {
    if v.emits_total == 0 {
        0
    } else {
        (v.emit_latency_us_total / v.emits_total) as u64
    }
}

/// Law: from zero counters, emits with latencies `l_1 .. l_k` whose sum fits
/// a `u64` count `k` emits and report the average `(l_1 + .. + l_k) / k`
/// (zero for no emit).
pub proof fn lemma_average_latency(start: ServiceMetricsView, latencies: Seq<u64>)
    requires
        start.emits_total == 0,
        start.emit_latency_us_total == 0,
        latency_sum(latencies) <= u64::MAX,
        latencies.len() <= u64::MAX,
    ensures
        after_emits(start, latencies).emits_total == latencies.len(),
        after_emits(start, latencies).emit_latency_us_total == latency_sum(latencies),
        average_latency(after_emits(start, latencies)) == if latencies.len() == 0 {
            0
        } else {
            latency_sum(latencies) / latencies.len()
        },
    decreases latencies.len(),
{
    if latencies.len() > 0 {
        let init = latencies.drop_last();
        assert(latency_sum(init) <= latency_sum(latencies));
        lemma_average_latency(start, init);
    }
}

/// Counters of a service.
#[derive(Debug, Clone)]
pub struct ServiceMetrics {
    emits_total: u64,
    emit_latency_us_total: u64,
    errors_total: u64,
    restarts_total: u64,
    custom_counters: Vec<(String, u64)>,
}

impl View for ServiceMetrics {
    type V = ServiceMetricsView;

    closed spec fn view(&self) -> ServiceMetricsView {
        ServiceMetricsView {
            emits_total: self.emits_total,
            emit_latency_us_total: self.emit_latency_us_total,
            errors_total: self.errors_total,
            restarts_total: self.restarts_total,
            counters: counters_map(self.custom_counters@),
        }
    }
}

impl Default for ServiceMetrics {
    fn default() -> (r: Self)
        ensures
            r.wf(),
            r@.emits_total == 0,
            r@.emit_latency_us_total == 0,
            r@.errors_total == 0,
            r@.restarts_total == 0,
            r@.counters == Map::<Seq<char>, u64>::empty(),
    {
        ServiceMetrics::new()
    }
}

impl ServiceMetrics {
    /// The custom counter list has no repeated name.
    pub closed spec fn wf(&self) -> bool {
        names_distinct(self.custom_counters@)
    }

    /// Metrics with every counter at zero and no custom counter.
    pub fn new() -> (r: Self)
        ensures
            r.wf(),
            r@.emits_total == 0,
            r@.emit_latency_us_total == 0,
            r@.errors_total == 0,
            r@.restarts_total == 0,
            r@.counters == Map::<Seq<char>, u64>::empty(),
    {
        let r = ServiceMetrics {
            emits_total: 0,
            emit_latency_us_total: 0,
            errors_total: 0,
            restarts_total: 0,
            custom_counters: Vec::new(),
        };
        proof {
            assert(counters_map(r.custom_counters@) =~= Map::<Seq<char>, u64>::empty());
        }
        r
    }

    /// Counts one emitted message with its latency.
    pub fn record_emit(&mut self, latency_us: u64)
        requires
            old(self).wf(),
        ensures
            final(self).wf(),
            final(self)@ == after_emit(old(self)@, latency_us),
    {
        self.emits_total = self.emits_total.wrapping_add(1);
        self.emit_latency_us_total = self.emit_latency_us_total.wrapping_add(latency_us);
    }

    /// Counts one error.
    pub fn record_error(&mut self)
        requires
            old(self).wf(),
        ensures
            final(self).wf(),
            final(self)@ == (ServiceMetricsView {
                errors_total: counter_step(old(self)@.errors_total),
                ..old(self)@
            }),
    {
        self.errors_total = self.errors_total.wrapping_add(1);
    }

    /// Counts one restart.
    pub fn record_restart(&mut self)
        requires
            old(self).wf(),
        ensures
            final(self).wf(),
            final(self)@ == (ServiceMetricsView {
                restarts_total: counter_step(old(self)@.restarts_total),
                ..old(self)@
            }),
    {
        self.restarts_total = self.restarts_total.wrapping_add(1);
    }

    /// Emitted messages.
    pub fn emits_total(&self) -> (r: u64)
        ensures
            r == self@.emits_total,
    {
        self.emits_total
    }

    /// Average emit latency in microseconds (0 before any emit).
    pub fn emit_latency_us_avg(&self) -> (r: u64)
        ensures
            r == average_latency(self@),
    {
        if self.emits_total == 0 {
            return 0;
        }
        self.emit_latency_us_total / self.emits_total
    }

    /// Errors.
    pub fn errors_total(&self) -> (r: u64)
        ensures
            r == self@.errors_total,
    {
        self.errors_total
    }

    /// Restarts.
    pub fn restarts_total(&self) -> (r: u64)
        ensures
            r == self@.restarts_total,
    {
        self.restarts_total
    }

    /// Adds `delta` to the custom counter `name`, creating it at 0 first;
    /// adding 0 changes nothing.
    pub fn incr_counter(&mut self, name: &str, delta: u64)
        requires
            old(self).wf(),
            old(self)@.counters.contains_key(name@) ==> old(self)@.counters[name@] + delta
                <= u64::MAX,
        ensures
            final(self).wf(),
            delta == 0 ==> final(self)@ == old(self)@,
            delta != 0 ==> final(self)@ == (ServiceMetricsView {
                counters: old(self)@.counters.insert(
                    name@,
                    (if old(self)@.counters.contains_key(name@) {
                        old(self)@.counters[name@]
                    } else {
                        0
                    } + delta) as u64,
                ),
                ..old(self)@
            }),
    {
        if delta == 0 {
            return ;
        }
        let key = name.to_owned();
        let ghost s = self.custom_counters@;
        proof {
            lemma_counters_map(s);
        }
        let n = self.custom_counters.len();
        let mut i: usize = 0;
        while i < n
            invariant
                n == self.custom_counters@.len(),
                s == self.custom_counters@,
                *self == *old(self),
                delta != 0,
                old(self)@.counters.contains_key(name@) ==> old(self)@.counters[name@] + delta
                    <= u64::MAX,
                names_distinct(s),
                key@ == name@,
                i <= n,
                forall|j: int| 0 <= j < i ==> s[j].0@ != name@,
            decreases n - i,
        {
            if self.custom_counters[i].0 == key {
                let old_value = self.custom_counters[i].1;
                proof {
                    lemma_counters_map(s);
                    assert(counters_map(s).contains_key(s[i as int].0@));
                }
                let e = (key, old_value + delta);
                proof {
                    lemma_counters_map_update(s, i as int, e);
                }
                self.custom_counters.set(i, e);
                proof {
                    assert(names_distinct(self.custom_counters@)) by {
                        assert(self.custom_counters@ == s.update(i as int, e));
                    }
                }
                return ;
            }
            i = i + 1;
        }
        proof {
            lemma_counters_map(s);
            assert(!counters_map(s).contains_key(name@));
        }
        let e = (key, delta);
        self.custom_counters.push(e);
        proof {
            let u = self.custom_counters@;
            assert(u.drop_last() =~= s);
            assert(names_distinct(u));
        }
    }

    /// The value of custom counter `name`, if it was ever incremented.
    pub fn counter(&self, name: &str) -> (r: Option<u64>)
        requires
            self.wf(),
        ensures
            r == (if self@.counters.contains_key(name@) {
                Some(self@.counters[name@])
            } else {
                None::<u64>
            }),
    {
        let key = name.to_owned();
        let ghost s = self.custom_counters@;
        proof {
            lemma_counters_map(s);
        }
        let n = self.custom_counters.len();
        let mut i: usize = 0;
        while i < n
            invariant
                n == s.len(),
                s == self.custom_counters@,
                names_distinct(s),
                key@ == name@,
                i <= n,
                forall|j: int| 0 <= j < i ==> s[j].0@ != name@,
            decreases n - i,
        {
            if self.custom_counters[i].0 == key {
                proof {
                    lemma_counters_map(s);
                    assert(counters_map(s).contains_key(s[i as int].0@));
                }
                return Some(self.custom_counters[i].1);
            }
            i = i + 1;
        }
        proof {
            lemma_counters_map(s);
        }
        None
    }

    /// The custom counters in order of creation.
    pub fn custom_counters_snapshot(&self) -> (r: Vec<(String, u64)>)
        requires
            self.wf(),
        ensures
            names_distinct(r@),
            counters_map(r@) == self@.counters,
    {
        let mut out: Vec<(String, u64)> = Vec::new();
        let n = self.custom_counters.len();
        let mut i: usize = 0;
        while i < n
            invariant
                n == self.custom_counters@.len(),
                names_distinct(self.custom_counters@),
                i <= n,
                out@.len() == i,
                forall|j: int| 0 <= j < i ==> #[trigger] out@[j].0@ == self.custom_counters@[j].0@
                    && out@[j].1 == self.custom_counters@[j].1,
            decreases n - i,
        {
            let name = self.custom_counters[i].0.clone();
            out.push((name, self.custom_counters[i].1));
            i = i + 1;
        }
        proof {
            lemma_counters_map_same_entries(out@, self.custom_counters@);
        }
        out
    }
}

/// Two lists with the same names and values give the same map.
proof fn lemma_counters_map_same_entries(a: Seq<(String, u64)>, b: Seq<(String, u64)>)
    requires
        a.len() == b.len(),
        forall|j: int| 0 <= j < a.len() ==> #[trigger] a[j].0@ == b[j].0@ && a[j].1 == b[j].1,
    ensures
        counters_map(a) == counters_map(b),
        names_distinct(a) == names_distinct(b),
    decreases a.len(),
{
    if a.len() > 0 {
        lemma_counters_map_same_entries(a.drop_last(), b.drop_last());
        assert(a.last().0@ == b.last().0@);
    }
    if names_distinct(a) {
        assert forall|i: int, j: int| 0 <= i < j < b.len() implies b[i].0@ != b[j].0@ by {
            assert(a[i].0@ == b[i].0@);
            assert(a[j].0@ == b[j].0@);
        }
    }
    if names_distinct(b) {
        assert forall|i: int, j: int| 0 <= i < j < a.len() implies a[i].0@ != a[j].0@ by {
            assert(a[i].0@ == b[i].0@);
            assert(a[j].0@ == b[j].0@);
        }
    }
}

/// Adding to one custom counter leaves every other custom counter as it was.
pub proof fn lemma_incr_counter_isolated(
    before: ServiceMetricsView,
    after: ServiceMetricsView,
    name: Seq<char>,
    delta: u64,
    other: Seq<char>,
)
    requires
        delta != 0,
        after == (ServiceMetricsView {
            counters: before.counters.insert(
                name,
                (if before.counters.contains_key(name) {
                    before.counters[name]
                } else {
                    0
                } + delta) as u64,
            ),
            ..before
        }),
        other != name,
    ensures
        after.counters.contains_key(other) == before.counters.contains_key(other),
        before.counters.contains_key(other) ==> after.counters[other] == before.counters[other],
        after.counters.contains_key(name),
{
}

} // verus!
