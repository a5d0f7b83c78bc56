//! Request metrics per route and their Prometheus text rendering.
//!
//! Each route keeps a request count, an error count (status 400 and up), a
//! cumulative latency histogram with fixed millisecond bounds, and the sum of
//! latencies. Counters saturate instead of wrapping. Routes are kept in
//! ascending order of their names, which is the order they are rendered in.
use vstd::prelude::*;
use crate::text::{push_char, push_decimal, decimal, chars_of, text_lt, text_less, lemma_text_lt_irreflexive, lemma_text_lt_transitive, lemma_text_lt_total};

verus! {

/// Number of latency histogram buckets.
pub const LATENCY_BUCKET_COUNT: usize = 11;

/// Upper bound (inclusive, milliseconds) of histogram bucket `i`.
pub open spec fn bucket_bound(i: int) -> u64 {
    if i == 0 { 1 }
    else if i == 1 { 5 }
    else if i == 2 { 10 }
    else if i == 3 { 25 }
    else if i == 4 { 50 }
    else if i == 5 { 100 }
    else if i == 6 { 250 }
    else if i == 7 { 500 }
    else if i == 8 { 1000 }
    else if i == 9 { 2500 }
    else { 5000 }
}

/// The bound of histogram bucket `i`.
pub fn latency_bucket_bound(i: usize) -> (r: u64)
    requires
        i < LATENCY_BUCKET_COUNT,
    ensures
        r == bucket_bound(i as int),
{
    if i == 0 { 1 }
    else if i == 1 { 5 }
    else if i == 2 { 10 }
    else if i == 3 { 25 }
    else if i == 4 { 50 }
    else if i == 5 { 100 }
    else if i == 6 { 250 }
    else if i == 7 { 500 }
    else if i == 8 { 1000 }
    else if i == 9 { 2500 }
    else { 5000 }
}

/// `a + 1`, or the maximum when that overflows.
pub open spec fn sat_inc(a: u64) -> u64 {
    if a == u64::MAX { a } else { (a + 1) as u64 }
}

/// `a + b`, or the maximum when that overflows.
pub open spec fn sat_add_u128(a: u128, b: u128) -> u128 {
    if a + b > u128::MAX { u128::MAX } else { (a + b) as u128 }
}

/// Counters of one route.
#[derive(Debug)]
pub struct RouteMetrics {
    pub requests_total: u64,
    pub errors_total: u64,
    pub latency_buckets: Vec<u64>,
    pub latency_sum_ms: u128,
}

/// The abstract counters of one route.
pub struct RouteMetricsView {
    pub requests_total: u64,
    pub errors_total: u64,
    pub latency_buckets: Seq<u64>,
    pub latency_sum_ms: u128,
}

impl View for RouteMetrics {
    type V = RouteMetricsView;

    open spec fn view(&self) -> RouteMetricsView {
        RouteMetricsView {
            requests_total: self.requests_total,
            errors_total: self.errors_total,
            latency_buckets: self.latency_buckets@,
            latency_sum_ms: self.latency_sum_ms,
        }
    }
}

/// Counters that are consistent: one count per bucket, the histogram is
/// cumulative (each bucket counts at most what the next one does), the last
/// bucket counts at most all requests, and errors are among the requests.
pub open spec fn counters_consistent(m: RouteMetricsView) -> bool {
    &&& m.latency_buckets.len() == LATENCY_BUCKET_COUNT
    &&& forall|i: int|
        0 <= i < LATENCY_BUCKET_COUNT - 1 ==> #[trigger] m.latency_buckets[i] <= m.latency_buckets[i
            + 1]
    &&& m.latency_buckets[LATENCY_BUCKET_COUNT - 1] <= m.requests_total
    &&& m.errors_total <= m.requests_total
}

/// Counters of a route that has seen no request.
pub open spec fn fresh_counters() -> RouteMetricsView {
    RouteMetricsView {
        requests_total: 0,
        errors_total: 0,
        latency_buckets: Seq::new(LATENCY_BUCKET_COUNT as nat, |i: int| 0u64),
        latency_sum_ms: 0,
    }
}

/// The counters after one request with `status` that took `millis` ms.
pub open spec fn observed(m: RouteMetricsView, status: u16, millis: u128) -> RouteMetricsView {
    RouteMetricsView {
        requests_total: sat_inc(m.requests_total),
        errors_total: if status >= 400 { sat_inc(m.errors_total) } else { m.errors_total },
        latency_buckets: Seq::new(
            m.latency_buckets.len(),
            |i: int|
                if millis <= bucket_bound(i) as u128 {
                    sat_inc(m.latency_buckets[i])
                } else {
                    m.latency_buckets[i]
                },
        ),
        latency_sum_ms: sat_add_u128(m.latency_sum_ms, millis),
    }
}

impl RouteMetrics {
    /// Counters of a route that has seen no request.
    pub fn new() -> (r: RouteMetrics)
        ensures
            r@ == fresh_counters(),
    {
        let mut latency_buckets: Vec<u64> = Vec::new();
        let mut i: usize = 0;
        while i < LATENCY_BUCKET_COUNT
            invariant
                i <= LATENCY_BUCKET_COUNT,
                latency_buckets@ == Seq::new(i as nat, |j: int| 0u64),
            decreases LATENCY_BUCKET_COUNT - i,
        {
            latency_buckets.push(0);
            i = i + 1;
            assert(latency_buckets@ =~= Seq::new(i as nat, |j: int| 0u64));
        }
        RouteMetrics { requests_total: 0, errors_total: 0, latency_buckets, latency_sum_ms: 0 }
    }

    /// Count one request with `status` that took `millis` milliseconds.
    pub fn observe(&mut self, status: u16, millis: u128)
        requires
            old(self)@.latency_buckets.len() == LATENCY_BUCKET_COUNT,
        ensures
            final(self)@ == observed(old(self)@, status, millis),
    {
        self.requests_total = if self.requests_total == u64::MAX {
            u64::MAX
        } else {
            self.requests_total + 1
        };
        if status >= 400 {
            self.errors_total = if self.errors_total == u64::MAX {
                u64::MAX
            } else {
                self.errors_total + 1
            };
        }
        self.latency_sum_ms = self.latency_sum_ms.saturating_add(millis);
        let ghost before = self.latency_buckets@;
        let ghost requests = self.requests_total;
        let ghost errors = self.errors_total;
        let ghost sum = self.latency_sum_ms;
        assert(requests == sat_inc(old(self).requests_total));
        assert(sum == sat_add_u128(old(self).latency_sum_ms, millis));
        let mut i: usize = 0;
        while i < LATENCY_BUCKET_COUNT
            invariant
                i <= LATENCY_BUCKET_COUNT,
                self.requests_total == requests,
                self.errors_total == errors,
                self.latency_sum_ms == sum,
                before.len() == LATENCY_BUCKET_COUNT,
                self.latency_buckets@.len() == LATENCY_BUCKET_COUNT,
                forall|j: int|
                    0 <= j < i ==> self.latency_buckets@[j] == (if millis <= bucket_bound(j) as u128 {
                        sat_inc(before[j])
                    } else {
                        before[j]
                    }),
                forall|j: int| i <= j < LATENCY_BUCKET_COUNT ==> self.latency_buckets@[j] == before[j],
            decreases LATENCY_BUCKET_COUNT - i,
        {
            let bound = latency_bucket_bound(i);
            if millis <= bound as u128 {
                let c = self.latency_buckets[i];
                self.latency_buckets[i] = if c == u64::MAX { u64::MAX } else { c + 1 };
            }
            i = i + 1;
        }
        assert(self.latency_buckets@ =~= observed(old(self)@, status, millis).latency_buckets);
    }
}

/// Every response with status 400 or above is an error, and no other: one
/// request always adds one to the request count, and adds one to the error
/// count exactly when its status is at least 400 (counts saturate at the
/// maximum instead of wrapping).
pub proof fn lemma_errors_are_statuses_from_400(m: RouteMetricsView, status: u16, millis: u128)
    ensures
        m.requests_total < u64::MAX ==> observed(m, status, millis).requests_total == m.requests_total + 1,
        m.errors_total < u64::MAX && status >= 400 ==> observed(m, status, millis).errors_total == m.errors_total + 1,
        status < 400 ==> observed(m, status, millis).errors_total == m.errors_total,
        m.errors_total == u64::MAX ==> observed(m, status, millis).errors_total == u64::MAX,
{
}

/// Fresh counters are consistent.
pub proof fn lemma_fresh_counters_consistent()
    ensures
        counters_consistent(fresh_counters()),
{
}

/// Counting a request keeps counters consistent: the histogram stays
/// cumulative and never counts more than the requests seen.
pub proof fn lemma_observe_keeps_counters_consistent(m: RouteMetricsView, status: u16, millis: u128)
    requires
        counters_consistent(m),
    ensures
        counters_consistent(observed(m, status, millis)),
{
    let o = observed(m, status, millis);
    assert forall|i: int| 0 <= i < LATENCY_BUCKET_COUNT - 1 implies #[trigger] o.latency_buckets[i]
        <= o.latency_buckets[i + 1] by {
        assert(m.latency_buckets[i] <= m.latency_buckets[i + 1]);
        assert(bucket_bound(i) <= bucket_bound(i + 1));
    }
}

/// The per-character escaping of a Prometheus label value.
pub open spec fn escape_char(c: char) -> Seq<char> {
    if c == '\\' {
        seq!['\\', '\\']
    } else if c == '"' {
        seq!['\\', '"']
    } else if c == '\n' {
        seq!['\\', 'n']
    } else {
        seq![c]
    }
}

/// A label value with backslash, double quote and newline escaped.
pub open spec fn escape_label_spec(s: Seq<char>) -> Seq<char>
    decreases s.len(),
{
    if s.len() == 0 {
        Seq::empty()
    } else {
        escape_label_spec(s.drop_last()) + escape_char(s.last())
    }
}

/// Append the escaped form of `value` to `out`.
pub fn push_escaped_label(out: &mut String, value: &str)
    ensures
        final(out)@ == old(out)@ + escape_label_spec(value@),
{
    let cs = chars_of(value);
    let ghost start = out@;
    let mut i: usize = 0;
    while i < cs.len()
        invariant
            i <= cs@.len(),
            cs@ == value@,
            out@ == start + escape_label_spec(cs@.subrange(0, i as int)),
        decreases cs.len() - i,
    {
        let c = cs[i];
        assert(cs@.subrange(0, i + 1).drop_last() =~= cs@.subrange(0, i as int));
        if c == '\\' {
            push_char(out, '\\');
            push_char(out, '\\');
        } else if c == '"' {
            push_char(out, '\\');
            push_char(out, '"');
        } else if c == '\n' {
            push_char(out, '\\');
            push_char(out, 'n');
        } else {
            push_char(out, c);
        }
        i = i + 1;
        assert(out@ =~= start + escape_label_spec(cs@.subrange(0, i as int)));
    }
    assert(cs@.subrange(0, cs@.len() as int) =~= value@);
}

/// Escape a Prometheus label value.
pub fn escape_label(value: &str) -> (r: String)
    ensures
        r@ == escape_label_spec(value@),
{
    let mut r = String::new();
    push_escaped_label(&mut r, value);
    assert(r@ =~= escape_label_spec(value@));
    r
}


/// One route and its counters.
#[derive(Debug)]
pub struct RouteEntry {
    pub route: String,
    pub metrics: RouteMetrics,
}

/// Routes in strictly ascending order of their names.
pub open spec fn routes_sorted(s: Seq<(Seq<char>, RouteMetricsView)>) -> bool {
    forall|i: int, j: int| 0 <= i < j < s.len() ==> text_lt(s[i].0, s[j].0)
}

/// Whether `route` has an entry.
pub open spec fn has_route(s: Seq<(Seq<char>, RouteMetricsView)>, route: Seq<char>) -> bool {
    exists|i: int| 0 <= i < s.len() && #[trigger] s[i].0 == route
}

/// The routes behind `AppMetrics`, kept in order of their names.
#[derive(Debug)]
struct RouteTable {
    routes: Vec<RouteEntry>,
}

impl View for RouteTable {
    type V = Seq<(Seq<char>, RouteMetricsView)>;

    closed spec fn view(&self) -> Seq<(Seq<char>, RouteMetricsView)> {
        Seq::new(self.routes@.len(), |i: int| (self.routes@[i].route@, self.routes@[i].metrics@))
    }
}

impl RouteTable {
    /// Routes are sorted and every route's counters are consistent.
    spec fn wf(&self) -> bool {
        &&& routes_sorted(self@)
        &&& forall|i: int| 0 <= i < self@.len() ==> counters_consistent(#[trigger] self@[i].1)
    }

    /// No route seen yet.
    fn new() -> (r: RouteTable)
        ensures
            r.wf(),
            r@ == Seq::<(Seq<char>, RouteMetricsView)>::empty(),
    {
        let r = RouteTable { routes: Vec::new() };
        assert(r@ =~= Seq::<(Seq<char>, RouteMetricsView)>::empty());
        r
    }

    /// Count one request on `route` with `status` that took `millis` ms. A
    /// route seen before has its entry updated in place; a new route gets
    /// fresh counters, inserted where the order of names puts it.
    fn observe(&mut self, route: &str, status: u16, millis: u128)
        requires
            old(self).wf(),
        ensures
            final(self).wf(),
            has_route(old(self)@, route@) ==> exists|i: int|
                0 <= i < old(self)@.len() && old(self)@[i].0 == route@ && final(self)@
                    == old(self)@.update(i, (route@, observed(old(self)@[i].1, status, millis))),
            !has_route(old(self)@, route@) ==> exists|p: int|
                0 <= p <= old(self)@.len() && final(self)@ == old(self)@.insert(
                    p,
                    (route@, observed(fresh_counters(), status, millis)),
                ),
    {
        let key = chars_of(route);
        let n = self.routes.len();
        let mut p: usize = 0;
        let mut found = false;
        while p < n && !found
            invariant
                n == self.routes@.len(),
                n == self@.len(),
                p <= n,
                key@ == route@,
                self.wf(),
                found ==> p < n && !text_lt(self@[p as int].0, route@),
                forall|j: int| 0 <= j < p ==> text_lt(#[trigger] self@[j].0, route@),
            decreases n - p + (if found { 0int } else { 1int }),
        {
            let name = chars_of(self.routes[p].route.as_str());
            assert(self@[p as int].0 == name@);
            if !text_less(name.as_slice(), key.as_slice()) {
                found = true;
            } else {
                p = p + 1;
            }
        }
        let ghost old_view = self@;
        let ghost here = p < n && self@[p as int].0 == route@;
        proof {
            assert forall|j: int| p <= j < n implies !text_lt(#[trigger] old_view[j].0, route@) by {
                if j > p {
                    if text_lt(old_view[j].0, route@) {
                        lemma_text_lt_transitive(old_view[p as int].0, old_view[j].0, route@);
                    }
                }
            }
        }
        if p < n && crate::text::str_eq(self.routes[p].route.as_str(), route) {
            let mut e = self.routes.remove(p);
            e.metrics.observe(status, millis);
            self.routes.insert(p, e);
            proof {
                assert(self@ =~= old_view.update(p as int, (route@, observed(old_view[p as int].1, status, millis))));
                assert(has_route(old_view, route@));
                lemma_observe_keeps_counters_consistent(old_view[p as int].1, status, millis);
            }
        } else {
            let mut metrics = RouteMetrics::new();
            metrics.observe(status, millis);
            let e = RouteEntry { route: crate::text::owned(route), metrics };
            self.routes.insert(p, e);
            proof {
                assert(self@ =~= old_view.insert(p as int, (route@, observed(fresh_counters(), status, millis))));
                assert forall|j: int| 0 <= j < n implies #[trigger] old_view[j].0 != route@ by {
                    if j < p {
                        lemma_text_lt_irreflexive(route@);
                    } else {
                        if old_view[j].0 == route@ {
                            if j > p {
                                lemma_text_lt_total(old_view[p as int].0, route@);
                                lemma_text_lt_transitive(old_view[p as int].0, old_view[j].0, route@);
                                lemma_text_lt_irreflexive(route@);
                            }
                        }
                    }
                }
                assert(!has_route(old_view, route@));
                if p < n {
                    lemma_text_lt_total(old_view[p as int].0, route@);
                }
                lemma_fresh_counters_consistent();
                lemma_observe_keeps_counters_consistent(fresh_counters(), status, millis);
                assert forall|a: int, b: int| 0 <= a < b < self@.len() implies text_lt(
                    self@[a].0,
                    self@[b].0,
                ) by {
                    if b == p {
                    } else if a == p {
                        if b > p + 1 {
                            lemma_text_lt_transitive(route@, old_view[p as int].0, old_view[b - 1].0);
                        }
                    }
                }
            }
        }
    }
}


/// Counters of one route as reported in a snapshot.
#[derive(Debug, Clone, Default)]
pub struct RouteMetricsSnapshot {
    pub requests_total: u64,
    pub errors_total: u64,
    pub latency_buckets: Vec<u64>,
    pub latency_sum_ms: u128,
}

impl View for RouteMetricsSnapshot {
    type V = RouteMetricsView;

    open spec fn view(&self) -> RouteMetricsView {
        RouteMetricsView {
            requests_total: self.requests_total,
            errors_total: self.errors_total,
            latency_buckets: self.latency_buckets@,
            latency_sum_ms: self.latency_sum_ms,
        }
    }
}

/// What the artifact storage backend reports about itself.
#[derive(Debug, Clone, Copy, PartialEq, Eq)]
pub struct StorageStats {
    pub backend: &'static str,
    pub object_count: Option<u64>,
    pub used_bytes: Option<u64>,
    pub capacity_bytes: Option<u64>,
}

/// Counters of every route, in strictly ascending order of route names (so
/// no route twice), and the storage backend's report when one was sampled.
#[derive(Debug)]
pub struct MetricsSnapshot {
    routes: Vec<(String, RouteMetricsSnapshot)>,
    storage: Option<StorageStats>,
}

/// The mathematical form of a `MetricsSnapshot`.
pub struct MetricsSnapshotView {
    pub routes: Seq<(Seq<char>, RouteMetricsView)>,
    pub storage: Option<StorageStats>,
}

/// The routes of a snapshot as texts and counters.
pub open spec fn snapshot_routes(s: Seq<(String, RouteMetricsSnapshot)>) -> Seq<(Seq<char>, RouteMetricsView)> {
    Seq::new(s.len(), |i: int| (s[i].0@, s[i].1@))
}

impl View for MetricsSnapshot {
    type V = MetricsSnapshotView;

    closed spec fn view(&self) -> MetricsSnapshotView {
        MetricsSnapshotView { routes: snapshot_routes(self.routes@), storage: self.storage }
    }
}

impl MetricsSnapshot {
    #[verifier::type_invariant]
    closed spec fn well_formed(&self) -> bool {
        &&& routes_sorted(snapshot_routes(self.routes@))
        &&& forall|i: int| 0 <= i < self.routes@.len() ==> counters_consistent(#[trigger] self.routes@[i].1@)
    }

    /// A snapshot of no routes, with the storage report `storage`.
    pub fn new(storage: Option<StorageStats>) -> (r: MetricsSnapshot)
        ensures
            r@.routes == Seq::<(Seq<char>, RouteMetricsView)>::empty(),
            r@.storage == storage,
    {
        let r = MetricsSnapshot { routes: Vec::new(), storage };
        assert(r@.routes =~= Seq::<(Seq<char>, RouteMetricsView)>::empty());
        r
    }

    /// Every route's counters, in strictly ascending order of route names.
    pub fn routes(&self) -> (r: &[(String, RouteMetricsSnapshot)])
        ensures
            snapshot_routes(r@) == self@.routes,
            routes_sorted(self@.routes),
            forall|i: int| 0 <= i < self@.routes.len() ==> counters_consistent(#[trigger] self@.routes[i].1),
    {
        proof { use_type_invariant(self); }
        assert forall|i: int| 0 <= i < self@.routes.len() implies counters_consistent(#[trigger] self@.routes[i].1) by {
            assert(self@.routes[i].1 == self.routes@[i].1@);
        }
        self.routes.as_slice()
    }

    /// The storage backend's report, when one was sampled.
    pub fn storage(&self) -> (r: Option<StorageStats>)
        ensures
            r == self@.storage,
    {
        self.storage
    }

    /// The counters of `route`, when the snapshot has them.
    pub fn route(&self, route: &str) -> (r: Option<&RouteMetricsSnapshot>)
        ensures
            r matches Some(m) ==> exists|i: int|
                0 <= i < self@.routes.len() && self@.routes[i].0 == route@ && self@.routes[i].1 == m@,
            r is None <==> forall|i: int| 0 <= i < self@.routes.len() ==> self@.routes[i].0 != route@,
    {
        let mut i: usize = 0;
        while i < self.routes.len()
            invariant
                i <= self.routes@.len(),
                forall|j: int| 0 <= j < i ==> self.routes@[j].0@ != route@,
            decreases self.routes.len() - i,
        {
            if crate::text::str_eq(self.routes[i].0.as_str(), route) {
                assert(self@.routes[i as int] == (self.routes@[i as int].0@, self.routes@[i as int].1@));
                return Some(&self.routes[i].1);
            }
            i = i + 1;
        }
        assert forall|k: int| 0 <= k < self@.routes.len() implies self@.routes[k].0 != route@ by {
            assert(self@.routes[k].0 == self.routes@[k].0@);
        }
        None
    }
}

impl RouteTable {
    fn snapshot(&self, storage: Option<StorageStats>) -> (r: MetricsSnapshot)
        requires
            self.wf(),
        ensures
            r@.routes == self@,
            r@.storage == storage,
    {
        let mut routes: Vec<(String, RouteMetricsSnapshot)> = Vec::new();
        let mut i: usize = 0;
        while i < self.routes.len()
            invariant
                i <= self.routes@.len(),
                routes@.len() == i,
                forall|j: int| 0 <= j < i ==> (#[trigger] routes@[j]).0@ == self@[j].0 && routes@[j].1@ == self@[j].1,
            decreases self.routes.len() - i,
        {
            let e = &self.routes[i];
            let buckets = e.metrics.latency_buckets.clone();
            assert(buckets@ =~= e.metrics.latency_buckets@);
            let m = RouteMetricsSnapshot {
                requests_total: e.metrics.requests_total,
                errors_total: e.metrics.errors_total,
                latency_buckets: buckets,
                latency_sum_ms: e.metrics.latency_sum_ms,
            };
            routes.push((crate::text::owned(e.route.as_str()), m));
            i = i + 1;
        }
        assert(snapshot_routes(routes@) =~= self@);
        assert forall|i: int| 0 <= i < routes@.len() implies counters_consistent(#[trigger] routes@[i].1@) by {
            assert(snapshot_routes(routes@)[i].1 == self@[i].1);
        }
        MetricsSnapshot { routes, storage }
    }
}

/// Counters of every route the process has served: routes in strictly
/// ascending order of their names, each with consistent counters.
#[derive(Debug)]
pub struct AppMetrics {
    table: RouteTable,
}

impl View for AppMetrics {
    type V = Seq<(Seq<char>, RouteMetricsView)>;

    closed spec fn view(&self) -> Seq<(Seq<char>, RouteMetricsView)> {
        self.table@
    }
}

impl AppMetrics {
    #[verifier::type_invariant]
    closed spec fn well_formed(&self) -> bool {
        self.table.wf()
    }

    /// No route seen yet.
    pub fn new() -> (r: AppMetrics)
        ensures
            r@ == Seq::<(Seq<char>, RouteMetricsView)>::empty(),
    {
        AppMetrics { table: RouteTable::new() }
    }

    /// Count one request on `route` with `status` that took `millis` ms. A
    /// route seen before has its entry updated in place; a new route gets
    /// fresh counters, inserted where the order of names puts it. The routes
    /// stay in ascending order and every route's counters stay consistent.
    pub fn observe(&mut self, route: &str, status: u16, millis: u128)
        ensures
            routes_sorted(final(self)@),
            forall|i: int| 0 <= i < final(self)@.len() ==> counters_consistent(#[trigger] final(self)@[i].1),
            has_route(old(self)@, route@) ==> exists|i: int|
                0 <= i < old(self)@.len() && old(self)@[i].0 == route@ && final(self)@
                    == old(self)@.update(i, (route@, observed(old(self)@[i].1, status, millis))),
            !has_route(old(self)@, route@) ==> exists|p: int|
                0 <= p <= old(self)@.len() && final(self)@ == old(self)@.insert(
                    p,
                    (route@, observed(fresh_counters(), status, millis)),
                ),
    {
        proof { use_type_invariant(&*self); }
        let mut table = RouteTable::new();
        std::mem::swap(&mut table, &mut self.table);
        table.observe(route, status, millis);
        self.table = table;
    }

    /// A copy of every route's counters, in ascending order of route names,
    /// with the storage report `storage` sampled by the caller.
    pub fn snapshot(&self, storage: Option<StorageStats>) -> (r: MetricsSnapshot)
        ensures
            r@.routes == self@,
            routes_sorted(r@.routes),
            forall|i: int| 0 <= i < r@.routes.len() ==> counters_consistent(#[trigger] r@.routes[i].1),
            r@.storage == storage,
    {
        proof { use_type_invariant(self); }
        self.table.snapshot(storage)
    }
}

/// The fixed `# HELP` / `# TYPE` preamble of the metrics page.
pub const PROMETHEUS_HEADER: &'static str = "# HELP zed_registry_http_requests_total Total HTTP requests handled by route.\n# TYPE zed_registry_http_requests_total counter\n# HELP zed_registry_http_errors_total Total HTTP responses with status >= 400 by route.\n# TYPE zed_registry_http_errors_total counter\n# HELP zed_registry_http_request_duration_ms HTTP request latency by route in milliseconds.\n# TYPE zed_registry_http_request_duration_ms histogram\n# HELP zed_registry_artifact_storage_backend_info Active artifact storage backend.\n# TYPE zed_registry_artifact_storage_backend_info gauge\n# HELP zed_registry_artifact_storage_objects Current number of content-addressed artifact objects held by the backend when available.\n# TYPE zed_registry_artifact_storage_objects gauge\n# HELP zed_registry_artifact_storage_bytes Current artifact bytes held by the backend when available.\n# TYPE zed_registry_artifact_storage_bytes gauge\n# HELP zed_registry_artifact_storage_capacity_bytes Configured artifact byte capacity when bounded and available.\n# TYPE zed_registry_artifact_storage_capacity_bytes gauge\n# HELP zed_registry_artifact_storage_utilization_ratio Artifact byte utilization divided by configured capacity when bounded and available.\n# TYPE zed_registry_artifact_storage_utilization_ratio gauge\n";

/// One sample line: `name{labels} value`.
pub open spec fn sample_line(name: Seq<char>, labels: Seq<char>, value: Seq<char>) -> Seq<char> {
    name + "{"@ + labels + "} "@ + value + "\n"@
}

/// The `route="..."` label of an escaped route.
pub open spec fn route_label(esc: Seq<char>) -> Seq<char> {
    "route=\""@ + esc + "\""@
}

/// The labels of histogram bucket `le`.
pub open spec fn bucket_label(esc: Seq<char>, le: Seq<char>) -> Seq<char> {
    "route=\""@ + esc + "\",le=\""@ + le + "\""@
}

/// Count of bucket `i`, zero when the snapshot lacks it.
pub open spec fn bucket_count(b: Seq<u64>, i: int) -> u64 {
    if 0 <= i < b.len() { b[i] } else { 0 }
}

/// The first `n` bucket lines of a route.
pub open spec fn bucket_lines(esc: Seq<char>, b: Seq<u64>, n: nat) -> Seq<char>
    decreases n,
{
    if n == 0 {
        Seq::empty()
    } else {
        bucket_lines(esc, b, (n - 1) as nat) + sample_line(
            "zed_registry_http_request_duration_ms_bucket"@,
            bucket_label(esc, decimal(bucket_bound(n - 1) as nat)),
            decimal(bucket_count(b, n - 1) as nat),
        )
    }
}

/// All lines of one route.
pub open spec fn route_block(route: Seq<char>, m: RouteMetricsView) -> Seq<char> {
    let esc = escape_label_spec(route);
    sample_line("zed_registry_http_requests_total"@, route_label(esc), decimal(m.requests_total as nat))
        + sample_line("zed_registry_http_errors_total"@, route_label(esc), decimal(m.errors_total as nat))
        + bucket_lines(esc, m.latency_buckets, LATENCY_BUCKET_COUNT as nat)
        + sample_line(
            "zed_registry_http_request_duration_ms_bucket"@,
            bucket_label(esc, "+Inf"@),
            decimal(m.requests_total as nat),
        )
        + sample_line(
            "zed_registry_http_request_duration_ms_sum"@,
            route_label(esc),
            decimal(m.latency_sum_ms as nat),
        )
        + sample_line(
            "zed_registry_http_request_duration_ms_count"@,
            route_label(esc),
            decimal(m.requests_total as nat),
        )
}

/// The lines of every route, in the snapshot's order.
pub open spec fn routes_block(s: Seq<(Seq<char>, RouteMetricsView)>) -> Seq<char>
    decreases s.len(),
{
    if s.len() == 0 {
        Seq::empty()
    } else {
        routes_block(s.drop_last()) + route_block(s.last().0, s.last().1)
    }
}

/// The `backend="..."` label.
pub open spec fn backend_label(esc: Seq<char>) -> Seq<char> {
    "backend=\""@ + esc + "\""@
}

/// A storage gauge line, present only when the backend reported the value.
pub open spec fn optional_gauge(name: Seq<char>, esc: Seq<char>, value: Option<u64>) -> Seq<char> {
    match value {
        Some(v) => sample_line(name, backend_label(esc), decimal(v as nat)),
        None => Seq::empty(),
    }
}

/// Whether the backend reports what a utilization ratio needs: the bytes
/// used and a non-zero capacity.
pub open spec fn has_utilization(st: StorageStats) -> bool {
    st.used_bytes is Some && (st.capacity_bytes matches Some(c) && c > 0)
}

/// The operands of the utilization ratio (bytes used, capacity), when the
/// backend reports them with a non-zero capacity.
pub fn utilization_operands(stats: Option<StorageStats>) -> (r: Option<(u64, u64)>)
    ensures
        r is Some <==> (stats matches Some(st) && has_utilization(st)),
        r matches Some(p) ==> (stats matches Some(st) && st.used_bytes == Some(p.0) && st.capacity_bytes == Some(p.1)),
{
    match stats {
        Some(st) => match (st.used_bytes, st.capacity_bytes) {
            (Some(used), Some(capacity)) => if capacity > 0 { Some((used, capacity)) } else { None },
            _ => None,
        },
        None => None,
    }
}

/// The storage lines: backend info, then each reported gauge, then, when
/// the backend reports the bytes used and a non-zero capacity, the
/// utilization ratio as rendered by the caller.
pub open spec fn storage_block(stats: Option<StorageStats>, utilization: Option<Seq<char>>) -> Seq<char> {
    match stats {
        None => Seq::empty(),
        Some(st) => {
            let esc = escape_label_spec(st.backend@);
            sample_line("zed_registry_artifact_storage_backend_info"@, backend_label(esc), "1"@)
                + optional_gauge("zed_registry_artifact_storage_objects"@, esc, st.object_count)
                + optional_gauge("zed_registry_artifact_storage_bytes"@, esc, st.used_bytes)
                + optional_gauge("zed_registry_artifact_storage_capacity_bytes"@, esc, st.capacity_bytes)
                + match (if has_utilization(st) { utilization } else { None }) {
                Some(u) => sample_line(
                    "zed_registry_artifact_storage_utilization_ratio"@,
                    backend_label(esc),
                    u,
                ),
                None => Seq::empty(),
            }
        },
    }
}

/// The whole metrics page.
pub open spec fn render_spec(
    routes: Seq<(Seq<char>, RouteMetricsView)>,
    stats: Option<StorageStats>,
    utilization: Option<Seq<char>>,
) -> Seq<char> {
    PROMETHEUS_HEADER@ + routes_block(routes) + storage_block(stats, utilization)
}

fn push_sample(out: &mut String, name: &str, labels: &String, value: u128)
    ensures
        final(out)@ == old(out)@ + sample_line(name@, labels@, decimal(value as nat)),
{
    out.append(name);
    out.append("{");
    out.append(labels.as_str());
    out.append("} ");
    push_decimal(out, value);
    out.append("\n");
    assert(final(out)@ =~= old(out)@ + sample_line(name@, labels@, decimal(value as nat)));
}

fn make_route_label(esc: &String) -> (r: String)
    ensures
        r@ == route_label(esc@),
{
    let mut r = String::new();
    r.append("route=\"");
    r.append(esc.as_str());
    r.append("\"");
    assert(r@ =~= route_label(esc@));
    r
}

fn make_bucket_label(esc: &String, le: &String) -> (r: String)
    ensures
        r@ == bucket_label(esc@, le@),
{
    let mut r = String::new();
    r.append("route=\"");
    r.append(esc.as_str());
    r.append("\",le=\"");
    r.append(le.as_str());
    r.append("\"");
    assert(r@ =~= bucket_label(esc@, le@));
    r
}

fn make_backend_label(esc: &String) -> (r: String)
    ensures
        r@ == backend_label(esc@),
{
    let mut r = String::new();
    r.append("backend=\"");
    r.append(esc.as_str());
    r.append("\"");
    assert(r@ =~= backend_label(esc@));
    r
}

fn push_route_block(out: &mut String, route: &String, m: &RouteMetricsSnapshot)
    ensures
        final(out)@ == old(out)@ + route_block(route@, m@),
{
    let ghost start = out@;
    let esc = escape_label(route.as_str());
    let rl = make_route_label(&esc);
    push_sample(out, "zed_registry_http_requests_total", &rl, m.requests_total as u128);
    push_sample(out, "zed_registry_http_errors_total", &rl, m.errors_total as u128);
    let ghost before_buckets = out@;
    let mut i: usize = 0;
    while i < LATENCY_BUCKET_COUNT
        invariant
            i <= LATENCY_BUCKET_COUNT,
            out@ == before_buckets + bucket_lines(esc@, m.latency_buckets@, i as nat),
        decreases LATENCY_BUCKET_COUNT - i,
    {
        let le = crate::text::decimal_text(latency_bucket_bound(i) as u128);
        let bl = make_bucket_label(&esc, &le);
        let count: u64 = if i < m.latency_buckets.len() { m.latency_buckets[i] } else { 0 };
        push_sample(out, "zed_registry_http_request_duration_ms_bucket", &bl, count as u128);
        i = i + 1;
        assert(out@ =~= before_buckets + bucket_lines(esc@, m.latency_buckets@, i as nat));
    }
    let inf = crate::text::owned("+Inf");
    let bl = make_bucket_label(&esc, &inf);
    push_sample(out, "zed_registry_http_request_duration_ms_bucket", &bl, m.requests_total as u128);
    push_sample(out, "zed_registry_http_request_duration_ms_sum", &rl, m.latency_sum_ms);
    push_sample(out, "zed_registry_http_request_duration_ms_count", &rl, m.requests_total as u128);
    assert(out@ =~= start + route_block(route@, m@));
}

fn push_optional_gauge(out: &mut String, name: &str, bl: &String, value: Option<u64>)
    ensures
        final(out)@ == old(out)@ + match value {
            Some(v) => sample_line(name@, bl@, decimal(v as nat)),
            None => Seq::<char>::empty(),
        },
{
    match value {
        Some(v) => push_sample(out, name, bl, v as u128),
        None => {
            assert(out@ =~= out@ + Seq::<char>::empty());
        },
    }
}

fn push_text_sample(out: &mut String, name: &str, labels: &String, value: &str)
    ensures
        final(out)@ == old(out)@ + sample_line(name@, labels@, value@),
{
    out.append(name);
    out.append("{");
    out.append(labels.as_str());
    out.append("} ");
    out.append(value);
    out.append("\n");
    assert(final(out)@ =~= old(out)@ + sample_line(name@, labels@, value@));
}

fn push_storage_block(out: &mut String, stats: Option<StorageStats>, utilization: Option<&str>)
    ensures
        final(out)@ == old(out)@ + storage_block(
            stats,
            match utilization {
                Some(u) => Some(u@),
                None => None,
            },
        ),
{
    let ghost start = out@;
    match stats {
        None => {
            assert(out@ =~= start + Seq::<char>::empty());
        },
        Some(st) => {
            let esc = escape_label(st.backend);
            let bl = make_backend_label(&esc);
            let ghost e = esc@;
            let ghost given = match utilization {
                Some(u) => Some(u@),
                None => None,
            };
            let ghost u = if has_utilization(st) { given } else { None };
            let utilization = if utilization_operands(stats).is_some() { utilization } else { None };
            let ghost a = sample_line("zed_registry_artifact_storage_backend_info"@, backend_label(e), "1"@);
            let ghost b = optional_gauge("zed_registry_artifact_storage_objects"@, e, st.object_count);
            let ghost c = optional_gauge("zed_registry_artifact_storage_bytes"@, e, st.used_bytes);
            let ghost d = optional_gauge("zed_registry_artifact_storage_capacity_bytes"@, e, st.capacity_bytes);
            let ghost f = match u {
                Some(t) => sample_line("zed_registry_artifact_storage_utilization_ratio"@, backend_label(e), t),
                None => Seq::<char>::empty(),
            };
            push_text_sample(out, "zed_registry_artifact_storage_backend_info", &bl, "1");
            assert(out@ == start + a);
            push_optional_gauge(out, "zed_registry_artifact_storage_objects", &bl, st.object_count);
            assert(out@ == start + a + b);
            push_optional_gauge(out, "zed_registry_artifact_storage_bytes", &bl, st.used_bytes);
            assert(out@ == start + a + b + c);
            push_optional_gauge(out, "zed_registry_artifact_storage_capacity_bytes", &bl, st.capacity_bytes);
            assert(out@ == start + a + b + c + d);
            let ghost before_util = out@;
            match utilization {
                Some(t) => {
                    push_text_sample(out, "zed_registry_artifact_storage_utilization_ratio", &bl, t);
                },
                None => {
                    assert(out@ =~= before_util + Seq::<char>::empty());
                },
            }
            assert(out@ == start + a + b + c + d + f);
            assert(storage_block(stats, u) == a + b + c + d + f);
            assert(start + a + b + c + d + f =~= start + (a + b + c + d + f));
        },
    }
}

/// Render a snapshot as Prometheus text. `utilization` is the storage
/// utilization ratio as the caller formats it (a fraction, such as `0.5`,
/// of the operands `utilization_operands` gives); its line is written only
/// when the backend reports the bytes used and a non-zero capacity.
pub fn render_prometheus(snapshot: &MetricsSnapshot, utilization: Option<&str>) -> (r: String)
    ensures
        r@ == render_spec(
            snapshot@.routes,
            snapshot@.storage,
            match utilization {
                Some(u) => Some(u@),
                None => None,
            },
        ),
        routes_sorted(snapshot@.routes),
{
    proof { use_type_invariant(snapshot); }
    let mut out = String::new();
    out.append(PROMETHEUS_HEADER);
    let ghost routes = snapshot_routes(snapshot.routes@);
    let mut i: usize = 0;
    while i < snapshot.routes.len()
        invariant
            i <= snapshot.routes@.len(),
            routes == snapshot_routes(snapshot.routes@),
            out@ == PROMETHEUS_HEADER@ + routes_block(routes.subrange(0, i as int)),
        decreases snapshot.routes.len() - i,
    {
        push_route_block(&mut out, &snapshot.routes[i].0, &snapshot.routes[i].1);
        assert(routes.subrange(0, i + 1).drop_last() =~= routes.subrange(0, i as int));
        i = i + 1;
        assert(out@ =~= PROMETHEUS_HEADER@ + routes_block(routes.subrange(0, i as int)));
    }
    assert(routes.subrange(0, routes.len() as int) =~= routes);
    push_storage_block(&mut out, snapshot.storage, utilization);
    assert(out@ =~= render_spec(
        routes,
        snapshot.storage,
        match utilization {
            Some(u) => Some(u@),
            None => None,
        },
    ));
    out
}

} // verus!
