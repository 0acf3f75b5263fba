use vstd::prelude::*;
use crate::domain::{normalize_domain, normalized, bytes_eq};
use crate::error::ResolveError;
use crate::records::{MxRecord, sort_by_preference, records_view, duplicate_records};

verus! {

broadcast use vstd::seq_lib::group_to_multiset_ensures;

/// Shortest time a positive answer stays cached, whatever its record TTL.
pub const MIN_POSITIVE_TTL_MS: u64 = 60_000;

/// Default time a "no mail exchanger" answer stays cached. Deliberately
/// shorter-lived than positive answers: missing MX records get fixed more
/// often than valid ones get rotated.
pub const DEFAULT_NEGATIVE_TTL_MS: u64 = 300_000;

/// Default bound on a single upstream MX query.
pub const DEFAULT_TIMEOUT_MS: u64 = 5_000;

/// Default number of MX queries that may be in flight at once.
pub const DEFAULT_CONCURRENCY_LIMIT: usize = 128;

/// The resolved mail routing of a domain.
#[derive(Debug)]
pub struct MailExchanger {
    /// The normalised domain name.
    pub domain_name: Vec<u8>,
    /// The exchangers, in ascending order of preference.
    pub hosts: Vec<MxRecord>,
    /// Set when the domain definitively has no mail exchanger.
    pub no_mx: bool,
    /// When the answer was obtained, in milliseconds.
    pub resolved_at: u64,
}

/// What a [`MailExchanger`] says, as plain values.
pub struct MxView {
    pub domain_name: Seq<u8>,
    pub hosts: Seq<(u16, Seq<u8>)>,
    pub no_mx: bool,
    pub resolved_at: u64,
}

impl View for MailExchanger {
    type V = MxView;

    open spec fn view(&self) -> MxView {
        MxView {
            domain_name: self.domain_name@,
            hosts: records_view(self.hosts@),
            no_mx: self.no_mx,
            resolved_at: self.resolved_at,
        }
    }
}

impl MailExchanger {
    /// A copy of the answer.
    pub fn duplicate(&self) -> (r: MailExchanger)
        ensures
            r@ == self@,
    {
        let domain_name = self.domain_name.clone();
        assert(domain_name@ =~= self.domain_name@);
        MailExchanger {
            domain_name,
            hosts: duplicate_records(&self.hosts),
            no_mx: self.no_mx,
            resolved_at: self.resolved_at,
        }
    }
}

/// `a + b`, or the largest `u64` where that does not fit.
pub open spec fn saturating_sum(a: u64, b: u64) -> u64 {
    if a + b > u64::MAX {
        u64::MAX
    } else {
        (a + b) as u64
    }
}

fn add_saturating(a: u64, b: u64) -> (r: u64)
    ensures
        r == saturating_sum(a, b),
{
    if a > u64::MAX - b {
        u64::MAX
    } else {
        a + b
    }
}

/// When a positive answer obtained at `now` with record TTL `ttl_ms` expires.
pub open spec fn positive_expiry(now: u64, ttl_ms: u64) -> u64 {
    saturating_sum(now, if ttl_ms < MIN_POSITIVE_TTL_MS { MIN_POSITIVE_TTL_MS } else { ttl_ms })
}

/// A cached answer and the instant from which it is stale.
pub struct CacheEntry {
    key: Vec<u8>,
    value: MailExchanger,
    expires: u64,
}

/// What the engine tells its caller to do next for one resolution.
#[derive(Debug)]
pub enum MxStep {
    /// A fresh answer was cached; no query is needed.
    Hit(MailExchanger),
    /// A query for the same domain is in flight: wait for it, then ask again.
    WaitInFlight,
    /// Every concurrency token is taken: wait for one to be released, then ask again.
    WaitLimit,
    /// A token was granted: query the current backend, bounded by `timeout_ms`,
    /// and report the outcome with `complete`.
    Query { timeout_ms: u64 },
}

/// The plain-value form of an [`MxStep`].
pub enum StepView {
    Hit(MxView),
    WaitInFlight,
    WaitLimit,
    Query(u64),
}

impl View for MxStep {
    type V = StepView;

    open spec fn view(&self) -> StepView {
        match self {
            MxStep::Hit(m) => StepView::Hit(m@),
            MxStep::WaitInFlight => StepView::WaitInFlight,
            MxStep::WaitLimit => StepView::WaitLimit,
            MxStep::Query { timeout_ms } => StepView::Query(*timeout_ms),
        }
    }
}

/// How an upstream MX query ended.
#[derive(Debug)]
pub enum QueryOutcome {
    /// The exchangers, in the order the backend gave them, and the TTL of the records.
    Answer { records: Vec<MxRecord>, ttl_ms: u64 },
    /// An authoritative answer that the domain has no mail exchanger.
    NoMailExchanger,
    /// The query did not finish within its timeout.
    TimedOut,
    /// A transport error or a server failure.
    Failed,
}

/// The engine's state as plain values.
pub struct EngineModel {
    /// Per normalised domain: the cached answer and its expiry.
    pub cache: Map<Seq<u8>, (MxView, u64)>,
    /// The normalised domains with a query in flight.
    pub in_flight: Set<Seq<u8>>,
    /// The concurrency tokens in use: one per query in flight.
    pub active: nat,
    pub limit: nat,
    pub timeout_ms: u64,
    pub negative_ttl_ms: u64,
}

/// The model's own consistency: one token per domain in flight.
pub open spec fn model_valid(m: EngineModel) -> bool {
    m.in_flight.finite() && m.active == m.in_flight.len()
}

/// Whether the model holds an answer for `key` that is fresh at `now`.
pub open spec fn fresh(m: EngineModel, key: Seq<u8>, now: u64) -> bool {
    m.cache.contains_key(key) && now < m.cache[key].1
}

/// The decision `begin` takes, and the state after it.
pub open spec fn begin_spec(m: EngineModel, domain: Seq<u8>, now: u64) -> (EngineModel, StepView) {
    let key = normalized(domain);
    if fresh(m, key, now) {
        (m, StepView::Hit(m.cache[key].0))
    } else if m.in_flight.contains(key) {
        (m, StepView::WaitInFlight)
    } else if m.active >= m.limit {
        (m, StepView::WaitLimit)
    } else {
        (
            EngineModel { in_flight: m.in_flight.insert(key), active: m.active + 1, ..m },
            StepView::Query(m.timeout_ms),
        )
    }
}

/// The state after the query for `key` ended without a cacheable answer.
pub open spec fn release_spec(m: EngineModel, key: Seq<u8>) -> EngineModel {
    EngineModel { in_flight: m.in_flight.remove(key), active: (m.active - 1) as nat, ..m }
}

/// The state after the query for `key` ended with `value`, fresh until `expires`.
pub open spec fn record_spec(m: EngineModel, key: Seq<u8>, value: MxView, expires: u64) -> EngineModel {
    EngineModel { cache: m.cache.insert(key, (value, expires)), ..release_spec(m, key) }
}

/// Per-domain caching, negative caching, de-duplication of concurrent queries
/// and admission control for MX resolution.
pub struct MxEngine {
    entries: Vec<CacheEntry>,
    in_flight: Vec<Vec<u8>>,
    limit: usize,
    timeout_ms: u64,
    negative_ttl_ms: u64,
    cache: Ghost<Map<Seq<u8>, (MxView, u64)>>,
    flying: Ghost<Set<Seq<u8>>>,
}

impl View for MxEngine {
    type V = EngineModel;

    closed spec fn view(&self) -> EngineModel {
        EngineModel {
            cache: self.cache@,
            in_flight: self.flying@,
            active: self.in_flight@.len(),
            limit: self.limit as nat,
            timeout_ms: self.timeout_ms,
            negative_ttl_ms: self.negative_ttl_ms,
        }
    }
}

impl MxEngine {
    /// The engine's internal consistency: the cache and the in-flight list
    /// have unique keys and agree with the model.
    pub closed spec fn wf(&self) -> bool {
        &&& self.entries_unique()
        &&& self.entries_match()
        &&& self.cache_covered()
        &&& self.in_flight_unique()
        &&& self.in_flight_match()
        &&& self.cache_sorted()
        &&& self.flying@.finite()
        &&& self.flying@.len() == self.in_flight@.len()
    }

    /// A well-formed engine has a consistent model.
    pub proof fn lemma_model_valid(&self)
        requires
            self.wf(),
        ensures
            model_valid(self@),
    {
    }

    /// Well-formedness depends only on the cache and the in-flight list.
    proof fn lemma_wf_frame(a: &MxEngine, b: &MxEngine)
        requires
            a.wf(),
            a.entries@ == b.entries@,
            a.in_flight@ == b.in_flight@,
            a.cache@ == b.cache@,
            a.flying@ == b.flying@,
        ensures
            b.wf(),
    {
        assert forall|k: Seq<u8>| #[trigger] b.cache@.contains_key(k) implies exists|j: int|
            0 <= j < b.entries@.len() && b.entries@[j].key@ == k by {
            assert(a.cache@.contains_key(k));
            let j = choose|j: int| 0 <= j < a.entries@.len() && a.entries@[j].key@ == k;
            assert(b.entries@[j].key@ == k);
        }
        assert forall|k: Seq<u8>| #[trigger] b.flying@.contains(k) <==> exists|j: int|
            0 <= j < b.in_flight@.len() && b.in_flight@[j]@ == k by {
            if b.flying@.contains(k) {
                assert(a.flying@.contains(k));
                let j = choose|j: int| 0 <= j < a.in_flight@.len() && a.in_flight@[j]@ == k;
                assert(b.in_flight@[j]@ == k);
            }
            if exists|j: int| 0 <= j < b.in_flight@.len() && b.in_flight@[j]@ == k {
                let j = choose|j: int| 0 <= j < b.in_flight@.len() && b.in_flight@[j]@ == k;
                assert(a.in_flight@[j]@ == k);
                assert(a.flying@.contains(k));
            }
        }
        assert(b.entries_unique());
        assert(b.entries_match());
        assert(b.cache_covered());
        assert(b.in_flight_unique());
        assert(b.in_flight_match());
        assert(b.cache_sorted());
    }

    spec fn entries_unique(&self) -> bool {
        forall|i: int, j: int|
            0 <= i < j < self.entries@.len() ==> self.entries@[i].key@ != self.entries@[j].key@
    }

    spec fn entries_match(&self) -> bool {
        forall|i: int|
            0 <= i < self.entries@.len() ==> #[trigger] self.cache@.contains_key(self.entries@[i].key@)
                && self.cache@[self.entries@[i].key@] == (
                self.entries@[i].value@,
                self.entries@[i].expires,
            )
    }

    spec fn cache_covered(&self) -> bool {
        forall|k: Seq<u8>|
            #[trigger] self.cache@.contains_key(k) ==> exists|i: int|
                0 <= i < self.entries@.len() && self.entries@[i].key@ == k
    }

    spec fn in_flight_unique(&self) -> bool {
        forall|i: int, j: int|
            0 <= i < j < self.in_flight@.len() ==> self.in_flight@[i]@ != self.in_flight@[j]@
    }

    spec fn in_flight_match(&self) -> bool {
        forall|k: Seq<u8>|
            #[trigger] self.flying@.contains(k) <==> exists|i: int|
                0 <= i < self.in_flight@.len() && self.in_flight@[i]@ == k
    }

    spec fn cache_sorted(&self) -> bool {
        forall|k: Seq<u8>|
            #[trigger] self.cache@.contains_key(k) ==> sorted_view(self.cache@[k].0.hosts)
    }
}

/// Whether exchanger views are in ascending order of preference.
pub open spec fn sorted_view(s: Seq<(u16, Seq<u8>)>) -> bool {
    forall|i: int, j: int| 0 <= i < j < s.len() ==> s[i].0 <= s[j].0
}

impl MxEngine {
    /// An engine with an empty cache, nothing in flight and the default tunables.
    pub fn new() -> (r: MxEngine)
        ensures
            r.wf(),
            r@.cache == Map::<Seq<u8>, (MxView, u64)>::empty(),
            r@.in_flight == Set::<Seq<u8>>::empty(),
            r@.active == 0,
            r@.limit == DEFAULT_CONCURRENCY_LIMIT,
            r@.timeout_ms == DEFAULT_TIMEOUT_MS,
            r@.negative_ttl_ms == DEFAULT_NEGATIVE_TTL_MS,
    {
        MxEngine {
            entries: Vec::new(),
            in_flight: Vec::new(),
            limit: DEFAULT_CONCURRENCY_LIMIT,
            timeout_ms: DEFAULT_TIMEOUT_MS,
            negative_ttl_ms: DEFAULT_NEGATIVE_TTL_MS,
            cache: Ghost(Map::empty()),
            flying: Ghost(Set::empty()),
        }
    }

    fn find_entry(&self, key: &Vec<u8>) -> (r: Option<usize>)
        requires
            self.wf(),
        ensures
            match r {
                Some(i) => i < self.entries@.len() && self.entries@[i as int].key@ == key@,
                None => !self.cache@.contains_key(key@),
            },
    {
        let mut i: usize = 0;
        while i < self.entries.len()
            invariant
                self.wf(),
                i <= self.entries@.len(),
                forall|j: int| 0 <= j < i ==> self.entries@[j].key@ != key@,
            decreases self.entries@.len() - i,
        {
            if bytes_eq(self.entries[i].key.as_slice(), key.as_slice()) {
                return Some(i);
            }
            i = i + 1;
        }
        None
    }

    fn find_in_flight(&self, key: &Vec<u8>) -> (r: Option<usize>)
        requires
            self.wf(),
        ensures
            match r {
                Some(i) => i < self.in_flight@.len() && self.in_flight@[i as int]@ == key@,
                None => !self.flying@.contains(key@),
            },
    {
        let mut i: usize = 0;
        while i < self.in_flight.len()
            invariant
                self.wf(),
                i <= self.in_flight@.len(),
                forall|j: int| 0 <= j < i ==> self.in_flight@[j]@ != key@,
            decreases self.in_flight@.len() - i,
        {
            if bytes_eq(self.in_flight[i].as_slice(), key.as_slice()) {
                return Some(i);
            }
            i = i + 1;
        }
        None
    }

    /// Starts one resolution of `domain` at `now`: serves a fresh cached answer,
    /// or asks the caller to wait, or grants a concurrency token for a query.
    pub fn begin(&mut self, domain: &[u8], now: u64) -> (r: MxStep)
        requires
            old(self).wf(),
        ensures
            final(self).wf(),
            (final(self)@, r@) == begin_spec(old(self)@, domain@, now),
    {
        let key = normalize_domain(domain);
        match self.find_entry(&key) {
            Some(i) => {
                assert(self.cache@.contains_key(self.entries@[i as int].key@));
                if now < self.entries[i].expires {
                    return MxStep::Hit(self.entries[i].value.duplicate());
                }
            },
            None => {},
        }
        if self.find_in_flight(&key).is_some() {
            return MxStep::WaitInFlight;
        }
        if self.in_flight.len() >= self.limit {
            return MxStep::WaitLimit;
        }
        let ghost old_self = *self;
        assert(!self.flying@.contains(key@));
        assert forall|i: int| 0 <= i < self.in_flight@.len() implies self.in_flight@[i]@ != key@ by {
            if self.in_flight@[i]@ == key@ {
                assert(self.flying@.contains(self.in_flight@[i]@));
            }
        }
        proof {
            self.flying@ = self.flying@.insert(key@);
        }
        self.in_flight.push(key);
        assert forall|i: int, j: int| 0 <= i < j < self.in_flight@.len() implies self.in_flight@[i]@
            != self.in_flight@[j]@ by {
            if j < old_self.in_flight@.len() {
                assert(old_self.in_flight@[i]@ != old_self.in_flight@[j]@);
            } else {
                assert(old_self.in_flight@[i]@ != key@);
            }
        }
        assert forall|k: Seq<u8>| #[trigger] self.flying@.contains(k) <==> exists|i: int|
            0 <= i < self.in_flight@.len() && self.in_flight@[i]@ == k by {
            if k != key@ && self.flying@.contains(k) {
                let i = choose|i: int| 0 <= i < old_self.in_flight@.len() && old_self.in_flight@[i]@ == k;
                assert(self.in_flight@[i]@ == k);
            }
            if k == key@ {
                assert(self.in_flight@[self.in_flight@.len() - 1]@ == k);
            }
        }
        assert(self.entries@ == old_self.entries@ && self.cache@ == old_self.cache@);
        assert(self.wf());
        MxStep::Query { timeout_ms: self.timeout_ms }
    }
}

impl MxEngine {
    fn release(&mut self, key: &Vec<u8>)
        requires
            old(self).wf(),
            old(self)@.in_flight.contains(key@),
        ensures
            final(self).wf(),
            final(self)@ == release_spec(old(self)@, key@),
            final(self).entries@ == old(self).entries@,
    {
        let ghost old_self = *self;
        match self.find_in_flight(key) {
            Some(i) => {
                self.in_flight.remove(i);
                proof {
                    self.flying@ = self.flying@.remove(key@);
                }
                assert(old_self.in_flight@.remove(i as int) == self.in_flight@);
                assert forall|a: int, b: int| 0 <= a < b < self.in_flight@.len() implies self.in_flight@[a]@
                    != self.in_flight@[b]@ by {
                    let a0 = if a < i { a } else { a + 1 };
                    let b0 = if b < i { b } else { b + 1 };
                    assert(old_self.in_flight@[a0]@ != old_self.in_flight@[b0]@);
                }
                assert forall|k: Seq<u8>| #[trigger] self.flying@.contains(k) <==> exists|j: int|
                    0 <= j < self.in_flight@.len() && self.in_flight@[j]@ == k by {
                    if self.flying@.contains(k) {
                        assert(old_self.flying@.contains(k));
                        let j0 = choose|j: int| 0 <= j < old_self.in_flight@.len() && old_self.in_flight@[j]@ == k;
                        assert(j0 != i);
                        let j = if j0 < i { j0 } else { j0 - 1 };
                        assert(self.in_flight@[j]@ == k);
                    }
                    if exists|j: int| 0 <= j < self.in_flight@.len() && self.in_flight@[j]@ == k {
                        let j = choose|j: int| 0 <= j < self.in_flight@.len() && self.in_flight@[j]@ == k;
                        let j0 = if j < i { j } else { j + 1 };
                        assert(old_self.in_flight@[j0]@ == k);
                        assert(j0 != i);
                        assert(old_self.flying@.contains(k));
                    }
                }
                assert(self.cache@ == old_self.cache@);
                assert(self.entries@ == old_self.entries@);
                assert forall|k: Seq<u8>| #[trigger] self.cache@.contains_key(k) implies exists|j: int|
                    0 <= j < self.entries@.len() && self.entries@[j].key@ == k by {
                    assert(old_self.cache@.contains_key(k));
                    let j = choose|j: int| 0 <= j < old_self.entries@.len() && old_self.entries@[j].key@ == k;
                    assert(self.entries@[j].key@ == k);
                }
                assert(self.entries_unique());
                assert(self.entries_match());
                assert(self.cache_covered());
                assert(self.in_flight_unique());
                assert(self.in_flight_match());
                assert(self.cache_sorted());
                assert(self.wf());
                assert(self@ =~= release_spec(old_self@, key@));
            },
            None => {},
        }
    }

    fn store(&mut self, key: Vec<u8>, value: MailExchanger, expires: u64)
        requires
            old(self).wf(),
            sorted_view(value@.hosts),
        ensures
            final(self).wf(),
            final(self)@ == (EngineModel {
                cache: old(self)@.cache.insert(key@, (value@, expires)),
                ..old(self)@
            }),
    {
        let ghost old_self = *self;
        let ghost kv = key@;
        let ghost vv = value@;
        match self.find_entry(&key) {
            Some(i) => {
                self.entries.set(i, CacheEntry { key, value, expires });
                proof {
                    self.cache@ = self.cache@.insert(kv, (vv, expires));
                }
                assert forall|a: int| 0 <= a < self.entries@.len() implies #[trigger] self.cache@.contains_key(
                    self.entries@[a].key@) && self.cache@[self.entries@[a].key@] == (
                    self.entries@[a].value@,
                    self.entries@[a].expires,
                ) by {
                    if a != i {
                        assert(old_self.cache@.contains_key(old_self.entries@[a].key@));
                        assert(old_self.entries@[a].key@ != kv) by {
                            if a < i {
                                assert(old_self.entries@[a].key@ != old_self.entries@[i as int].key@);
                            } else {
                                assert(old_self.entries@[i as int].key@ != old_self.entries@[a].key@);
                            }
                        }
                    }
                }
                assert forall|k: Seq<u8>| #[trigger] self.cache@.contains_key(k) implies exists|a: int|
                    0 <= a < self.entries@.len() && self.entries@[a].key@ == k by {
                    if k == kv {
                        assert(self.entries@[i as int].key@ == k);
                    } else {
                        assert(old_self.cache@.contains_key(k));
                        let a = choose|a: int| 0 <= a < old_self.entries@.len() && old_self.entries@[a].key@ == k;
                        assert(self.entries@[a].key@ == k);
                    }
                }
                assert forall|a: int, b: int| 0 <= a < b < self.entries@.len() implies self.entries@[a].key@
                    != self.entries@[b].key@ by {
                    assert(old_self.entries@[a].key@ != old_self.entries@[b].key@);
                }
            },
            None => {
                self.entries.push(CacheEntry { key, value, expires });
                proof {
                    self.cache@ = self.cache@.insert(kv, (vv, expires));
                }
                let ghost n: int = self.entries@.len() - 1;
                assert forall|a: int| 0 <= a < self.entries@.len() implies #[trigger] self.cache@.contains_key(
                    self.entries@[a].key@) && self.cache@[self.entries@[a].key@] == (
                    self.entries@[a].value@,
                    self.entries@[a].expires,
                ) by {
                    if a < n {
                        assert(old_self.cache@.contains_key(old_self.entries@[a].key@));
                    }
                }
                assert forall|k: Seq<u8>| #[trigger] self.cache@.contains_key(k) implies exists|a: int|
                    0 <= a < self.entries@.len() && self.entries@[a].key@ == k by {
                    if k == kv {
                        assert(self.entries@[n].key@ == k);
                    } else {
                        assert(old_self.cache@.contains_key(k));
                        let a = choose|a: int| 0 <= a < old_self.entries@.len() && old_self.entries@[a].key@ == k;
                        assert(self.entries@[a].key@ == k);
                    }
                }
                assert forall|a: int, b: int| 0 <= a < b < self.entries@.len() implies self.entries@[a].key@
                    != self.entries@[b].key@ by {
                    if b < n {
                        assert(old_self.entries@[a].key@ != old_self.entries@[b].key@);
                    } else {
                        assert(old_self.cache@.contains_key(old_self.entries@[a].key@));
                    }
                }
            },
        }
        assert(self.in_flight@ == old_self.in_flight@ && self.flying@ == old_self.flying@);
        assert forall|k: Seq<u8>| #[trigger] self.flying@.contains(k) <==> exists|j: int|
            0 <= j < self.in_flight@.len() && self.in_flight@[j]@ == k by {
            if self.flying@.contains(k) {
                assert(old_self.flying@.contains(k));
                let j = choose|j: int| 0 <= j < old_self.in_flight@.len() && old_self.in_flight@[j]@ == k;
                assert(self.in_flight@[j]@ == k);
            }
            if exists|j: int| 0 <= j < self.in_flight@.len() && self.in_flight@[j]@ == k {
                let j = choose|j: int| 0 <= j < self.in_flight@.len() && self.in_flight@[j]@ == k;
                assert(old_self.in_flight@[j]@ == k);
                assert(old_self.flying@.contains(k));
            }
        }
        assert(self.in_flight_unique());
        assert(self.in_flight_match());
        assert forall|k: Seq<u8>| #[trigger] self.cache@.contains_key(k) implies sorted_view(self.cache@[k].0.hosts) by {
            if k != kv {
                assert(old_self.cache@.contains_key(k));
            }
        }
        assert(self.wf());
        assert(self@ =~= EngineModel { cache: old_self@.cache.insert(kv, (vv, expires)), ..old_self@ });
    }
}

/// The "no mail exchanger" answer for `key`, obtained at `now`.
pub open spec fn negative_view(key: Seq<u8>, now: u64) -> MxView {
    MxView { domain_name: key, hosts: Seq::empty(), no_mx: true, resolved_at: now }
}

impl MxEngine {
    /// Ends the query that `begin` granted for `domain`: releases its token,
    /// caches a positive answer until `positive_expiry` and a negative one for
    /// the negative-cache TTL, and caches nothing on a timeout or failure.
    pub fn complete(&mut self, domain: &[u8], outcome: QueryOutcome, now: u64) -> (r: Result<
        MailExchanger,
        ResolveError,
    >)
        requires
            old(self).wf(),
            old(self)@.in_flight.contains(normalized(domain@)),
        ensures
            final(self).wf(),
            match outcome {
                QueryOutcome::Answer { records, ttl_ms } => if records@.len() > 0 {
                    r matches Ok(v) && v@.domain_name == normalized(domain@) && !v.no_mx
                        && v.resolved_at == now && sorted_view(v@.hosts)
                        && v.hosts@.to_multiset() == records@.to_multiset()
                        && final(self)@ == record_spec(
                        old(self)@,
                        normalized(domain@),
                        v@,
                        positive_expiry(now, ttl_ms),
                    )
                } else {
                    r matches Ok(v) && v@ == negative_view(normalized(domain@), now)
                        && final(self)@ == record_spec(
                        old(self)@,
                        normalized(domain@),
                        v@,
                        saturating_sum(now, old(self)@.negative_ttl_ms),
                    )
                },
                QueryOutcome::NoMailExchanger => r matches Ok(v) && v@ == negative_view(
                    normalized(domain@),
                    now,
                ) && final(self)@ == record_spec(
                    old(self)@,
                    normalized(domain@),
                    v@,
                    saturating_sum(now, old(self)@.negative_ttl_ms),
                ),
                _ => r == Err::<MailExchanger, ResolveError>(ResolveError::Temporary) && final(self)@
                    == release_spec(old(self)@, normalized(domain@)),
            },
    {
        let key = normalize_domain(domain);
        self.release(&key);
        let (hosts, expires) = match outcome {
            QueryOutcome::Answer { records, ttl_ms } => {
                if records.len() > 0 {
                    let ttl = if ttl_ms < MIN_POSITIVE_TTL_MS {
                        MIN_POSITIVE_TTL_MS
                    } else {
                        ttl_ms
                    };
                    let ghost given = records@;
                    let sorted = sort_by_preference(records);
                    assert(sorted@.to_multiset().len() == given.to_multiset().len());
                    assert(sorted@.len() == given.len());
                    (sorted, add_saturating(now, ttl))
                } else {
                    (Vec::new(), add_saturating(now, self.negative_ttl_ms))
                }
            },
            QueryOutcome::NoMailExchanger => (Vec::new(), add_saturating(now, self.negative_ttl_ms)),
            _ => {
                return Err(ResolveError::Temporary);
            },
        };
        let no_mx = hosts.len() == 0;
        let answer = MailExchanger { domain_name: key.clone(), hosts, no_mx, resolved_at: now };
        assert(answer.domain_name@ =~= key@);
        assert(answer@.hosts =~= records_view(answer.hosts@));
        assert(sorted_view(answer@.hosts));
        proof {
            if no_mx {
                assert(answer@.hosts =~= Seq::<(u16, Seq<u8>)>::empty());
            }
        }
        let stored = answer.duplicate();
        self.store(key, stored, expires);
        Ok(answer)
    }

    /// Sets the number of MX queries that may be in flight at once. Tokens
    /// already granted stay granted.
    pub fn set_concurrency_limit(&mut self, limit: usize)
        requires
            old(self).wf(),
        ensures
            final(self).wf(),
            final(self)@ == (EngineModel { limit: limit as nat, ..old(self)@ }),
    {
        let ghost before = *self;
        self.limit = limit;
        proof {
            MxEngine::lemma_wf_frame(&before, self);
        }
    }

    /// Sets the bound on queries granted from now on.
    pub fn set_timeout(&mut self, timeout_ms: u64)
        requires
            old(self).wf(),
        ensures
            final(self).wf(),
            final(self)@ == (EngineModel { timeout_ms, ..old(self)@ }),
    {
        let ghost before = *self;
        self.timeout_ms = timeout_ms;
        proof {
            MxEngine::lemma_wf_frame(&before, self);
        }
    }

    /// Sets how long "no mail exchanger" answers recorded from now on stay cached.
    pub fn set_negative_cache_ttl(&mut self, ttl_ms: u64)
        requires
            old(self).wf(),
        ensures
            final(self).wf(),
            final(self)@ == (EngineModel { negative_ttl_ms: ttl_ms, ..old(self)@ }),
    {
        let ghost before = *self;
        self.negative_ttl_ms = ttl_ms;
        proof {
            MxEngine::lemma_wf_frame(&before, self);
        }
    }

    /// Drops every cached answer; queries in flight are unaffected.
    pub fn flush_cache(&mut self)
        requires
            old(self).wf(),
        ensures
            final(self).wf(),
            final(self)@ == (EngineModel { cache: Map::empty(), ..old(self)@ }),
    {
        self.entries = Vec::new();
        proof {
            self.cache@ = Map::empty();
        }
        assert(self@ =~= EngineModel { cache: Map::empty(), ..old(self)@ });
    }

    /// The current tunables: concurrency limit, query timeout and negative-cache TTL.
    pub fn limit(&self) -> (r: usize)
        requires
            self.wf(),
        ensures
            r == self@.limit,
    {
        self.limit
    }

    /// The number of concurrency tokens in use.
    pub fn active(&self) -> (r: usize)
        requires
            self.wf(),
        ensures
            r == self@.active,
    {
        self.in_flight.len()
    }
}

} // verus!
