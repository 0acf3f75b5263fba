use vstd::prelude::*;
use crate::domain::normalized;
use crate::mx::{
    EngineModel, MxView, StepView, begin_spec, fresh, model_valid, negative_view, positive_expiry,
    record_spec, release_spec, saturating_sum,
};

verus! {

/// Resolving a domain twice within the TTL of its answer issues one upstream
/// query: a concurrent resolution of the same domain (however it is spelled)
/// waits for the query in flight, and once its answer is recorded a later
/// resolution before expiry is served that same answer, with no query and no
/// token.
pub proof fn lemma_one_query_within_ttl(
    m0: EngineModel,
    domain: Seq<u8>,
    other: Seq<u8>,
    started: u64,
    meanwhile: u64,
    done: u64,
    later: u64,
    answer: MxView,
    ttl_ms: u64,
)
    requires
        model_valid(m0),
        begin_spec(m0, domain, started).1 is Query,
        normalized(other) == normalized(domain),
        done <= later < positive_expiry(done, ttl_ms),
    ensures
        ({
            let m1 = begin_spec(m0, domain, started).0;
            let m2 = record_spec(m1, normalized(domain), answer, positive_expiry(done, ttl_ms));
            &&& !(begin_spec(m1, other, meanwhile).1 is Query)
            &&& begin_spec(m1, other, meanwhile).0 == m1
            &&& begin_spec(m2, other, later) == (m2, StepView::Hit(answer))
        }),
{
    let key = normalized(domain);
    let m1 = begin_spec(m0, domain, started).0;
    assert(m1.in_flight.contains(key));
    let m2 = record_spec(m1, key, answer, positive_expiry(done, ttl_ms));
    assert(m2.cache.contains_key(key) && m2.cache[key] == (answer, positive_expiry(done, ttl_ms)));
}

/// A "no mail exchanger" answer recorded at `done` is served from the cache
/// for exactly the negative-cache TTL; from then on a resolution no longer
/// hits the cache and queries again as soon as a token is free.
pub proof fn lemma_negative_answer_ttl(m1: EngineModel, domain: Seq<u8>, done: u64, at: u64)
    requires
        model_valid(m1),
        m1.in_flight.contains(normalized(domain)),
    ensures
        ({
            let key = normalized(domain);
            let expires = saturating_sum(done, m1.negative_ttl_ms);
            let m2 = record_spec(m1, key, negative_view(key, done), expires);
            &&& model_valid(m2)
            &&& done <= at < expires ==> begin_spec(m2, domain, at) == (
                m2,
                StepView::Hit(negative_view(key, done)),
            )
            &&& at >= expires ==> !(begin_spec(m2, domain, at).1 is Hit)
            &&& at >= expires ==> ((begin_spec(m2, domain, at).1 is Query) <==> m2.active < m2.limit)
        }),
{
    let key = normalized(domain);
    let expires = saturating_sum(done, m1.negative_ttl_ms);
    let m2 = record_spec(m1, key, negative_view(key, done), expires);
    assert(m2.cache[key] == (negative_view(key, done), expires));
    assert(!m2.in_flight.contains(key));
}

/// Admission control: a resolution is granted a query only while fewer
/// tokens than the limit are in use, so with at most `limit` tokens in use
/// before, there are at most `limit` after.
pub proof fn lemma_limit_respected(m: EngineModel, domain: Seq<u8>, now: u64)
    requires
        model_valid(m),
        m.active <= m.limit,
    ensures
        model_valid(begin_spec(m, domain, now).0),
        begin_spec(m, domain, now).0.active <= m.limit,
        begin_spec(m, domain, now).1 is Query ==> m.active < m.limit && begin_spec(
            m,
            domain,
            now,
        ).0.active == m.active + 1,
{
}

/// With a limit of one token, while the query for one domain is in flight a
/// resolution of another domain that is not cached does not start a query;
/// it starts one once the first query has ended.
pub proof fn lemma_single_token_serialises(m: EngineModel, first: Seq<u8>, second: Seq<u8>, now: u64)
    requires
        model_valid(m),
        m.limit == 1,
        m.active <= m.limit,
        m.in_flight.contains(normalized(first)),
        !m.in_flight.contains(normalized(second)),
        !fresh(m, normalized(second), now),
    ensures
        begin_spec(m, second, now).1 == StepView::WaitLimit,
        begin_spec(release_spec(m, normalized(first)), second, now).1 == StepView::Query(
            m.timeout_ms,
        ),
{
    assert(m.in_flight.remove(normalized(first)).len() == m.in_flight.len() - 1);
}

/// A query that timed out (or failed) gives its token back and leaves the
/// cache as it was, so an unrelated resolution that finds all tokens taken
/// before is granted a query after.
pub proof fn lemma_timeout_releases_token(m: EngineModel, timed_out: Seq<u8>, other: Seq<u8>, now: u64)
    requires
        model_valid(m),
        m.active <= m.limit,
        m.in_flight.contains(normalized(timed_out)),
        !m.in_flight.contains(normalized(other)),
        !fresh(m, normalized(other), now),
    ensures
        ({
            let m1 = release_spec(m, normalized(timed_out));
            &&& model_valid(m1)
            &&& m1.cache == m.cache
            &&& m1.active + 1 == m.active
            &&& begin_spec(m1, other, now).1 == StepView::Query(m.timeout_ms)
        }),
{
    assert(m.in_flight.remove(normalized(timed_out)).len() == m.in_flight.len() - 1);
}

/// Once the cached answer for a domain has expired, the next resolution
/// queries the backend current at that time, and the answer recorded from it
/// is the one served until it expires in turn.
pub proof fn lemma_fresh_query_after_expiry(
    m: EngineModel,
    domain: Seq<u8>,
    now: u64,
    answer: MxView,
    expires: u64,
    later: u64,
)
    requires
        model_valid(m),
        m.cache.contains_key(normalized(domain)),
        now >= m.cache[normalized(domain)].1,
        !m.in_flight.contains(normalized(domain)),
        m.active < m.limit,
        later < expires,
    ensures
        ({
            let m1 = begin_spec(m, domain, now).0;
            let m2 = record_spec(m1, normalized(domain), answer, expires);
            &&& begin_spec(m, domain, now).1 == StepView::Query(m.timeout_ms)
            &&& begin_spec(m2, domain, later) == (m2, StepView::Hit(answer))
        }),
{
    let key = normalized(domain);
    let m1 = begin_spec(m, domain, now).0;
    let m2 = record_spec(m1, key, answer, expires);
    assert(m2.cache[key] == (answer, expires));
}

} // verus!
