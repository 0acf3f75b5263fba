use mod_dns_resolver::address::{merge_families, IpAddress};
use mod_dns_resolver::config::{
    standard_plan, validating_plan, AddressText, Backend, DnsConfig, HostsPolicy, NameServerSpec,
    Protocol, ResolverSlot, SocketAddress,
};
use mod_dns_resolver::domain::{bytes_eq, normalize_domain};
use mod_dns_resolver::error::{ConfigField, ResolveError};
use mod_dns_resolver::mx::{
    MxEngine, MxStep, QueryOutcome, DEFAULT_NEGATIVE_TTL_MS, DEFAULT_TIMEOUT_MS,
    MIN_POSITIVE_TTL_MS,
};
use mod_dns_resolver::records::{sort_by_preference, MxRecord};
use mod_dns_resolver::test_backend::{RecordData, TestZones};

fn mx(preference: u16, host: &str) -> RecordData {
    RecordData::Mx { preference, host: host.as_bytes().to_vec() }
}

fn zones_of(backend: &Backend) -> &TestZones {
    match backend {
        Backend::Test(z) => z,
        other => panic!("unexpected backend {:?}", other),
    }
}

fn rec(preference: u16, host: &str) -> MxRecord {
    MxRecord { preference, host: host.as_bytes().to_vec() }
}

fn hosts(records: &[MxRecord]) -> Vec<(u16, String)> {
    records
        .iter()
        .map(|r| (r.preference, String::from_utf8(r.host.clone()).unwrap()))
        .collect()
}

fn answer(records: Vec<MxRecord>, ttl_ms: u64) -> QueryOutcome {
    QueryOutcome::Answer { records, ttl_ms }
}

fn addr(text: &str, parsed: Option<SocketAddress>) -> AddressText {
    AddressText { text: text.to_string(), parsed }
}

fn v4(a: u8, b: u8, c: u8, d: u8, port: u16) -> SocketAddress {
    SocketAddress { ip: IpAddress::V4(u32::from_be_bytes([a, b, c, d])), port }
}

fn empty_config() -> DnsConfig {
    DnsConfig {
        domain: None,
        search: vec![],
        name_servers: vec![],
        validate: false,
        use_hosts_file: HostsPolicy::Never,
    }
}

#[test]
fn normalizes_case_and_trailing_dot() {
    assert_eq!(normalize_domain(b"Example.COM."), b"example.com".to_vec());
    assert_eq!(normalize_domain(b"example.com"), b"example.com".to_vec());
    assert_eq!(normalize_domain(b""), Vec::<u8>::new());
    assert_eq!(normalize_domain(b"."), Vec::<u8>::new());
    assert_eq!(normalize_domain(b"a.."), b"a.".to_vec());
}

#[test]
fn compares_bytes() {
    assert!(bytes_eq(b"abc", b"abc"));
    assert!(!bytes_eq(b"abc", b"abd"));
    assert!(!bytes_eq(b"abc", b"ab"));
}

#[test]
fn sorts_by_preference_keeping_ties_in_order() {
    let sorted = sort_by_preference(vec![rec(20, "b"), rec(10, "a"), rec(20, "c"), rec(5, "z")]);
    assert_eq!(
        hosts(&sorted),
        vec![(5, "z".to_string()), (10, "a".to_string()), (20, "b".to_string()), (20, "c".to_string())]
    );
    assert!(sort_by_preference(vec![]).is_empty());
}

#[test]
fn positive_answer_served_from_cache_within_ttl() {
    let mut engine = MxEngine::new();
    let first = engine.begin(b"Example.com", 1_000);
    assert!(matches!(first, MxStep::Query { timeout_ms } if timeout_ms == DEFAULT_TIMEOUT_MS));
    // a concurrent caller for the same domain does not issue a second query
    assert!(matches!(engine.begin(b"example.com.", 1_001), MxStep::WaitInFlight));
    let got = engine
        .complete(b"example.com", answer(vec![rec(20, "mx2.example.com"), rec(10, "mx1.example.com")], 600_000), 1_002)
        .unwrap();
    assert!(!got.no_mx);
    assert_eq!(got.domain_name, b"example.com".to_vec());
    assert_eq!(got.resolved_at, 1_002);
    assert_eq!(engine.active(), 0);
    let again = match engine.begin(b"EXAMPLE.com", 500_000) {
        MxStep::Hit(m) => m,
        other => panic!("expected a cache hit, got {:?}", other),
    };
    assert_eq!(hosts(&again.hosts), hosts(&got.hosts));
    assert_eq!(
        hosts(&again.hosts),
        vec![(10, "mx1.example.com".to_string()), (20, "mx2.example.com".to_string())]
    );
    assert_eq!(engine.active(), 0);
    // once the TTL has passed, the domain is queried again
    assert!(matches!(engine.begin(b"example.com", 601_002), MxStep::Query { .. }));
}

#[test]
fn short_ttl_is_raised_to_the_floor() {
    let mut engine = MxEngine::new();
    assert!(matches!(engine.begin(b"a.test", 0), MxStep::Query { .. }));
    engine.complete(b"a.test", answer(vec![rec(1, "mx.a.test")], 5), 0).unwrap();
    assert!(matches!(engine.begin(b"a.test", MIN_POSITIVE_TTL_MS - 1), MxStep::Hit(_)));
    assert!(matches!(engine.begin(b"a.test", MIN_POSITIVE_TTL_MS), MxStep::Query { .. }));
}

#[test]
fn negative_answer_cached_for_negative_ttl() {
    let mut engine = MxEngine::new();
    engine.set_negative_cache_ttl(30_000);
    assert!(matches!(engine.begin(b"nomx.test", 100), MxStep::Query { .. }));
    let got = engine.complete(b"nomx.test", QueryOutcome::NoMailExchanger, 100).unwrap();
    assert!(got.no_mx);
    assert!(got.hosts.is_empty());
    match engine.begin(b"nomx.test", 30_099) {
        MxStep::Hit(m) => assert!(m.no_mx),
        other => panic!("expected a negative hit, got {:?}", other),
    }
    assert!(matches!(engine.begin(b"nomx.test", 30_100), MxStep::Query { .. }));
}

#[test]
fn empty_answer_is_negative() {
    let mut engine = MxEngine::new();
    assert!(matches!(engine.begin(b"e.test", 0), MxStep::Query { .. }));
    let got = engine.complete(b"e.test", answer(vec![], 900_000), 0).unwrap();
    assert!(got.no_mx);
    assert!(matches!(engine.begin(b"e.test", DEFAULT_NEGATIVE_TTL_MS - 1), MxStep::Hit(_)));
    assert!(matches!(engine.begin(b"e.test", DEFAULT_NEGATIVE_TTL_MS), MxStep::Query { .. }));
}

#[test]
fn limit_of_one_serialises_queries() {
    let mut engine = MxEngine::new();
    engine.set_concurrency_limit(1);
    assert_eq!(engine.limit(), 1);
    assert!(matches!(engine.begin(b"one.test", 0), MxStep::Query { .. }));
    assert!(matches!(engine.begin(b"two.test", 0), MxStep::WaitLimit));
    assert_eq!(engine.active(), 1);
    engine.complete(b"one.test", answer(vec![rec(1, "mx.one.test")], 60_000), 1).unwrap();
    assert_eq!(engine.active(), 0);
    assert!(matches!(engine.begin(b"two.test", 2), MxStep::Query { .. }));
    assert_eq!(engine.active(), 1);
}

#[test]
fn timeout_is_temporary_and_releases_token() {
    let mut engine = MxEngine::new();
    engine.set_concurrency_limit(1);
    engine.set_timeout(250);
    assert!(matches!(engine.begin(b"slow.test", 0), MxStep::Query { timeout_ms: 250 }));
    let r = engine.complete(b"slow.test", QueryOutcome::TimedOut, 250);
    assert_eq!(r.unwrap_err(), ResolveError::Temporary);
    assert!(r_is_retryable(&ResolveError::Temporary));
    assert_eq!(engine.active(), 0);
    assert!(matches!(engine.begin(b"other.test", 251), MxStep::Query { .. }));
    // the failure was not cached
    engine.complete(b"other.test", QueryOutcome::Failed, 252).unwrap_err();
    assert!(matches!(engine.begin(b"slow.test", 253), MxStep::Query { .. }));
}

fn r_is_retryable(e: &ResolveError) -> bool {
    e.is_retryable() && !e.is_cacheable()
}

#[test]
fn fresh_query_after_expiry_serves_new_answer() {
    let mut engine = MxEngine::new();
    let mut slot = ResolverSlot::new();
    slot.configure_test(TestZones::new().with_record(b"d.test".to_vec(), 60_000, mx(10, "old.d.test")));
    assert!(matches!(engine.begin(b"d.test", 0), MxStep::Query { .. }));
    let outcome = zones_of(slot.backend().unwrap()).lookup_mx(b"d.test");
    engine.complete(b"d.test", outcome, 0).unwrap();

    // a query that starts before the swap is answered by the old backend
    assert!(matches!(engine.begin(b"other.test", 1), MxStep::Query { .. }));
    let in_flight = zones_of(slot.backend().unwrap()).lookup_mx(b"other.test");
    slot.configure_test(
        TestZones::new()
            .with_record(b"d.test".to_vec(), 60_000, mx(5, "new.d.test"))
            .with_record(b"other.test".to_vec(), 60_000, mx(1, "mx.other.test")),
    );
    let got = engine.complete(b"other.test", in_flight, 2).unwrap();
    assert!(got.no_mx);

    // the cache is left as it was by the swap
    match engine.begin(b"d.test", 59_999) {
        MxStep::Hit(m) => assert_eq!(hosts(&m.hosts), vec![(10, "old.d.test".to_string())]),
        other => panic!("expected a hit, got {:?}", other),
    }
    assert!(matches!(engine.begin(b"d.test", 60_000), MxStep::Query { .. }));
    let outcome = zones_of(slot.backend().unwrap()).lookup_mx(b"d.test");
    engine.complete(b"d.test", outcome, 60_000).unwrap();
    match engine.begin(b"d.test", 60_001) {
        MxStep::Hit(m) => assert_eq!(hosts(&m.hosts), vec![(5, "new.d.test".to_string())]),
        other => panic!("expected a hit, got {:?}", other),
    }
}

#[test]
fn test_backend_answers_mx_in_registration_order_with_smallest_ttl() {
    let zones = TestZones::new()
        .with_record(b"Mail.Test.".to_vec(), 900_000, mx(20, "b.mail.test"))
        .with_record(b"other.test".to_vec(), 1, mx(1, "x.other.test"))
        .with_record(b"mail.test".to_vec(), 300_000, mx(10, "a.mail.test"))
        .with_record(b"mail.test".to_vec(), 5, RecordData::A(0x7f000001));
    match zones.lookup_mx(b"MAIL.test") {
        QueryOutcome::Answer { records, ttl_ms } => {
            assert_eq!(
                hosts(&records),
                vec![(20, "b.mail.test".to_string()), (10, "a.mail.test".to_string())]
            );
            assert_eq!(ttl_ms, 300_000);
        }
        other => panic!("unexpected outcome {:?}", other),
    }
    assert!(matches!(zones.lookup_mx(b"nomx.test"), QueryOutcome::NoMailExchanger));
}

#[test]
fn test_backend_seeded_mx_resolves_through_engine() {
    let zones = TestZones::new()
        .with_record(b"seeded.test".to_vec(), 120_000, mx(30, "c.seeded.test"))
        .with_record(b"seeded.test".to_vec(), 120_000, mx(10, "a.seeded.test"));
    let mut engine = MxEngine::new();
    assert!(matches!(engine.begin(b"seeded.test", 0), MxStep::Query { .. }));
    let first = engine.complete(b"seeded.test", zones.lookup_mx(b"seeded.test"), 0).unwrap();
    let second = match engine.begin(b"seeded.test", 119_999) {
        MxStep::Hit(m) => m,
        other => panic!("expected a hit, got {:?}", other),
    };
    assert_eq!(hosts(&first.hosts), hosts(&second.hosts));
    assert_eq!(
        hosts(&second.hosts),
        vec![(10, "a.seeded.test".to_string()), (30, "c.seeded.test".to_string())]
    );
}

#[test]
fn test_backend_aaaa_only_host() {
    let zones = TestZones::new()
        .with_record(b"v6.test".to_vec(), 60, RecordData::Aaaa(0x2001_0db8_0000_0000_0000_0000_0000_0001))
        .with_record(b"v4.test".to_vec(), 60, RecordData::A(0x0a000001));
    assert_eq!(zones.lookup_family(b"v6.test", false).unwrap_err(), ResolveError::NotFound);
    assert_eq!(
        zones.resolve_address(b"v6.test").unwrap(),
        vec![IpAddress::V6(0x2001_0db8_0000_0000_0000_0000_0000_0001)]
    );
    assert_eq!(zones.resolve_address(b"V4.test.").unwrap(), vec![IpAddress::V4(0x0a000001)]);
    assert_eq!(zones.resolve_address(b"none.test").unwrap_err(), ResolveError::NotFound);
}

#[test]
fn flush_drops_cached_answers() {
    let mut engine = MxEngine::new();
    assert!(matches!(engine.begin(b"f.test", 0), MxStep::Query { .. }));
    engine.complete(b"f.test", QueryOutcome::NoMailExchanger, 0).unwrap();
    engine.flush_cache();
    assert!(matches!(engine.begin(b"f.test", 1), MxStep::Query { .. }));
}

#[test]
fn aaaa_only_host_returns_the_aaaa_address() {
    let r = merge_families(Err(ResolveError::NotFound), Ok(vec![IpAddress::V6(1)]));
    assert_eq!(r.unwrap(), vec![IpAddress::V6(1)]);
}

#[test]
fn merges_both_families_a_first() {
    let r = merge_families(
        Ok(vec![IpAddress::V4(2), IpAddress::V4(1)]),
        Ok(vec![IpAddress::V6(9)]),
    );
    assert_eq!(r.unwrap(), vec![IpAddress::V4(2), IpAddress::V4(1), IpAddress::V6(9)]);
    let r = merge_families(Ok(vec![IpAddress::V4(7)]), Err(ResolveError::Temporary));
    assert_eq!(r.unwrap(), vec![IpAddress::V4(7)]);
}

#[test]
fn both_families_failing_prefers_not_found() {
    assert_eq!(
        merge_families(Err(ResolveError::Temporary), Err(ResolveError::NotFound)).unwrap_err(),
        ResolveError::NotFound
    );
    assert_eq!(
        merge_families(Err(ResolveError::Temporary), Err(ResolveError::Unavailable)).unwrap_err(),
        ResolveError::Temporary
    );
}

#[test]
fn invalid_name_server_rejected_and_slot_unchanged() {
    let mut slot = ResolverSlot::new();
    slot.configure_test(TestZones::new().with_record(b"kept.test".to_vec(), 1, RecordData::A(1)));
    let mut c = empty_config();
    c.name_servers = vec![
        NameServerSpec::Ip(addr("10.0.0.1:53", Some(v4(10, 0, 0, 1, 53)))),
        NameServerSpec::Ip(addr("not-an-address", None)),
    ];
    let e = slot.configure_standard(&c).unwrap_err();
    assert_eq!(e, ResolveError::Configuration(ConfigField::NameServer, "not-an-address".to_string()));
    assert_eq!(zones_of(slot.backend().unwrap()).records[0].name, b"kept.test".to_vec());
    let e = slot.configure_validating(&c).unwrap_err();
    assert_eq!(e, ResolveError::Configuration(ConfigField::NameServer, "not-an-address".to_string()));
    assert!(matches!(slot.backend().unwrap(), Backend::Test(_)));
}

#[test]
fn unconfigured_slot_is_unavailable() {
    let slot = ResolverSlot::new();
    assert_eq!(slot.backend().unwrap_err(), ResolveError::Unavailable);
}

#[test]
fn invalid_bind_address_rejected() {
    let mut c = empty_config();
    c.name_servers = vec![NameServerSpec::Detailed {
        socket_addr: addr("10.0.0.1:53", Some(v4(10, 0, 0, 1, 53))),
        protocol: Protocol::Tcp,
        trust_negative_responses: true,
        bind_addr: Some(addr("nowhere", None)),
    }];
    assert_eq!(
        standard_plan(&c).unwrap_err(),
        ResolveError::Configuration(ConfigField::BindAddr, "nowhere".to_string())
    );
    // the validating resolver reads no bind address
    let p = validating_plan(&c).unwrap();
    assert_eq!(p.forwarders, vec![v4(10, 0, 0, 1, 53)]);
}

#[test]
fn invalid_domain_and_search_rejected() {
    let long_label = "a".repeat(64);
    let mut c = empty_config();
    c.domain = Some(format!("{long_label}.example"));
    assert!(matches!(
        standard_plan(&c).unwrap_err(),
        ResolveError::Configuration(ConfigField::Domain, _)
    ));
    c.domain = Some("example.com".to_string());
    c.search = vec!["ok.example".to_string(), format!("{long_label}.test")];
    assert_eq!(
        standard_plan(&c).unwrap_err(),
        ResolveError::Configuration(ConfigField::Search, format!("{long_label}.test"))
    );
}

#[test]
fn valid_config_becomes_plan() {
    let mut c = empty_config();
    c.domain = Some("example.com".to_string());
    c.search = vec!["corp.example.com".to_string()];
    c.validate = true;
    c.use_hosts_file = HostsPolicy::Auto;
    c.name_servers = vec![
        NameServerSpec::Ip(addr("10.0.0.1:53", Some(v4(10, 0, 0, 1, 53)))),
        NameServerSpec::Detailed {
            socket_addr: addr("10.0.0.2:5353", Some(v4(10, 0, 0, 2, 5353))),
            protocol: Protocol::Tcp,
            trust_negative_responses: true,
            bind_addr: Some(addr("10.0.0.9:0", Some(v4(10, 0, 0, 9, 0)))),
        },
    ];
    let p = standard_plan(&c).unwrap();
    assert_eq!(p.domain.as_deref(), Some("example.com"));
    assert_eq!(p.search, vec!["corp.example.com".to_string()]);
    assert_eq!(p.servers.len(), 2);
    assert_eq!(p.servers[0].protocol, Protocol::Udp);
    assert!(!p.servers[0].trust_negative_responses);
    assert_eq!(p.servers[1].protocol, Protocol::Tcp);
    assert!(p.servers[1].trust_negative_responses);
    assert_eq!(p.servers[1].bind_addr, Some(v4(10, 0, 0, 9, 0)));
    let v = validating_plan(&c).unwrap();
    assert_eq!(v.forwarders, vec![v4(10, 0, 0, 1, 53), v4(10, 0, 0, 2, 5353)]);
    assert!(v.load_trust_anchors);
    assert!(v.load_hosts);
    let mut slot = ResolverSlot::new();
    slot.configure_standard(&c).unwrap();
    assert!(matches!(slot.backend().unwrap(), Backend::Standard(_)));
}

#[test]
fn hosts_policy_never_loads_no_hosts() {
    let c = empty_config();
    let v = validating_plan(&c).unwrap();
    assert!(!v.load_hosts);
    assert!(!v.load_trust_anchors);
    assert!(v.forwarders.is_empty());
}
