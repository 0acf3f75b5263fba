use vstd::prelude::*;
use crate::address::{IpAddress, family_view, merged, merge_families};
use crate::domain::{normalize_domain, normalized, bytes_eq};
use crate::error::ResolveError;
use crate::mx::QueryOutcome;
use crate::records::{MxRecord, records_view};

verus! {

/// The data of one seeded record.
#[derive(Debug, Clone)]
pub enum RecordData {
    A(u32),
    Aaaa(u128),
    Mx { preference: u16, host: Vec<u8> },
}

/// A seeded record: owner name, TTL and data.
#[derive(Debug, Clone)]
pub struct TestRecord {
    pub name: Vec<u8>,
    pub ttl_ms: u64,
    pub data: RecordData,
}

/// In-memory zone data that answers queries deterministically, without a
/// network. Records are registered one by one before the backend is used.
#[derive(Debug, Clone)]
pub struct TestZones {
    pub records: Vec<TestRecord>,
}

/// The address of one record of the family asked for, if it has one.
pub open spec fn address_of(r: TestRecord, v6: bool) -> Option<IpAddress> {
    match r.data {
        RecordData::A(a) => if v6 { None } else { Some(IpAddress::V4(a)) },
        RecordData::Aaaa(a) => if v6 { Some(IpAddress::V6(a)) } else { None },
        _ => None,
    }
}

/// The addresses of one family seeded for `key`, in registration order.
pub open spec fn addresses_of(s: Seq<TestRecord>, key: Seq<u8>, v6: bool) -> Seq<IpAddress>
    decreases s.len(),
{
    if s.len() == 0 {
        Seq::empty()
    } else {
        let rest = addresses_of(s.drop_last(), key, v6);
        if normalized(s.last().name@) == key && address_of(s.last(), v6) is Some {
            rest.push(address_of(s.last(), v6).unwrap())
        } else {
            rest
        }
    }
}

/// The answer to an address query: the seeded addresses, or "no such name"
/// when there are none.
pub open spec fn address_answer(s: Seq<TestRecord>, key: Seq<u8>, v6: bool) -> Result<
    Seq<IpAddress>,
    ResolveError,
> {
    if addresses_of(s, key, v6).len() == 0 {
        Err(ResolveError::NotFound)
    } else {
        Ok(addresses_of(s, key, v6))
    }
}

/// The exchangers seeded for `key`, in registration order.
pub open spec fn exchangers_of(s: Seq<TestRecord>, key: Seq<u8>) -> Seq<(u16, Seq<u8>)>
    decreases s.len(),
{
    if s.len() == 0 {
        Seq::empty()
    } else {
        let rest = exchangers_of(s.drop_last(), key);
        if normalized(s.last().name@) == key && s.last().data is Mx {
            rest.push((s.last().data->preference, s.last().data->host@))
        } else {
            rest
        }
    }
}

/// The smallest TTL of the exchangers seeded for `key` (the largest `u64`
/// where there are none).
pub open spec fn exchanger_ttl(s: Seq<TestRecord>, key: Seq<u8>) -> u64
    decreases s.len(),
{
    if s.len() == 0 {
        u64::MAX
    } else {
        let rest = exchanger_ttl(s.drop_last(), key);
        if normalized(s.last().name@) == key && s.last().data is Mx && s.last().ttl_ms < rest {
            s.last().ttl_ms
        } else {
            rest
        }
    }
}

impl TestZones {
    /// A backend with no records.
    pub fn new() -> (r: TestZones)
        ensures
            r.records@.len() == 0,
    {
        TestZones { records: Vec::new() }
    }

    /// The backend with one more record.
    pub fn with_record(self, name: Vec<u8>, ttl_ms: u64, data: RecordData) -> (r: TestZones)
        ensures
            r.records@ == self.records@.push(TestRecord { name, ttl_ms, data }),
    {
        let mut records = self.records;
        records.push(TestRecord { name, ttl_ms, data });
        TestZones { records }
    }

    /// Answers an A (`v6` false) or AAAA (`v6` true) query for `name`.
    pub fn lookup_family(&self, name: &[u8], v6: bool) -> (r: Result<Vec<IpAddress>, ResolveError>)
        ensures
            family_view(r) == address_answer(self.records@, normalized(name@), v6),
    {
        let key = normalize_domain(name);
        let mut out: Vec<IpAddress> = Vec::new();
        let mut i: usize = 0;
        while i < self.records.len()
            invariant
                i <= self.records@.len(),
                key@ == normalized(name@),
                out@ == addresses_of(self.records@.subrange(0, i as int), key@, v6),
            decreases self.records@.len() - i,
        {
            let r = &self.records[i];
            let owner = normalize_domain(r.name.as_slice());
            let found: Option<IpAddress> = match r.data {
                RecordData::A(a) => if v6 { None } else { Some(IpAddress::V4(a)) },
                RecordData::Aaaa(a) => if v6 { Some(IpAddress::V6(a)) } else { None },
                _ => None,
            };
            let ghost before = self.records@.subrange(0, i as int);
            assert(self.records@.subrange(0, i + 1).drop_last() =~= before);
            if bytes_eq(owner.as_slice(), key.as_slice()) {
                match found {
                    Some(a) => {
                        out.push(a);
                    },
                    None => {},
                }
            }
            i = i + 1;
        }
        assert(self.records@.subrange(0, i as int) =~= self.records@);
        if out.len() == 0 {
            Err(ResolveError::NotFound)
        } else {
            Ok(out)
        }
    }

    /// Answers both address families for `name` and merges them.
    pub fn resolve_address(&self, name: &[u8]) -> (r: Result<Vec<IpAddress>, ResolveError>)
        ensures
            family_view(r) == merged(
                address_answer(self.records@, normalized(name@), false),
                address_answer(self.records@, normalized(name@), true),
            ),
    {
        let v4 = self.lookup_family(name, false);
        let v6 = self.lookup_family(name, true);
        merge_families(v4, v6)
    }

    /// Answers an MX query for `name`: the seeded exchangers with their
    /// smallest TTL, or "no mail exchanger" when there are none.
    pub fn lookup_mx(&self, name: &[u8]) -> (r: QueryOutcome)
        ensures
            ({
                let found = exchangers_of(self.records@, normalized(name@));
                if found.len() == 0 {
                    r is NoMailExchanger
                } else {
                    r matches QueryOutcome::Answer { records, ttl_ms } && records_view(records@)
                        == found && ttl_ms == exchanger_ttl(self.records@, normalized(name@))
                }
            }),
    {
        let key = normalize_domain(name);
        let mut out: Vec<MxRecord> = Vec::new();
        let mut ttl: u64 = u64::MAX;
        let mut i: usize = 0;
        while i < self.records.len()
            invariant
                i <= self.records@.len(),
                key@ == normalized(name@),
                records_view(out@) == exchangers_of(self.records@.subrange(0, i as int), key@),
                ttl == exchanger_ttl(self.records@.subrange(0, i as int), key@),
            decreases self.records@.len() - i,
        {
            let r = &self.records[i];
            let owner = normalize_domain(r.name.as_slice());
            let ghost before = self.records@.subrange(0, i as int);
            assert(self.records@.subrange(0, i + 1).drop_last() =~= before);
            if bytes_eq(owner.as_slice(), key.as_slice()) {
                match &r.data {
                    RecordData::Mx { preference, host } => {
                        let h = host.clone();
                        assert(h@ =~= host@);
                        let ghost out0 = out@;
                        out.push(MxRecord { preference: *preference, host: h });
                        assert(records_view(out@) =~= records_view(out0).push((*preference, host@)));
                        if r.ttl_ms < ttl {
                            ttl = r.ttl_ms;
                        }
                    },
                    _ => {},
                }
            }
            i = i + 1;
        }
        assert(self.records@.subrange(0, i as int) =~= self.records@);
        if out.len() == 0 {
            QueryOutcome::NoMailExchanger
        } else {
            QueryOutcome::Answer { records: out, ttl_ms: ttl }
        }
    }
}

} // verus!
