use vstd::prelude::*;
use vstd::multiset::Multiset;

verus! {

broadcast use vstd::seq_lib::group_to_multiset_ensures;

/// One mail exchanger of a domain: a preference (lower is more preferred)
/// and the exchanger's host name.
#[derive(Debug)]
pub struct MxRecord {
    pub preference: u16,
    pub host: Vec<u8>,
}

/// Whether a sequence of exchangers is in ascending order of preference.
pub open spec fn sorted_by_preference(s: Seq<MxRecord>) -> bool {
    forall|i: int, j: int| 0 <= i < j < s.len() ==> s[i].preference <= s[j].preference
}

impl View for MxRecord {
    type V = (u16, Seq<u8>);

    open spec fn view(&self) -> (u16, Seq<u8>) {
        (self.preference, self.host@)
    }
}

/// The views of a sequence of records.
pub open spec fn records_view(s: Seq<MxRecord>) -> Seq<(u16, Seq<u8>)> {
    s.map_values(|r: MxRecord| r@)
}

impl MxRecord {
    /// A copy of the record.
    pub fn duplicate(&self) -> (r: MxRecord)
        ensures
            r@ == self@,
    {
        let host = self.host.clone();
        assert(host@ =~= self.host@);
        MxRecord { preference: self.preference, host }
    }
}

/// A copy of a sequence of records.
pub fn duplicate_records(v: &Vec<MxRecord>) -> (r: Vec<MxRecord>)
    ensures
        records_view(r@) == records_view(v@),
{
    let mut out: Vec<MxRecord> = Vec::with_capacity(v.len());
    let mut i: usize = 0;
    while i < v.len()
        invariant
            i <= v@.len(),
            out@.len() == i,
            forall|k: int| 0 <= k < i ==> (#[trigger] out@[k])@ == v@[k]@,
        decreases v@.len() - i,
    {
        out.push(v[i].duplicate());
        i = i + 1;
    }
    assert(records_view(out@) =~= records_view(v@));
    out
}

/// Orders exchangers by ascending preference, keeping every exchanger given.
pub fn sort_by_preference(records: Vec<MxRecord>) -> (r: Vec<MxRecord>)
    ensures
        sorted_by_preference(r@),
        r@.to_multiset() == records@.to_multiset(),
{
    let mut rest = records;
    let mut out: Vec<MxRecord> = Vec::with_capacity(rest.len());
    while rest.len() > 0
        invariant
            sorted_by_preference(out@),
            out@.to_multiset().add(rest@.to_multiset()) == records@.to_multiset(),
        decreases rest@.len(),
    {
        let ghost rest0 = rest@;
        let x = rest.remove(0);
        assert(rest@ == rest0.remove(0));
        let mut j: usize = 0;
        while j < out.len() && out[j].preference <= x.preference
            invariant
                j <= out@.len(),
                forall|k: int| 0 <= k < j ==> out@[k].preference <= x.preference,
            decreases out@.len() - j,
        {
            j = j + 1;
        }
        let ghost out0 = out@;
        out.insert(j, x);
        assert(out@ == out0.insert(j as int, x));
        assert forall|a: int, b: int| 0 <= a < b < out@.len() implies out@[a].preference
            <= out@[b].preference by {
            if b < j {
            } else if b == j {
            } else if a < j {
                assert(out0[b - 1].preference > x.preference || out0[j as int].preference
                    > x.preference);
            } else if a == j {
                assert(out0[j as int].preference > x.preference);
            } else {
            }
        }
        assert(out@.to_multiset() == out0.to_multiset().insert(x));
        assert(rest@.to_multiset() == rest0.to_multiset().remove(rest0[0]));
        assert(out@.to_multiset().add(rest@.to_multiset()) =~= records@.to_multiset());
    }
    assert(rest@.to_multiset() =~= Multiset::empty());
    assert(out@.to_multiset().add(rest@.to_multiset()) =~= out@.to_multiset());
    out
}

} // verus!
