use vstd::prelude::*;
use crate::error::ResolveError;

verus! {

/// An IP address as plain values.
#[derive(Debug, Clone, Copy, PartialEq, Eq, Structural)]
pub enum IpAddress {
    V4(u32),
    V6(u128),
}

/// The result of one address-family lookup, as plain values.
pub open spec fn family_view(r: Result<Vec<IpAddress>, ResolveError>) -> Result<Seq<IpAddress>, ResolveError> {
    match r {
        Ok(v) => Ok(v@),
        Err(e) => Err(e),
    }
}

/// The merge of the A and AAAA answers for one host: every address that
/// either family found, A records first, each family in the order the
/// backend returned it. Only when both families fail does the merge fail,
/// preferring "no such name" over any other failure.
pub open spec fn merged(
    v4: Result<Seq<IpAddress>, ResolveError>,
    v6: Result<Seq<IpAddress>, ResolveError>,
) -> Result<Seq<IpAddress>, ResolveError> {
    match (v4, v6) {
        (Ok(a), Ok(b)) => Ok(a + b),
        (Ok(a), Err(_)) => Ok(a),
        (Err(_), Ok(b)) => Ok(b),
        (Err(e4), Err(e6)) => if e4 is NotFound || e6 is NotFound {
            Err(ResolveError::NotFound)
        } else {
            Err(e4)
        },
    }
}

/// Merges the answers of the two address-family lookups for one host.
pub fn merge_families(
    v4: Result<Vec<IpAddress>, ResolveError>,
    v6: Result<Vec<IpAddress>, ResolveError>,
) -> (r: Result<Vec<IpAddress>, ResolveError>)
    ensures
        family_view(r) == merged(family_view(v4), family_view(v6)),
{
    match (v4, v6) {
        (Ok(mut a), Ok(mut b)) => {
            let ghost a0 = a@;
            let ghost b0 = b@;
            a.append(&mut b);
            assert(a@ =~= a0 + b0);
            Ok(a)
        },
        (Ok(a), Err(_)) => Ok(a),
        (Err(_), Ok(b)) => Ok(b),
        (Err(e4), Err(e6)) => {
            let nf = match (&e4, &e6) {
                (ResolveError::NotFound, _) => true,
                (_, ResolveError::NotFound) => true,
                _ => false,
            };
            if nf {
                Err(ResolveError::NotFound)
            } else {
                Err(e4)
            }
        },
    }
}

} // verus!
