use vstd::prelude::*;

verus! {

/// ASCII lower-casing of one byte.
pub open spec fn lower_byte(b: u8) -> u8 {
    if 65 <= b && b <= 90 {
        (b + 32) as u8
    } else {
        b
    }
}

/// The name without one trailing dot, if it has one.
pub open spec fn strip_trailing_dot(s: Seq<u8>) -> Seq<u8> {
    if s.len() > 0 && s.last() == 46u8 {
        s.drop_last()
    } else {
        s
    }
}

/// The cache key of a domain name: lower-cased, with a trailing dot removed.
pub open spec fn normalized(s: Seq<u8>) -> Seq<u8> {
    strip_trailing_dot(s).map_values(|b: u8| lower_byte(b))
}

/// Computes the cache key of a domain name.
pub fn normalize_domain(name: &[u8]) -> (r: Vec<u8>)
    ensures
        r@ == normalized(name@),
{
    let mut n: usize = name.len();
    if n > 0 && name[n - 1] == 46u8 {
        n = n - 1;
    }
    let ghost stripped = strip_trailing_dot(name@);
    assert(stripped.len() == n);
    let mut out: Vec<u8> = Vec::with_capacity(n);
    let mut i: usize = 0;
    while i < n
        invariant
            n <= name@.len(),
            stripped.len() == n,
            stripped == name@.subrange(0, n as int),
            i <= n,
            out@ == stripped.subrange(0, i as int).map_values(|b: u8| lower_byte(b)),
        decreases n - i,
    {
        let b = name[i];
        let l: u8 = if 65 <= b && b <= 90 { b + 32 } else { b };
        out.push(l);
        i = i + 1;
        assert(out@ =~= stripped.subrange(0, i as int).map_values(|b: u8| lower_byte(b)));
    }
    assert(stripped.subrange(0, n as int) =~= stripped);
    out
}

/// Whether two byte strings are equal.
pub fn bytes_eq(a: &[u8], b: &[u8]) -> (r: bool)
    ensures
        r == (a@ == b@),
{
    if a.len() != b.len() {
        return false;
    }
    let mut i: usize = 0;
    while i < a.len()
        invariant
            a@.len() == b@.len(),
            i <= a@.len(),
            forall|j: int| 0 <= j < i ==> a@[j] == b@[j],
        decreases a@.len() - i,
    {
        if a[i] != b[i] {
            return false;
        }
        i = i + 1;
    }
    assert(a@ =~= b@);
    true
}

} // verus!
