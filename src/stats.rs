//! Medians and absolute deviations over prices.
use vstd::prelude::*;
use vstd::relations::{sorted_by, total_ordering};
use vstd::seq_lib::lemma_sorted_unique;

verus! {

/// The order on prices.
pub open spec fn le_u64() -> spec_fn(u64, u64) -> bool {
    |a: u64, b: u64| a <= b
}

/// `s` in ascending order.
pub open spec fn ascending(s: Seq<u64>) -> Seq<u64> {
    s.sort_by(le_u64())
}

/// The element at index `len / 2` of `s` in ascending order: the middle
/// element for an odd count, the upper of the two middle ones for an even count.
pub open spec fn median_of(s: Seq<u64>) -> u64
    recommends
        s.len() > 0,
{
    ascending(s)[(s.len() / 2) as int]
}

/// `|a - b|`.
pub open spec fn abs_diff(a: u64, b: u64) -> u64 {
    if a >= b {
        (a - b) as u64
    } else {
        (b - a) as u64
    }
}

/// The absolute deviations of `s` from `c`.
pub open spec fn deviations(s: Seq<u64>, c: u64) -> Seq<u64> {
    s.map_values(|x: u64| abs_diff(x, c))
}

pub proof fn lemma_le_total()
    ensures
        total_ordering(le_u64()),
{
}

/// Sorting `s` by any means gives `ascending(s)`.
pub proof fn lemma_ascending_unique(s: Seq<u64>, t: Seq<u64>)
    requires
        sorted_by(t, le_u64()),
        t.to_multiset() == s.to_multiset(),
    ensures
        t == ascending(s),
        t.len() == s.len(),
{
    lemma_le_total();
    s.lemma_sort_by_ensures(le_u64());
    lemma_sorted_unique(t, ascending(s), le_u64());
    t.to_multiset_ensures();
    s.to_multiset_ensures();
}

/// Relies on slice::sort_unstable: the elements end in ascending order and
/// are the same elements, with the same multiplicities.
#[verifier::external_body]
pub(crate) fn sort_ascending(v: &mut Vec<u64>)
    ensures
        sorted_by(final(v)@, le_u64()),
        final(v)@.to_multiset() == old(v)@.to_multiset(),
{
    v.sort_unstable();
}

/// The median of `v` as `median_of` defines it.
pub fn median(v: Vec<u64>) -> (r: u64)
    requires
        v.len() > 0,
    ensures
        r == median_of(v@),
        v@.contains(r),
{
    let ghost s = v@;
    let mut w = v;
    sort_ascending(&mut w);
    proof {
        lemma_ascending_unique(s, w@);
        let m = w@[(w@.len() / 2) as int];
        w@.to_multiset_ensures();
        s.to_multiset_ensures();
        assert(w@.to_multiset().count(m) > 0);
    }
    w[w.len() / 2]
}

/// `|a - b|` computed without overflow.
pub fn abs_diff_u64(a: u64, b: u64) -> (r: u64)
    ensures
        r == abs_diff(a, b),
{
    if a >= b {
        a - b
    } else {
        b - a
    }
}

/// The median of the absolute deviations of `v` from `c`.
pub fn median_deviation(v: &Vec<u64>, c: u64) -> (r: u64)
    requires
        v.len() > 0,
    ensures
        r == median_of(deviations(v@, c)),
{
    let mut devs: Vec<u64> = Vec::new();
    let mut i: usize = 0;
    while i < v.len()
        invariant
            i <= v.len(),
            devs@ == deviations(v@.subrange(0, i as int), c),
        decreases v.len() - i,
    {
        devs.push(abs_diff_u64(v[i], c));
        i += 1;
        proof {
            assert(v@.subrange(0, i as int) == v@.subrange(0, i - 1).push(v@[i - 1]));
        }
    }
    proof {
        assert(v@.subrange(0, v.len() as int) == v@);
    }
    median(devs)
}

} // verus!
