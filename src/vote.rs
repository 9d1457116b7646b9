use vstd::prelude::*;

verus! {

/// Number of occurrences of `v` in `s`.
pub open spec fn count(s: Seq<u16>, v: u16) -> nat
    decreases s.len(),
{
    if s.len() == 0 {
        0
    } else {
        count(s.drop_last(), v) + if s.last() == v { 1nat } else { 0nat }
    }
}

/// Scans `s` in order and keeps the first value whose running count goes
/// above every count seen before; returns that value with its count.
/// The value is thus the first one to reach the highest count of `s`.
pub open spec fn scan_mode(s: Seq<u16>) -> (u16, nat)
    decreases s.len(),
{
    if s.len() == 0 {
        (0u16, 0nat)
    } else {
        let (best, best_count) = scan_mode(s.drop_last());
        let c = count(s, s.last());
        if c > best_count {
            (s.last(), c)
        } else {
            (best, best_count)
        }
    }
}

/// The majority vote of a window: the most frequent value, ties going to
/// the value that reaches the top count first in scanning order; 0 for an
/// empty window.
pub open spec fn majority(s: Seq<u16>) -> u16 {
    scan_mode(s).0
}

/// The scan's count is that of the value it picks, and no value occurs
/// more often.
pub proof fn lemma_majority_is_maximal(s: Seq<u16>)
    ensures
        scan_mode(s).1 == count(s, scan_mode(s).0),
        forall|w: u16| count(s, w) <= scan_mode(s).1,
        s.len() > 0 ==> scan_mode(s).1 > 0,
    decreases s.len(),
{
    if s.len() > 0 {
        let p = s.drop_last();
        lemma_majority_is_maximal(p);
        let (b, c) = scan_mode(p);
        assert forall|w: u16| count(s, w) == count(p, w) + if s.last() == w { 1nat } else { 0nat } by {}
        if count(s, s.last()) <= c {
            assert(b != s.last());
        }
    }
}

/// Majority vote over `values`: the most frequent value; where several
/// share the top count, the one that reaches it first when `values` is
/// read from the front. An empty slice gives 0.
pub fn most_common(values: &[u16]) -> (r: u16)
    ensures
        r == majority(values@),
{
    let mut best: u16 = 0;
    let mut best_count: usize = 0;
    let mut i: usize = 0;
    while i < values.len()
        invariant
            i <= values@.len(),
            (best, best_count as nat) == scan_mode(values@.subrange(0, i as int)),
        decreases values@.len() - i,
    {
        let v = values[i];
        let mut c: usize = 0;
        let mut j: usize = 0;
        while j <= i
            invariant
                i < values@.len(),
                j <= i + 1,
                c as nat == count(values@.subrange(0, j as int), v),
                c <= j,
            decreases i + 1 - j,
        {
            proof {
                assert(values@.subrange(0, j as int + 1).drop_last() =~= values@.subrange(0, j as int));
            }
            if values[j] == v {
                c = c + 1;
            }
            j = j + 1;
        }
        proof {
            assert(values@.subrange(0, i as int + 1).drop_last() =~= values@.subrange(0, i as int));
        }
        if c > best_count {
            best = v;
            best_count = c;
        }
        i = i + 1;
    }
    proof {
        assert(values@.subrange(0, values@.len() as int) =~= values@);
    }
    best
}

} // verus!
