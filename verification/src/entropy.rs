//! Entropy thresholds. Entropy is measured in thousandths of a bit per byte
//! (0 to 8000).
use vstd::prelude::*;

verus! {

/// Entropy high enough to suggest compression or encryption (7.2 bits/byte).
pub open spec fn spec_is_high_entropy(millibits: u32) -> bool {
    millibits >= 7200
}

/// Whether an entropy (in thousandths of a bit per byte) is at least 7.2 bits/byte.
pub fn is_high_entropy(millibits: u32) -> (r: bool)
    ensures
        r == spec_is_high_entropy(millibits),
{
    millibits >= 7200
}

/// Whether a region of `size` bytes with this entropy (thousandths of a bit
/// per byte) is likely packed or encrypted: at least 256 bytes and 7.0 bits/byte.
pub fn is_likely_packed_or_encrypted(millibits: u32, size: usize) -> (r: bool)
    ensures
        r == (size >= 256 && millibits >= 7000),
{
    size >= 256 && millibits >= 7000
}

/// How many times `b` occurs in `s`.
pub open spec fn occurrences(s: Seq<u8>, b: u8) -> nat
    decreases s.len(),
{
    if s.len() == 0 {
        0
    } else {
        occurrences(s.drop_last(), b) + if s.last() == b { 1nat } else { 0nat }
    }
}

proof fn lemma_occurrences_bounded(s: Seq<u8>, b: u8)
    ensures
        occurrences(s, b) <= s.len(),
    decreases s.len(),
{
    if s.len() > 0 {
        lemma_occurrences_bounded(s.drop_last(), b);
    }
}

/// The byte histogram that Shannon entropy is computed from: entry `b`
/// holds how many times the byte `b` occurs in `data`.
pub fn byte_counts(data: &[u8]) -> (r: Vec<u64>)
    ensures
        r@.len() == 256,
        forall|b: u8| #[trigger] r@[b as int] == occurrences(data@, b),
{
    let mut counts: Vec<u64> = Vec::new();
    let mut k: usize = 0;
    while k < 256
        invariant
            k <= 256,
            counts@.len() == k,
            forall|j: int| 0 <= j < k ==> counts@[j] == 0,
        decreases 256 - k,
    {
        counts.push(0);
        k = k + 1;
    }
    let mut i: usize = 0;
    while i < data.len()
        invariant
            i <= data.len(),
            counts@.len() == 256,
            forall|b: u8| #[trigger] counts@[b as int] == occurrences(data@.take(i as int), b),
        decreases data.len() - i,
    {
        let ghost before = counts@;
        let x = data[i];
        proof {
            assert(data@.take(i as int + 1).drop_last() =~= data@.take(i as int));
            lemma_occurrences_bounded(data@.take(i as int), x);
            assert(occurrences(data@.take(i as int), x) <= i);
        }
        let idx: usize = x as usize;
        let c = counts[idx];
        counts.set(idx, c + 1);
        i = i + 1;
        proof {
            assert forall|b: u8| #[trigger] counts@[b as int] == occurrences(data@.take(i as int), b) by {
                assert(data@.take(i as int).drop_last() =~= data@.take(i as int - 1));
                if b == x {
                } else {
                    assert(counts@[b as int] == before[b as int]);
                }
            }
        }
    }
    proof {
        assert(data@.take(data@.len() as int) =~= data@);
    }
    counts
}

} // verus!
