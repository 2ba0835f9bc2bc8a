//! Provenance tags and the latency results that the composition logic reads.

use vstd::prelude::*;
use vstd::string::*;

verus! {

/// Where a latency figure comes from.
#[derive(Clone, Copy, Debug, PartialEq, Eq, Structural)]
pub enum Source {
    /// Read from collected silicon perf tables.
    Silicon,
    /// Computed by an empirical formula.
    Empirical,
    /// Speed-of-light (roofline) estimate.
    Sol,
    /// Several different sources contributed.
    Mixed,
}

impl Source {
    /// Two tags combine to the tag itself when they agree, and to `Mixed` otherwise.
    pub open spec fn combined(self, other: Source) -> Source {
        if self == other {
            self
        } else {
            Source::Mixed
        }
    }

    pub fn combine(self, other: Source) -> (r: Source)
        ensures
            r == self.combined(other),
    {
        if self == other {
            self
        } else {
            Source::Mixed
        }
    }
}

/// Combining a tag with itself keeps it.
pub proof fn lemma_combine_idempotent(a: Source)
    ensures
        a.combined(a) == a,
{
}

/// The order in which two tags are combined does not matter.
pub proof fn lemma_combine_commutative(a: Source, b: Source)
    ensures
        a.combined(b) == b.combined(a),
{
}

/// The grouping of three combined tags does not matter.
pub proof fn lemma_combine_associative(a: Source, b: Source, c: Source)
    ensures
        a.combined(b).combined(c) == a.combined(b.combined(c)),
{
}

/// Once mixed, a tag stays mixed whatever it is combined with.
pub proof fn lemma_combine_mixed_absorbs(a: Source)
    ensures
        Source::Mixed.combined(a) == Source::Mixed,
        a.combined(Source::Mixed) == Source::Mixed,
{
}

/// IEEE-754 encoding of the scale factor `1.0`, the one every operator starts with.
pub const UNIT_SCALE_BITS: u64 = 0x3FF0_0000_0000_0000;

/// The characters of `a` and `b` are the same.
pub fn str_equal(a: &str, b: &str) -> (r: bool)
    ensures
        r == (a@ == b@),
{
    let n = a.unicode_len();
    if n != b.unicode_len() {
        return false;
    }
    let mut i: usize = 0;
    while i < n
        invariant
            n == a@.len(),
            n == b@.len(),
            i <= n,
            forall|j: int| 0 <= j < i ==> a@[j] == b@[j],
        decreases n - i,
    {
        if a.get_char(i) != b.get_char(i) {
            return false;
        }
        i += 1;
    }
    assert(a@ =~= b@);
    true
}

/// Ordering key of a latency that is not a number.
pub const NAN_KEY: u64 = 0;

/// Ordering key of the latency `0.0`.
pub const ZERO_KEY: u64 = 0x8000_0000_0000_0000;

/// A latency result as the composition logic sees it.
///
/// The latency itself is carried by its ordering key, taken from the IEEE-754
/// bit pattern `b` of the latency in milliseconds: `b` with the sign bit set
/// for a value whose sign bit is clear, `!b` for one whose sign bit is set,
/// and `0` for a value that is not a number. Keys order exactly as the
/// values do (with `-0.0` just below `0.0`), every number is given back
/// unchanged by its key, and a value that is not a number sits below all the
/// others.
#[derive(Clone, Copy, Debug, PartialEq, Eq, Structural)]
pub struct PerformanceResult {
    pub latency_key: u64,
    pub source: Source,
}

} // verus!
