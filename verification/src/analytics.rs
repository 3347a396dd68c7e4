//! Score analytics: bucketing stored score percentages by adherence band.

use vstd::prelude::*;

verus! {

/// How many scores fall in each adherence band.
#[derive(Clone, Copy, Debug, PartialEq, Eq, Structural)]
pub struct ScoreDistribution {
    /// Scores of 90 percent and above.
    pub excellent: u64,
    /// Scores of at least 75 and below 90 percent.
    pub good: u64,
    /// Scores of at least 50 and below 75 percent.
    pub moderate: u64,
    /// Scores below 50 percent.
    pub poor: u64,
}

/// How many of the scores, in hundredths of a percent, lie in `[lo, hi)`.
pub open spec fn count_in_band(scores: Seq<u32>, lo: int, hi: int) -> int
    decreases scores.len(),
{
    if scores.len() == 0 {
        0
    } else {
        count_in_band(scores.drop_last(), lo, hi) + if lo <= scores.last() < hi {
            1int
        } else {
            0int
        }
    }
}

/// Buckets score percentages (in hundredths of a percent) into the four
/// adherence bands.
pub fn score_distribution(scores: &Vec<u32>) -> (r: ScoreDistribution)
    ensures
        r.excellent == count_in_band(scores@, 9000, u32::MAX as int + 1),
        r.good == count_in_band(scores@, 7500, 9000),
        r.moderate == count_in_band(scores@, 5000, 7500),
        r.poor == count_in_band(scores@, 0, 5000),
{
    let mut excellent: u64 = 0;
    let mut good: u64 = 0;
    let mut moderate: u64 = 0;
    let mut poor: u64 = 0;
    let mut i: usize = 0;
    while i < scores.len()
        invariant
            i <= scores@.len(),
            excellent == count_in_band(scores@.take(i as int), 9000, u32::MAX as int + 1),
            good == count_in_band(scores@.take(i as int), 7500, 9000),
            moderate == count_in_band(scores@.take(i as int), 5000, 7500),
            poor == count_in_band(scores@.take(i as int), 0, 5000),
            excellent <= i && good <= i && moderate <= i && poor <= i,
        decreases scores@.len() - i,
    {
        let s = scores[i];
        if s >= 9000 {
            excellent += 1;
        } else if s >= 7500 {
            good += 1;
        } else if s >= 5000 {
            moderate += 1;
        } else {
            poor += 1;
        }
        proof {
            assert(scores@.take(i + 1).drop_last() =~= scores@.take(i as int));
        }
        i += 1;
    }
    proof {
        assert(scores@.take(scores@.len() as int) =~= scores@);
    }
    ScoreDistribution { excellent, good, moderate, poor }
}

/// Every score lands in exactly one band, so the four buckets partition the
/// input.
pub proof fn lemma_distribution_partitions(scores: Seq<u32>)
    ensures
        count_in_band(scores, 9000, u32::MAX as int + 1) + count_in_band(scores, 7500, 9000)
            + count_in_band(scores, 5000, 7500) + count_in_band(scores, 0, 5000) == scores.len(),
    decreases scores.len(),
{
    if scores.len() > 0 {
        lemma_distribution_partitions(scores.drop_last());
    }
}

} // verus!
