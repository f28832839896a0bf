//! The mean of a round of sensor readings, kept exact.
//!
//! A mean of integers is a fraction. It is held as the sum of the readings and
//! their number, so that a comparison with a threshold loses nothing to
//! rounding.

use crate::error::FanError;
use crate::reading::SensorRead;
use vstd::prelude::*;

verus! {

/// The unweighted mean of `count` readings that add up to `total`
/// milli-degrees Celsius.
#[derive(Debug, Clone, Copy, PartialEq, Eq)]
pub struct MeanTemperature {
    /// The sum of the readings, in milli-degrees.
    pub total: u128,
    /// How many readings were taken.
    pub count: usize,
}

impl MeanTemperature {
    /// A mean is taken over at least one reading, and no reading exceeds 32
    /// bits.
    pub open spec fn wf(self) -> bool {
        self.count > 0 && self.total <= self.count * u32::MAX
    }

    /// Whether the mean lies strictly above `threshold` milli-degrees.
    pub open spec fn above(self, threshold: int) -> bool {
        self.total > threshold * self.count
    }

    /// Whether the mean lies strictly below `threshold` milli-degrees.
    pub open spec fn below(self, threshold: int) -> bool {
        self.total < threshold * self.count
    }

    /// The mean in whole milli-degrees, rounded down.
    pub open spec fn floor(self) -> int {
        self.total as int / self.count as int
    }

    /// Whether the mean lies strictly above `threshold` milli-degrees.
    pub fn is_above(&self, threshold: i64) -> (result: bool)
        ensures
            result == self.above(threshold as int),
    {
        let scaled: i128 = self.scaled(threshold);
        if self.total > 0x7fff_ffff_ffff_ffff_ffff_ffff_ffff_ffff {
            true
        } else {
            self.total as i128 > scaled
        }
    }

    /// Whether the mean lies strictly below `threshold` milli-degrees.
    pub fn is_below(&self, threshold: i64) -> (result: bool)
        ensures
            result == self.below(threshold as int),
    {
        let scaled: i128 = self.scaled(threshold);
        if self.total > 0x7fff_ffff_ffff_ffff_ffff_ffff_ffff_ffff {
            false
        } else {
            (self.total as i128) < scaled
        }
    }

    /// The mean in whole milli-degrees, rounded down.
    pub fn millidegrees(&self) -> (result: u32)
        requires
            self.wf(),
        ensures
            result == self.floor(),
    {
        assert(self.total as int / self.count as int <= u32::MAX) by (nonlinear_arith)
            requires
                self.count > 0,
                self.total <= self.count * u32::MAX,
        ;
        (self.total / (self.count as u128)) as u32
    }

    /// `threshold` times the number of readings: what the sum is held against.
    fn scaled(&self, threshold: i64) -> (result: i128)
        ensures
            result == threshold * self.count,
    {
        assert(-0x8000_0000_0000_0000_0000_0000_0000_0000 <= threshold * self.count
            <= 0x7fff_ffff_ffff_ffff_ffff_ffff_ffff_ffff) by (nonlinear_arith)
            requires
                -0x8000_0000_0000_0000 <= threshold <= 0x7fff_ffff_ffff_ffff,
                0 <= self.count <= 0xffff_ffff_ffff_ffff,
        ;
        (threshold as i128) * (self.count as i128)
    }
}

/// The sum of what `reads` give, in milli-degrees; a read that gives nothing
/// adds nothing.
pub open spec fn total_millidegrees(reads: Seq<SensorRead>) -> nat
    decreases reads.len(),
{
    if reads.len() == 0 {
        0
    } else {
        total_millidegrees(reads.drop_last()) + match reads.last().reading() {
            Ok(v) => v as nat,
            Err(_) => 0,
        }
    }
}

/// Whether the read at `i` is the first of `reads` that ends in an error.
pub open spec fn fails_first_at(reads: Seq<SensorRead>, i: int) -> bool {
    &&& 0 <= i < reads.len()
    &&& reads[i].reading() is Err
    &&& forall|j: int| 0 <= j < i ==> (#[trigger] reads[j]).reading() is Ok
}

/// The mean over one round of reads, taken in order.
///
/// The first read that ends in an error decides: its error is the outcome,
/// whatever comes after it. A round of no reads has no mean. Otherwise the
/// mean is that of every reading of the round.
pub open spec fn mean_of(reads: Seq<SensorRead>) -> Result<MeanTemperature, FanError> {
    if exists|i: int| fails_first_at(reads, i) {
        Err(reads[choose|i: int| fails_first_at(reads, i)].reading()->Err_0)
    } else if reads.len() == 0 {
        Err(FanError::EmptyInput)
    } else {
        Ok(
            MeanTemperature {
                total: total_millidegrees(reads) as u128,
                count: reads.len() as usize,
            },
        )
    }
}

/// Two reads of one round cannot both be the first to fail.
pub proof fn lemma_first_failure_unique(reads: Seq<SensorRead>, i: int, j: int)
    requires
        fails_first_at(reads, i),
        fails_first_at(reads, j),
    ensures
        i == j,
{
    if i < j {
        assert(reads[i].reading() is Ok);
    } else if j < i {
        assert(reads[j].reading() is Ok);
    }
}

/// The sum of a round never exceeds what 32-bit readings can add up to.
pub proof fn lemma_total_bounded(reads: Seq<SensorRead>)
    ensures
        total_millidegrees(reads) <= reads.len() * u32::MAX,
    decreases reads.len(),
{
    if reads.len() > 0 {
        lemma_total_bounded(reads.drop_last());
        assert((reads.len() - 1) * u32::MAX + u32::MAX == reads.len() * u32::MAX)
            by (nonlinear_arith);
    }
}

} // verus!
