//! Severity bands: fixed breakpoints mapping a metric to normal, warning,
//! or critical. All comparisons are exact rational comparisons, stated
//! over the unscaled quantities so no division artifact creeps in.

use vstd::prelude::*;

verus! {

/// A severity bucket derived from thresholding a metric.
#[derive(Clone, Copy, PartialEq, Eq, Structural, Debug)]
pub enum Band {
    Normal,
    Warning,
    Critical,
}

/// Band of the average sensor temperature: above 80 degrees is critical,
/// above 70 is warning, anything else is normal. The average of `count`
/// readings summing to `sum_milli` millidegrees exceeds a threshold `t`
/// exactly when `sum_milli > t * 1000 * count`.
pub open spec fn spec_temp_band(sum_milli: int, count: int) -> Band {
    if sum_milli > 80000 * count {
        Band::Critical
    } else if sum_milli > 70000 * count {
        Band::Warning
    } else {
        Band::Normal
    }
}

/// Classifies the average of `count` temperature readings that sum to
/// `sum_milli` millidegrees.
pub fn temp_band(sum_milli: u128, count: usize) -> (b: Band)
    requires
        count >= 1,
    ensures
        b == spec_temp_band(sum_milli as int, count as int),
{
    if sum_milli > 80000u128 * (count as u128) {
        Band::Critical
    } else if sum_milli > 70000u128 * (count as u128) {
        Band::Warning
    } else {
        Band::Normal
    }
}

/// Band of swap pressure: above 50 percent used is critical, above 10
/// percent is warning, anything else is normal. `used / total > 1/2`
/// exactly when `2 * used > total`, and `> 1/10` exactly when
/// `10 * used > total`.
pub open spec fn spec_swap_band(used: int, total: int) -> Band {
    if 2 * used > total {
        Band::Critical
    } else if 10 * used > total {
        Band::Warning
    } else {
        Band::Normal
    }
}

/// Classifies swap pressure for a configured swap of `total` bytes with
/// `used` bytes in use.
pub fn swap_band(used: u64, total: u64) -> (b: Band)
    requires
        total > 0,
    ensures
        b == spec_swap_band(used as int, total as int),
{
    if 2u128 * (used as u128) > total as u128 {
        Band::Critical
    } else if 10u128 * (used as u128) > total as u128 {
        Band::Warning
    } else {
        Band::Normal
    }
}

} // verus!
