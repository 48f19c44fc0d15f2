//! Volume is stored and compared as a whole percentage, never as the
//! backend's raw fraction, so that repeated fraction/percent conversions
//! cannot drift. The backend's full-scale fraction is modelled in
//! thousandths (0 stands for silent, 1000 for full scale); callers convert
//! the native scalar to thousandths at the boundary by ordinary rounding.

use vstd::prelude::*;

verus! {

/// Rounds a full-scale fraction, given in thousandths, to the nearest whole
/// percent (half rounds up), exactly as the reconciliation logic compares
/// volumes.
pub fn convert_float_to_percent(volume: u32) -> (percent: u32)
    ensures
        percent == (volume + 5) / 10,
{
    let wide: u64 = volume as u64 + 5;
    (wide / 10) as u32
}

/// Converts a whole percent back to the full-scale fraction in thousandths.
pub fn convert_percent_to_float(percent: u32) -> (volume: u32)
    requires
        percent <= 100,
    ensures
        volume == percent * 10,
{
    percent * 10
}

/// Converting a percent to the native fraction and back returns the same
/// percent: locking a volume and then re-reading it never drifts.
pub proof fn lemma_volume_round_trip(percent: u32)
    requires
        percent <= 100,
    ensures
        ((percent * 10) + 5) / 10 == percent,
{
}

} // verus!
