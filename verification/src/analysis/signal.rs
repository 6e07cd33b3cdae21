use vstd::prelude::*;

verus! {

/// Fixed rate, in frames per second, of the mono signal the analysers read.
pub const ANALYSIS_SAMPLE_RATE: u32 = 22_050;

/// The source frame nearest to an analysis frame, rounding half up:
/// `floor((analysis_frame * source_rate + ANALYSIS_SAMPLE_RATE / 2) / ANALYSIS_SAMPLE_RATE)`,
/// saturated at `u64::MAX`.
pub open spec fn source_frame_of(analysis_frame: u64, source_rate: u32) -> int {
    let exact = (analysis_frame * source_rate + ANALYSIS_SAMPLE_RATE / 2) / (ANALYSIS_SAMPLE_RATE as int);
    if exact > u64::MAX { u64::MAX as int } else { exact }
}

/// Converts a position on the analysis signal back to the source's frame
/// grid in one exact integer step, so that no rounding error accumulates.
pub fn analysis_frame_to_source_frame(analysis_frame: u64, source_rate: u32) -> (frame: u64)
    ensures
        frame == source_frame_of(analysis_frame, source_rate),
{
    assert((analysis_frame as int) * (source_rate as int) <= (u64::MAX as int) * (u32::MAX as int))
        by (nonlinear_arith);
    let product: u128 = (analysis_frame as u128) * (source_rate as u128);
    let numerator: u128 = product + ((ANALYSIS_SAMPLE_RATE / 2) as u128);
    let quotient: u128 = numerator / (ANALYSIS_SAMPLE_RATE as u128);
    if quotient > (u64::MAX as u128) {
        u64::MAX
    } else {
        quotient as u64
    }
}

} // verus!
