//! Drift measurement between two output devices that play in parallel.
use vstd::prelude::*;
use vstd::string::StringExecFns;

use crate::text::{decimal, push_decimal, push_signed_decimal, signed_decimal};

verus! {

#[derive(Clone, Debug, PartialEq, Eq, Structural)]
pub struct DualOutputSample {
    pub elapsed_seconds: u64,
    pub master_frames: u64,
    pub cue_frames: u64,
    pub relative_frames: i64,
    pub drift_from_baseline_frames: i64,
}

#[derive(Clone, Debug, PartialEq, Eq)]
pub struct DualOutputReport {
    pub master_name: String,
    pub cue_name: String,
    pub sample_rate: u32,
    pub duration_seconds: u64,
    pub master_callbacks: u64,
    pub cue_callbacks: u64,
    pub master_frames: u64,
    pub cue_frames: u64,
    pub master_stream_errors: u64,
    pub cue_stream_errors: u64,
    pub final_drift_frames: i64,
    pub maximum_absolute_drift_frames: u64,
    pub samples: Vec<DualOutputSample>,
}

pub open spec fn dual_output_summary(r: &DualOutputReport) -> Seq<char> {
    "Dual-output report: master="@ + r.master_name@ + ", cue="@ + r.cue_name@ + ", rate="@
        + decimal(r.sample_rate as nat) + "Hz, duration="@ + decimal(r.duration_seconds as nat)
        + "s, master_callbacks="@ + decimal(r.master_callbacks as nat) + ", cue_callbacks="@
        + decimal(r.cue_callbacks as nat) + ", master_frames="@ + decimal(r.master_frames as nat)
        + ", cue_frames="@ + decimal(r.cue_frames as nat) + ", final_drift_frames="@
        + signed_decimal(r.final_drift_frames as int) + ", max_abs_drift_frames="@ + decimal(
        r.maximum_absolute_drift_frames as nat,
    ) + ", master_errors="@ + decimal(r.master_stream_errors as nat) + ", cue_errors="@
        + decimal(r.cue_stream_errors as nat)
}

impl DualOutputReport {
    /// One line with the devices, the counters and the drift.
    pub fn summary(&self) -> (text: String)
        ensures
            text@ == dual_output_summary(self),
    {
        let mut text = String::from_str("Dual-output report: master=");
        text.append(self.master_name.as_str());
        text.append(", cue=");
        text.append(self.cue_name.as_str());
        text.append(", rate=");
        push_decimal(&mut text, self.sample_rate as u64);
        text.append("Hz, duration=");
        push_decimal(&mut text, self.duration_seconds);
        text.append("s, master_callbacks=");
        push_decimal(&mut text, self.master_callbacks);
        text.append(", cue_callbacks=");
        push_decimal(&mut text, self.cue_callbacks);
        text.append(", master_frames=");
        push_decimal(&mut text, self.master_frames);
        text.append(", cue_frames=");
        push_decimal(&mut text, self.cue_frames);
        text.append(", final_drift_frames=");
        push_signed_decimal(&mut text, self.final_drift_frames);
        text.append(", max_abs_drift_frames=");
        push_decimal(&mut text, self.maximum_absolute_drift_frames);
        text.append(", master_errors=");
        push_decimal(&mut text, self.master_stream_errors);
        text.append(", cue_errors=");
        push_decimal(&mut text, self.cue_stream_errors);
        text
    }
}

/// `left - right`, saturated to the range of `i64`.
pub open spec fn saturated_difference(left: u64, right: u64) -> int {
    let d = left - right;
    if d > i64::MAX {
        i64::MAX as int
    } else if d < i64::MIN {
        i64::MIN as int
    } else {
        d
    }
}

/// How many frames the master device is ahead of the cue device.
pub fn signed_difference(left: u64, right: u64) -> (difference: i64)
    ensures
        difference == saturated_difference(left, right),
{
    if left >= right {
        let d = left - right;
        if d > (i64::MAX as u64) {
            i64::MAX
        } else {
            d as i64
        }
    } else {
        let d = right - left;
        if d >= 9_223_372_036_854_775_808u64 {
            i64::MIN
        } else {
            -(d as i64)
        }
    }
}

/// The absolute value of a frame drift.
pub open spec fn magnitude(v: int) -> nat {
    if v < 0 {
        (-v) as nat
    } else {
        v as nat
    }
}

/// Collects one sample per second against the difference measured when
/// both streams had settled.
pub struct DriftTracker {
    pub baseline: i64,
    pub maximum_absolute_drift_frames: u64,
    pub samples: Vec<DualOutputSample>,
}

impl DriftTracker {
    pub fn new(baseline: i64) -> (tracker: DriftTracker)
        ensures
            tracker.baseline == baseline,
            tracker.maximum_absolute_drift_frames == 0,
            tracker.samples@.len() == 0,
    {
        DriftTracker { baseline, maximum_absolute_drift_frames: 0, samples: Vec::new() }
    }

    /// Records the frame counters read after `elapsed_seconds`.
    pub fn record(&mut self, elapsed_seconds: u64, master_frames: u64, cue_frames: u64)
        requires
            i64::MIN <= saturated_difference(master_frames, cue_frames) - old(self).baseline
                <= i64::MAX,
        ensures
            final(self).baseline == old(self).baseline,
            ({
                let relative = saturated_difference(master_frames, cue_frames);
                let drift = relative - old(self).baseline;
                &&& final(self).samples@ == old(self).samples@.push(
                    DualOutputSample {
                        elapsed_seconds,
                        master_frames,
                        cue_frames,
                        relative_frames: relative as i64,
                        drift_from_baseline_frames: drift as i64,
                    },
                )
                &&& final(self).maximum_absolute_drift_frames == if magnitude(drift) > old(
                    self,
                ).maximum_absolute_drift_frames {
                    magnitude(drift)
                } else {
                    old(self).maximum_absolute_drift_frames as nat
                }
            }),
    {
        let relative_frames = signed_difference(master_frames, cue_frames);
        let drift_from_baseline_frames = relative_frames - self.baseline;
        let absolute: u64 = if drift_from_baseline_frames < 0 {
            if drift_from_baseline_frames == i64::MIN {
                9_223_372_036_854_775_808u64
            } else {
                (-drift_from_baseline_frames) as u64
            }
        } else {
            drift_from_baseline_frames as u64
        };
        if absolute > self.maximum_absolute_drift_frames {
            self.maximum_absolute_drift_frames = absolute;
        }
        self.samples.push(
            DualOutputSample {
                elapsed_seconds,
                master_frames,
                cue_frames,
                relative_frames,
                drift_from_baseline_frames,
            },
        );
    }

    /// The report of the run: the drift and frame counters come from the
    /// last sample, or are zero when no sample was taken.
    pub fn finish(
        self,
        master_name: String,
        cue_name: String,
        sample_rate: u32,
        duration_seconds: u64,
        master_callbacks: u64,
        cue_callbacks: u64,
        master_stream_errors: u64,
        cue_stream_errors: u64,
    ) -> (report: DualOutputReport)
        ensures
            report.master_name == master_name,
            report.cue_name == cue_name,
            report.sample_rate == sample_rate,
            report.duration_seconds == duration_seconds,
            report.master_callbacks == master_callbacks,
            report.cue_callbacks == cue_callbacks,
            report.master_stream_errors == master_stream_errors,
            report.cue_stream_errors == cue_stream_errors,
            report.maximum_absolute_drift_frames == self.maximum_absolute_drift_frames,
            report.samples@ == self.samples@,
            self.samples@.len() == 0 ==> report.final_drift_frames == 0 && report.master_frames
                == 0 && report.cue_frames == 0,
            self.samples@.len() > 0 ==> report.final_drift_frames == self.samples@.last().drift_from_baseline_frames
                && report.master_frames == self.samples@.last().master_frames
                && report.cue_frames == self.samples@.last().cue_frames,
    {
        let count = self.samples.len();
        let (final_drift_frames, master_frames, cue_frames) = if count == 0 {
            (0, 0, 0)
        } else {
            let last = &self.samples[count - 1];
            (last.drift_from_baseline_frames, last.master_frames, last.cue_frames)
        };
        DualOutputReport {
            master_name,
            cue_name,
            sample_rate,
            duration_seconds,
            master_callbacks,
            cue_callbacks,
            master_frames,
            cue_frames,
            master_stream_errors,
            cue_stream_errors,
            final_drift_frames,
            maximum_absolute_drift_frames: self.maximum_absolute_drift_frames,
            samples: self.samples,
        }
    }
}

/// Whether the probe's table shows the sample taken at `elapsed_seconds`: all
/// of a run of at most two minutes; of a longer one, the first second, every
/// whole minute and the last second.
pub fn sample_is_printed(duration_seconds: u64, elapsed_seconds: u64) -> (printed: bool)
    ensures
        printed == (duration_seconds <= 120 || elapsed_seconds == 1 || elapsed_seconds % 60 == 0
            || elapsed_seconds == duration_seconds),
{
    duration_seconds <= 120 || elapsed_seconds == 1 || elapsed_seconds % 60 == 0 || elapsed_seconds
        == duration_seconds
}

} // verus!
