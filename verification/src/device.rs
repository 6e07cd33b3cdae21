//! What an output device offers for master and headphone-cue routing.
use vstd::prelude::*;

verus! {

#[derive(Clone, Debug, PartialEq, Eq)]
pub struct OutputDeviceInfo {
    pub id: String,
    pub name: String,
    pub is_default: bool,
    pub interface: String,
    pub channels: u16,
    pub max_channels: u16,
    pub sample_rate: u32,
    pub stereo_master_supported: bool,
    pub stereo_cue_supported: bool,
    pub routing_mode: String,
    pub limitation: Option<String>,
}

pub open spec fn cue_limitation_text() -> Seq<char> {
    "Stereo headphone cue requires one output device with at least four channels."@
}

impl OutputDeviceInfo {
    /// Describes a device from what the host reports of it: a stereo master
    /// needs two channels, a stereo master with a stereo cue needs four.
    pub fn describe(
        id: String,
        name: String,
        is_default: bool,
        interface: String,
        channels: u16,
        max_channels: u16,
        sample_rate: u32,
    ) -> (info: OutputDeviceInfo)
        ensures
            info.id == id,
            info.name == name,
            info.is_default == is_default,
            info.interface == interface,
            info.channels == channels,
            info.max_channels == max_channels,
            info.sample_rate == sample_rate,
            info.stereo_master_supported == (max_channels >= 2),
            info.stereo_cue_supported == (max_channels >= 4),
            info.routing_mode@ == if max_channels >= 4 {
                "master-and-cue"@
            } else {
                "master-only"@
            },
            match info.limitation {
                Some(text) => max_channels < 4 && text@ == cue_limitation_text(),
                None => max_channels >= 4,
            },
    {
        let stereo_master_supported = max_channels >= 2;
        let stereo_cue_supported = max_channels >= 4;
        let routing_mode = if stereo_cue_supported {
            String::from_str("master-and-cue")
        } else {
            String::from_str("master-only")
        };
        let limitation = if stereo_cue_supported {
            None
        } else {
            Some(
                String::from_str(
                    "Stereo headphone cue requires one output device with at least four channels.",
                ),
            )
        };
        OutputDeviceInfo {
            id,
            name,
            is_default,
            interface,
            channels,
            max_channels,
            sample_rate,
            stereo_master_supported,
            stereo_cue_supported,
            routing_mode,
            limitation,
        }
    }
}

/// The largest channel count among the supported configurations, or the
/// default configuration's count when there is none.
pub fn max_channel_count(supported: &[u16], default_channels: u16) -> (max: u16)
    ensures
        supported@.len() == 0 ==> max == default_channels,
        supported@.len() > 0 ==> supported@.contains(max),
        forall|i: int| 0 <= i < supported@.len() ==> supported@[i] <= max,
{
    if supported.len() == 0 {
        return default_channels;
    }
    let mut max = supported[0];
    let mut witness: usize = 0;
    let mut i: usize = 1;
    while i < supported.len()
        invariant
            1 <= i <= supported@.len(),
            witness < i,
            supported@[witness as int] == max,
            forall|k: int| 0 <= k < i ==> supported@[k] <= max,
        decreases supported@.len() - i,
    {
        if supported[i] > max {
            max = supported[i];
            witness = i;
        }
        i = i + 1;
    }
    assert(supported@[witness as int] == max);
    max
}

/// One supported output configuration, as plain values.
#[derive(Clone, Copy, Debug, PartialEq, Eq, Structural)]
pub struct ConfigCandidate {
    pub channels: u16,
    pub float_samples: bool,
    pub min_sample_rate: u32,
    pub max_sample_rate: u32,
}

/// The order in which configurations are preferred: more channels first,
/// then float samples.
pub open spec fn preferred_at_least(a: ConfigCandidate, b: ConfigCandidate) -> bool {
    a.channels > b.channels || (a.channels == b.channels && (a.float_samples || !b.float_samples))
}

/// Of the configurations with at least four channels, the one at `index`
/// has the most channels; among those with that many it has float samples
/// if any has; and no later one has both the same channel count and the same
/// sample format.
pub open spec fn most_channels_then_float(candidates: Seq<ConfigCandidate>, index: int) -> bool {
    &&& forall|i: int|
        0 <= i < candidates.len() && #[trigger] candidates[i].channels >= 4
            ==> candidates[index].channels >= candidates[i].channels
    &&& forall|i: int|
        0 <= i < candidates.len() && #[trigger] candidates[i].channels >= 4
            && candidates[i].channels == candidates[index].channels && candidates[i].float_samples
            ==> candidates[index].float_samples
    &&& forall|i: int|
        index < i < candidates.len() && #[trigger] candidates[i].channels >= 4
            ==> !(candidates[i].channels == candidates[index].channels
            && candidates[i].float_samples == candidates[index].float_samples)
}

/// A configuration preferred to every other with at least four channels,
/// and to no later one, has the most channels; float samples only break
/// ties between equal channel counts, and of equal ones the last is taken.
pub proof fn lemma_preferred_choice_has_most_channels(candidates: Seq<ConfigCandidate>, index: int)
    requires
        0 <= index < candidates.len(),
        candidates[index].channels >= 4,
        forall|i: int|
            0 <= i < candidates.len() && #[trigger] candidates[i].channels >= 4
                ==> preferred_at_least(candidates[index], candidates[i]),
        forall|i: int|
            index < i < candidates.len() && #[trigger] candidates[i].channels >= 4
                ==> !preferred_at_least(candidates[i], candidates[index]),
    ensures
        most_channels_then_float(candidates, index),
{
}

/// The rate to open a chosen configuration at: the default rate when the
/// configuration supports it, else its highest rate capped at 48 kHz.
pub open spec fn chosen_rate(candidate: ConfigCandidate, default_rate: u32) -> u32 {
    if candidate.min_sample_rate <= default_rate && default_rate <= candidate.max_sample_rate {
        default_rate
    } else if candidate.max_sample_rate < 48_000 {
        candidate.max_sample_rate
    } else {
        48_000
    }
}

/// Picks the configuration to open: among those with at least four channels,
/// the last of the most preferred ones, with the rate to use. `None` means
/// the device's default configuration is used.
pub fn choose_output_config(candidates: &[ConfigCandidate], default_rate: u32) -> (choice: Option<
    (usize, u32),
>)
    ensures
        match choice {
            None => forall|i: int| 0 <= i < candidates@.len() ==> #[trigger] candidates@[i].channels < 4,
            Some((index, rate)) => {
                &&& index < candidates@.len()
                &&& candidates@[index as int].channels >= 4
                &&& rate == chosen_rate(candidates@[index as int], default_rate)
                &&& forall|i: int|
                    0 <= i < candidates@.len() && #[trigger] candidates@[i].channels >= 4
                        ==> preferred_at_least(candidates@[index as int], candidates@[i])
                &&& forall|i: int|
                    index < i < candidates@.len() && #[trigger] candidates@[i].channels >= 4
                        ==> !preferred_at_least(candidates@[i], candidates@[index as int])
                &&& most_channels_then_float(candidates@, index as int)
            },
        },
{
    let mut best: Option<usize> = None;
    let mut i: usize = 0;
    while i < candidates.len()
        invariant
            0 <= i <= candidates@.len(),
            match best {
                None => forall|k: int| 0 <= k < i ==> #[trigger] candidates@[k].channels < 4,
                Some(b) => {
                    &&& b < i
                    &&& candidates@[b as int].channels >= 4
                    &&& forall|k: int|
                        0 <= k < i && #[trigger] candidates@[k].channels >= 4 ==> preferred_at_least(
                            candidates@[b as int],
                            candidates@[k],
                        )
                    &&& forall|k: int|
                        b < k < i && #[trigger] candidates@[k].channels >= 4 ==> !preferred_at_least(
                            candidates@[k],
                            candidates@[b as int],
                        )
                },
            },
        decreases candidates@.len() - i,
    {
        let c = candidates[i];
        if c.channels >= 4 {
            match best {
                None => {
                    best = Some(i);
                },
                Some(b) => {
                    let current = candidates[b];
                    if c.channels > current.channels || (c.channels == current.channels && (
                    c.float_samples || !current.float_samples)) {
                        best = Some(i);
                    }
                },
            }
        }
        i = i + 1;
    }
    match best {
        None => None,
        Some(b) => {
            proof {
                lemma_preferred_choice_has_most_channels(candidates@, b as int);
            }
            let c = candidates[b];
            let rate = if c.min_sample_rate <= default_rate && default_rate <= c.max_sample_rate {
                default_rate
            } else if c.max_sample_rate < 48_000 {
                c.max_sample_rate
            } else {
                48_000
            };
            Some((b, rate))
        },
    }
}

} // verus!
