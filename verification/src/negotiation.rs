//! Device negotiation: resolving what a session asks for against what the
//! hardware advertises.

use vstd::prelude::*;
use crate::audio::AudioConfig;

verus! {

/// The buffer sizes that a device accepts within one range of
/// configurations.
#[derive(Clone, Copy, Debug, PartialEq, Eq, Structural)]
pub enum BufferSizeRange {
    Range { min: u32, max: u32 },
    /// The device does not say.
    Unknown,
}

/// One range of configurations that a device advertises for one direction.
#[derive(Clone, Copy, Debug, PartialEq, Eq, Structural)]
pub struct ConfigRange {
    pub channels: u16,
    pub min_sample_rate: u32,
    pub max_sample_rate: u32,
    pub buffer_size: BufferSizeRange,
}

/// A device as the driver enumerates it: its name and what it advertises for
/// capture and for playback.
#[derive(Clone, Debug)]
pub struct DeviceInfo {
    pub name: String,
    pub input_configs: Vec<ConfigRange>,
    pub output_configs: Vec<ConfigRange>,
}

/// The stream configuration granted for one direction.
#[derive(Clone, Copy, Debug, PartialEq, Eq, Structural)]
pub struct NegotiatedStreamConfig {
    pub channels: u16,
    pub sample_rate: u32,
    pub buffer_size: u32,
}

/// Why a requested configuration cannot be had.
#[derive(Clone, Copy, Debug, PartialEq, Eq, Structural)]
pub enum ConfigError {
    /// No device has the requested name.
    DeviceNotFound,
    /// The device advertises no range that holds the request.
    UnsupportedConfig,
}

impl ConfigRange {
    /// Whether this range holds a request: the sample rate and the buffer
    /// size lie within its bounds and it has at least `channels` channels. A
    /// range whose buffer sizes are unknown holds no request.
    pub open spec fn spec_supports(self, sample_rate: u32, buffer_size: u32, channels: int) -> bool {
        &&& self.min_sample_rate <= sample_rate <= self.max_sample_rate
        &&& channels <= self.channels
        &&& match self.buffer_size {
            BufferSizeRange::Range { min, max } => min <= buffer_size <= max,
            BufferSizeRange::Unknown => false,
        }
    }

    /// What is granted from this range: its channel count, at the requested
    /// sample rate and buffer size.
    pub open spec fn spec_grant(self, sample_rate: u32, buffer_size: u32) -> NegotiatedStreamConfig {
        NegotiatedStreamConfig { channels: self.channels, sample_rate, buffer_size }
    }

    pub fn supports(&self, sample_rate: u32, buffer_size: u32, channels: u64) -> (ok: bool)
        ensures
            ok == self.spec_supports(sample_rate, buffer_size, channels as int),
    {
        let fits = match self.buffer_size {
            BufferSizeRange::Range { min, max } => min <= buffer_size && buffer_size <= max,
            BufferSizeRange::Unknown => false,
        };
        sample_rate >= self.min_sample_rate && sample_rate <= self.max_sample_rate && channels
            <= self.channels as u64 && fits
    }
}

/// The index of the first range at or after `from` that holds the request.
pub open spec fn spec_first_supporting(
    ranges: Seq<ConfigRange>,
    sample_rate: u32,
    buffer_size: u32,
    channels: int,
    from: int,
) -> Option<int>
    decreases ranges.len() - from,
{
    if from < 0 || from >= ranges.len() {
        None
    } else if ranges[from].spec_supports(sample_rate, buffer_size, channels) {
        Some(from)
    } else {
        spec_first_supporting(ranges, sample_rate, buffer_size, channels, from + 1)
    }
}

/// What a list of advertised ranges grants a request: the first range that
/// holds it decides.
pub open spec fn spec_get_config(
    ranges: Seq<ConfigRange>,
    sample_rate: u32,
    buffer_size: u32,
    channels: int,
) -> Result<NegotiatedStreamConfig, ConfigError> {
    match spec_first_supporting(ranges, sample_rate, buffer_size, channels, 0) {
        Some(k) => Ok(ranges[k].spec_grant(sample_rate, buffer_size)),
        None => Err(ConfigError::UnsupportedConfig),
    }
}

/// The index of the first device at or after `from` with the given name.
pub open spec fn spec_find_device(devices: Seq<DeviceInfo>, name: Seq<char>, from: int) -> Option<
    int,
>
    decreases devices.len() - from,
{
    if from < 0 || from >= devices.len() {
        None
    } else if devices[from].name@ == name {
        Some(from)
    } else {
        spec_find_device(devices, name, from + 1)
    }
}

/// What the enumerated devices grant a requested configuration, for capture
/// and for playback. A missing device is reported before an unsupported
/// configuration.
pub open spec fn spec_negotiate(config: &AudioConfig, devices: Seq<DeviceInfo>) -> Result<
    (NegotiatedStreamConfig, NegotiatedStreamConfig),
    ConfigError,
> {
    match (
        spec_find_device(devices, config.input_device@, 0),
        spec_find_device(devices, config.output_device@, 0),
    ) {
        (Some(i), Some(o)) => match (
            spec_get_config(
                devices[i].input_configs@,
                config.sample_rate,
                config.buffer_size,
                config.input_channel + config.spec_channel_count(),
            ),
            spec_get_config(
                devices[o].output_configs@,
                config.sample_rate,
                config.buffer_size,
                config.output_channel + config.spec_channel_count(),
            ),
        ) {
            (Ok(input), Ok(output)) => Ok((input, output)),
            _ => Err(ConfigError::UnsupportedConfig),
        },
        _ => Err(ConfigError::DeviceNotFound),
    }
}

/// The first supporting range is found exactly when some range holds the
/// request, and no range before it does.
pub proof fn lemma_first_supporting(
    ranges: Seq<ConfigRange>,
    sample_rate: u32,
    buffer_size: u32,
    channels: int,
    from: int,
)
    requires
        0 <= from,
    ensures
        match spec_first_supporting(ranges, sample_rate, buffer_size, channels, from) {
            Some(k) => {
                &&& from <= k < ranges.len()
                &&& ranges[k].spec_supports(sample_rate, buffer_size, channels)
                &&& forall|j: int|
                    from <= j < k ==> !(#[trigger] ranges[j]).spec_supports(
                        sample_rate,
                        buffer_size,
                        channels,
                    )
            },
            None => forall|j: int|
                from <= j < ranges.len() ==> !(#[trigger] ranges[j]).spec_supports(
                    sample_rate,
                    buffer_size,
                    channels,
                ),
        },
    decreases ranges.len() - from,
{
    if from < ranges.len() && !ranges[from].spec_supports(sample_rate, buffer_size, channels) {
        lemma_first_supporting(ranges, sample_rate, buffer_size, channels, from + 1);
    }
}

/// A device is found exactly when some device has the name, and it is the
/// first one that has.
pub proof fn lemma_find_device(devices: Seq<DeviceInfo>, name: Seq<char>, from: int)
    requires
        0 <= from,
    ensures
        match spec_find_device(devices, name, from) {
            Some(k) => {
                &&& from <= k < devices.len()
                &&& devices[k].name@ == name
                &&& forall|j: int| from <= j < k ==> (#[trigger] devices[j]).name@ != name
            },
            None => forall|j: int| from <= j < devices.len() ==> (#[trigger] devices[j]).name@ != name,
        },
    decreases devices.len() - from,
{
    if from < devices.len() && devices[from].name@ != name {
        lemma_find_device(devices, name, from + 1);
    }
}

/// What is granted is what was asked for: in both directions the requested
/// sample rate and buffer size, on a device of the requested name, from a
/// range that holds the request.
pub proof fn lemma_negotiated(config: &AudioConfig, devices: Seq<DeviceInfo>)
    requires
        spec_negotiate(config, devices) is Ok,
    ensures
        ({
            let (input, output) = spec_negotiate(config, devices)->Ok_0;
            &&& input.sample_rate == config.sample_rate
            &&& input.buffer_size == config.buffer_size
            &&& config.input_channel + config.spec_channel_count() <= input.channels
            &&& output.sample_rate == config.sample_rate
            &&& output.buffer_size == config.buffer_size
            &&& config.output_channel + config.spec_channel_count() <= output.channels
        }),
{
    lemma_find_device(devices, config.input_device@, 0);
    lemma_find_device(devices, config.output_device@, 0);
    let i = spec_find_device(devices, config.input_device@, 0)->Some_0;
    let o = spec_find_device(devices, config.output_device@, 0)->Some_0;
    lemma_first_supporting(
        devices[i].input_configs@,
        config.sample_rate,
        config.buffer_size,
        config.input_channel + config.spec_channel_count(),
        0,
    );
    lemma_first_supporting(
        devices[o].output_configs@,
        config.sample_rate,
        config.buffer_size,
        config.output_channel + config.spec_channel_count(),
        0,
    );
}

/// Selects, from the ranges a device advertises for one direction, the
/// configuration for a request that needs `channels` channels.
pub fn get_config(ranges: &Vec<ConfigRange>, sample_rate: u32, buffer_size: u32, channels: u64) -> (r:
    Result<NegotiatedStreamConfig, ConfigError>)
    ensures
        r == spec_get_config(ranges@, sample_rate, buffer_size, channels as int),
{
    let mut i: usize = 0;
    while i < ranges.len()
        invariant
            i <= ranges@.len(),
            spec_first_supporting(ranges@, sample_rate, buffer_size, channels as int, 0)
                == spec_first_supporting(ranges@, sample_rate, buffer_size, channels as int, i as int),
        decreases ranges@.len() - i,
    {
        if ranges[i].supports(sample_rate, buffer_size, channels) {
            return Ok(
                NegotiatedStreamConfig { channels: ranges[i].channels, sample_rate, buffer_size },
            );
        }
        i += 1;
    }
    Err(ConfigError::UnsupportedConfig)
}

/// Finds the first device with the given name.
pub fn find_device(devices: &Vec<DeviceInfo>, name: &String) -> (r: Option<usize>)
    ensures
        match r {
            Some(k) => spec_find_device(devices@, name@, 0) == Some(k as int),
            None => spec_find_device(devices@, name@, 0) is None,
        },
{
    let mut i: usize = 0;
    while i < devices.len()
        invariant
            i <= devices@.len(),
            spec_find_device(devices@, name@, 0) == spec_find_device(devices@, name@, i as int),
        decreases devices@.len() - i,
    {
        if devices[i].name == *name {
            return Some(i);
        }
        i += 1;
    }
    None
}

/// Resolves a requested configuration against the enumerated devices, for
/// capture and for playback.
pub fn negotiate(config: &AudioConfig, devices: &Vec<DeviceInfo>) -> (r: Result<
    (NegotiatedStreamConfig, NegotiatedStreamConfig),
    ConfigError,
>)
    ensures
        r == spec_negotiate(config, devices@),
{
    let input_device = find_device(devices, &config.input_device);
    let output_device = find_device(devices, &config.output_device);
    let (i, o) = match (input_device, output_device) {
        (Some(i), Some(o)) => {
            proof {
                lemma_find_device(devices@, config.input_device@, 0);
                lemma_find_device(devices@, config.output_device@, 0);
            }
            (i, o)
        },
        _ => {
            return Err(ConfigError::DeviceNotFound);
        },
    };
    let channel_count = config.get_channel_count() as u64;
    let input_config = get_config(
        &devices[i].input_configs,
        config.sample_rate,
        config.buffer_size,
        config.input_channel as u64 + channel_count,
    );
    let output_config = get_config(
        &devices[o].output_configs,
        config.sample_rate,
        config.buffer_size,
        config.output_channel as u64 + channel_count,
    );
    match (input_config, output_config) {
        (Ok(input), Ok(output)) => Ok((input, output)),
        _ => Err(ConfigError::UnsupportedConfig),
    }
}

} // verus!
