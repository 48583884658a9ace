//! The audio configuration of a session and the interface to the devices
//! that serve it.

use vstd::prelude::*;
use ringbuf::{Consumer, Producer};
use crate::negotiation::{negotiate, spec_negotiate, lemma_negotiated};
use crate::negotiation::{BufferSizeRange, ConfigError, ConfigRange, DeviceInfo, NegotiatedStreamConfig};
use crate::stream::{CaptureCallback, ChannelRange, PlaybackCallback, StreamCallback};
use crate::util::Mode;

verus! {

/// Sample rate of the default configuration, in Hz.
pub const DEFAULT_SAMPLE_RATE: u32 = 44100;

/// Frames per callback of the default configuration.
pub const DEFAULT_BUFFER_SIZE: u32 = 128;

/// What one session asks of the audio hardware. Created once per session and
/// never changed while the session runs.
#[derive(Clone, Debug)]
pub struct AudioConfig {
    pub host: String,
    pub input_device: String,
    pub output_device: String,
    pub sample_rate: u32,
    pub buffer_size: u32,
    pub stereo: bool,
    pub input_channel: u32,
    pub output_channel: u32,
}

impl AudioConfig {
    pub fn new(
        host: String,
        input_device: String,
        output_device: String,
        sample_rate: u32,
        buffer_size: u32,
        stereo: bool,
        input_channel: u32,
        output_channel: u32,
    ) -> (config: Self)
        ensures
            config.host == host,
            config.input_device == input_device,
            config.output_device == output_device,
            config.sample_rate == sample_rate,
            config.buffer_size == buffer_size,
            config.stereo == stereo,
            config.input_channel == input_channel,
            config.output_channel == output_channel,
    {
        AudioConfig {
            host,
            input_device,
            output_device,
            sample_rate,
            buffer_size,
            stereo,
            input_channel,
            output_channel,
        }
    }

    /// The configuration used when the session names none: the given host and
    /// devices at 44100 Hz, 128 frames per callback, mono, first channel.
    pub fn with_defaults(host: String, input_device: String, output_device: String) -> (config:
        Self)
        ensures
            config.host == host,
            config.input_device == input_device,
            config.output_device == output_device,
            config.sample_rate == DEFAULT_SAMPLE_RATE,
            config.buffer_size == DEFAULT_BUFFER_SIZE,
            !config.stereo,
            config.input_channel == 0,
            config.output_channel == 0,
    {
        AudioConfig::new(
            host,
            input_device,
            output_device,
            DEFAULT_SAMPLE_RATE,
            DEFAULT_BUFFER_SIZE,
            false,
            0,
            0,
        )
    }

    /// Two channels if stereo, one otherwise.
    pub open spec fn spec_channel_count(&self) -> u32 {
        if self.stereo {
            2
        } else {
            1
        }
    }

    /// Samples per callback: `buffer_size * channel_count`.
    pub open spec fn spec_frame_size(&self) -> int {
        self.buffer_size * self.spec_channel_count()
    }

    pub fn get_channel_count(&self) -> (count: u32)
        ensures
            count == self.spec_channel_count(),
    {
        match self.stereo {
            true => 2,
            false => 1,
        }
    }

    pub fn get_frame_size(&self) -> (size: usize)
        requires
            self.spec_frame_size() <= u32::MAX,
        ensures
            size == self.spec_frame_size(),
    {
        (self.buffer_size * self.get_channel_count()) as usize
    }
}

/// The bounds of the buffer sizes that a device accepts.
#[derive(Clone, Copy, Debug, PartialEq, Eq, Structural)]
pub struct Buffer {
    pub min: u32,
    pub max: u32,
}

/// What a device advertises for one direction, summed up for presentation.
#[derive(Debug)]
pub struct SupportedConfig {
    pub sample_rates: Vec<u32>,
    pub buffer_size: Buffer,
    pub channels: u16,
}

/// The mathematical content of a [`SupportedConfig`].
pub struct SupportedConfigView {
    pub sample_rates: Seq<u32>,
    pub buffer_size: Buffer,
    pub channels: u16,
}

impl View for SupportedConfig {
    type V = SupportedConfigView;

    open spec fn view(&self) -> SupportedConfigView {
        SupportedConfigView {
            sample_rates: self.sample_rates@,
            buffer_size: self.buffer_size,
            channels: self.channels,
        }
    }
}

/// What one device advertises, for capture and for playback.
#[derive(Debug)]
pub struct DeviceSupport {
    pub name: String,
    pub input: SupportedConfig,
    pub output: SupportedConfig,
}

/// The bounds that stand for a range of buffer sizes; an unknown range has
/// the bounds 0 and 0.
pub open spec fn spec_bounds(range: BufferSizeRange) -> Buffer {
    match range {
        BufferSizeRange::Range { min, max } => Buffer { min, max },
        BufferSizeRange::Unknown => Buffer { min: 0, max: 0 },
    }
}

/// The summary of the ranges advertised for one direction: the highest
/// sample rate of each range, and the channel count and buffer sizes of the
/// last range. Without any range, the counts and bounds are 0.
pub open spec fn spec_summary(ranges: Seq<ConfigRange>) -> SupportedConfigView {
    SupportedConfigView {
        sample_rates: Seq::new(ranges.len(), |i: int| ranges[i].max_sample_rate),
        buffer_size: if ranges.len() == 0 {
            Buffer { min: 0, max: 0 }
        } else {
            spec_bounds(ranges.last().buffer_size)
        },
        channels: if ranges.len() == 0 {
            0
        } else {
            ranges.last().channels
        },
    }
}

/// Sums up the ranges that a device advertises for one direction.
pub fn summarize(ranges: &Vec<ConfigRange>) -> (summary: SupportedConfig)
    ensures
        summary@ == spec_summary(ranges@),
{
    let mut sample_rates: Vec<u32> = Vec::new();
    let mut channels: u16 = 0;
    let mut buffer_size = Buffer { min: 0, max: 0 };
    let mut i: usize = 0;
    while i < ranges.len()
        invariant
            i <= ranges@.len(),
            sample_rates@ == spec_summary(ranges@.take(i as int)).sample_rates,
            buffer_size == spec_summary(ranges@.take(i as int)).buffer_size,
            channels == spec_summary(ranges@.take(i as int)).channels,
        decreases ranges@.len() - i,
    {
        let range = &ranges[i];
        buffer_size =
        match range.buffer_size {
            BufferSizeRange::Range { min, max } => Buffer { min, max },
            BufferSizeRange::Unknown => Buffer { min: 0, max: 0 },
        };
        sample_rates.push(range.max_sample_rate);
        channels = range.channels;
        i += 1;
        assert(sample_rates@ =~= spec_summary(ranges@.take(i as int)).sample_rates);
    }
    assert(ranges@.take(i as int) =~= ranges@);
    SupportedConfig { sample_rates, buffer_size, channels }
}

/// What a session asked of the audio hardware and what it was granted for
/// capture and for playback, once negotiation has succeeded.
pub struct AudioInterface {
    audio_config: AudioConfig,
    input_config: NegotiatedStreamConfig,
    output_config: NegotiatedStreamConfig,
}

impl AudioInterface {
    /// The configuration that was asked for.
    pub closed spec fn spec_audio_config(&self) -> AudioConfig {
        self.audio_config
    }

    /// What was granted for capture.
    pub closed spec fn spec_input_config(&self) -> NegotiatedStreamConfig {
        self.input_config
    }

    /// What was granted for playback.
    pub closed spec fn spec_output_config(&self) -> NegotiatedStreamConfig {
        self.output_config
    }

    /// Both directions were granted what was asked for: the requested sample
    /// rate and buffer size, and enough channels to hold the requested ones.
    pub open spec fn wf(&self) -> bool {
        let config = self.spec_audio_config();
        &&& self.spec_input_config().sample_rate == config.sample_rate
        &&& self.spec_input_config().buffer_size == config.buffer_size
        &&& config.input_channel + config.spec_channel_count() <= self.spec_input_config().channels
        &&& self.spec_output_config().sample_rate == config.sample_rate
        &&& self.spec_output_config().buffer_size == config.buffer_size
        &&& config.output_channel + config.spec_channel_count()
            <= self.spec_output_config().channels
    }

    /// The channels of an input block that the stream captures.
    pub open spec fn spec_capture_range(&self) -> ChannelRange {
        let config = self.spec_audio_config();
        ChannelRange {
            start: config.input_channel,
            end: (config.input_channel + config.spec_channel_count()) as u32,
            channels: self.spec_input_config().channels as u32,
        }
    }

    /// The channels of an output block that the stream plays on.
    pub open spec fn spec_playback_range(&self) -> ChannelRange {
        let config = self.spec_audio_config();
        ChannelRange {
            start: config.output_channel,
            end: (config.output_channel + config.spec_channel_count()) as u32,
            channels: self.spec_output_config().channels as u32,
        }
    }

    /// Whether the enumerated devices can serve the configuration.
    pub fn validate_config(config: &AudioConfig, devices: &Vec<DeviceInfo>) -> (r: Result<
        (),
        ConfigError,
    >)
        ensures
            match r {
                Ok(_) => spec_negotiate(config, devices@) is Ok,
                Err(e) => spec_negotiate(config, devices@) == Err::<
                    (NegotiatedStreamConfig, NegotiatedStreamConfig),
                    ConfigError,
                >(e),
            },
    {
        match negotiate(config, devices) {
            Ok(_) => Ok(()),
            Err(e) => Err(e),
        }
    }

    /// Sums up what every enumerated device advertises, in enumeration
    /// order.
    pub fn get_supported_configs(devices: &Vec<DeviceInfo>) -> (all: Vec<DeviceSupport>)
        ensures
            all@.len() == devices@.len(),
            forall|i: int|
                0 <= i < devices@.len() ==> {
                    &&& (#[trigger] all@[i]).name@ == devices@[i].name@
                    &&& all@[i].input@ == spec_summary(devices@[i].input_configs@)
                    &&& all@[i].output@ == spec_summary(devices@[i].output_configs@)
                },
    {
        let mut all: Vec<DeviceSupport> = Vec::new();
        let mut i: usize = 0;
        while i < devices.len()
            invariant
                i <= devices@.len(),
                all@.len() == i,
                forall|k: int|
                    0 <= k < i ==> {
                        &&& (#[trigger] all@[k]).name@ == devices@[k].name@
                        &&& all@[k].input@ == spec_summary(devices@[k].input_configs@)
                        &&& all@[k].output@ == spec_summary(devices@[k].output_configs@)
                    },
            decreases devices@.len() - i,
        {
            let device = &devices[i];
            all.push(
                DeviceSupport {
                    name: device.name.clone(),
                    input: summarize(&device.input_configs),
                    output: summarize(&device.output_configs),
                },
            );
            i += 1;
        }
        all
    }

    /// Negotiates the configuration with the enumerated devices.
    pub fn new(config: AudioConfig, devices: &Vec<DeviceInfo>) -> (r: Result<
        AudioInterface,
        ConfigError,
    >)
        ensures
            match r {
                Ok(interface) => {
                    &&& interface.wf()
                    &&& interface.spec_audio_config() == config
                    &&& spec_negotiate(&config, devices@) == Ok::<
                        (NegotiatedStreamConfig, NegotiatedStreamConfig),
                        ConfigError,
                    >((interface.spec_input_config(), interface.spec_output_config()))
                },
                Err(e) => spec_negotiate(&config, devices@) == Err::<
                    (NegotiatedStreamConfig, NegotiatedStreamConfig),
                    ConfigError,
                >(e),
            },
    {
        match negotiate(&config, devices) {
            Ok((input_config, output_config)) => {
                proof {
                    lemma_negotiated(&config, devices@);
                }
                Ok(AudioInterface { audio_config: config, input_config, output_config })
            },
            Err(e) => Err(e),
        }
    }

    /// Makes the callback of a stream in the given mode, which takes over the
    /// half of the queue that the mode uses: the producer of the capture
    /// queue when sending, the consumer of the playback queue when
    /// returning. The other half is dropped.
    pub fn build_streams(
        &self,
        mode: &Mode,
        input_producer: Producer<u32>,
        output_consumer: Consumer<u32>,
    ) -> (callback: StreamCallback)
        requires
            self.wf(),
        ensures
            match *mode {
                Mode::Send => {
                    &&& callback matches StreamCallback::Capture(capture)
                    &&& capture.spec_range() == self.spec_capture_range()
                    &&& capture.spec_producer() == input_producer
                },
                Mode::Return => {
                    &&& callback matches StreamCallback::Playback(playback)
                    &&& playback.spec_range() == self.spec_playback_range()
                    &&& playback.spec_consumer() == output_consumer
                },
            },
    {
        match mode {
            Mode::Send => {
                let start = self.audio_config.input_channel;
                let end = self.audio_config.input_channel + self.audio_config.get_channel_count();
                let channels = self.input_config.channels as u32;
                StreamCallback::Capture(
                    CaptureCallback::new(ChannelRange { start, end, channels }, input_producer),
                )
            },
            Mode::Return => {
                let start = self.audio_config.output_channel;
                let end = self.audio_config.output_channel + self.audio_config.get_channel_count();
                let channels = self.output_config.channels as u32;
                StreamCallback::Playback(
                    PlaybackCallback::new(ChannelRange { start, end, channels }, output_consumer),
                )
            },
        }
    }

    pub fn get_audio_config(&self) -> (config: &AudioConfig)
        ensures
            *config == self.spec_audio_config(),
    {
        &self.audio_config
    }

    pub fn get_input_config(&self) -> (config: NegotiatedStreamConfig)
        ensures
            config == self.spec_input_config(),
    {
        self.input_config
    }

    pub fn get_output_config(&self) -> (config: NegotiatedStreamConfig)
        ensures
            config == self.spec_output_config(),
    {
        self.output_config
    }
}

} // verus!
