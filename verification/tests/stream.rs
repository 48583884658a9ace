use p2p_audio::audio::{AudioConfig, AudioInterface};
use p2p_audio::negotiation::{BufferSizeRange, ConfigRange, DeviceInfo};
use p2p_audio::stream::{CaptureCallback, ChannelRange, PlaybackCallback, StreamCallback};
use p2p_audio::ringbuffer::{create, SILENCE};
use p2p_audio::udp::client::UdpClient;
use p2p_audio::udp::packet::Packet;
use p2p_audio::util::Mode;
use ringbuf::{Consumer, Producer, RingBuffer};

fn empty_queue(capacity: usize) -> (Producer<u32>, Consumer<u32>) {
    RingBuffer::<u32>::new(capacity).split()
}

fn drain(consumer: &mut Consumer<u32>) -> Vec<u32> {
    let mut all = Vec::new();
    while let Some(sample) = consumer.pop() {
        all.push(sample);
    }
    all
}

fn known_samples(count: usize) -> Vec<u32> {
    (0..count).map(|i| (0.25f32 + i as f32).to_bits()).collect()
}

fn device(name: &str, channels: u16) -> DeviceInfo {
    let range = ConfigRange {
        channels,
        min_sample_rate: 44100,
        max_sample_rate: 48000,
        buffer_size: BufferSizeRange::Range { min: 64, max: 256 },
    };
    DeviceInfo { name: name.to_string(), input_configs: vec![range], output_configs: vec![range] }
}

fn interface(channels: u16, stereo: bool, input_channel: u32, output_channel: u32) -> AudioInterface {
    let config = AudioConfig::new(
        "host".to_string(),
        "card".to_string(),
        "card".to_string(),
        44100,
        128,
        stereo,
        input_channel,
        output_channel,
    );
    AudioInterface::new(config, &vec![device("card", channels)]).ok().unwrap()
}

fn capture(callback: StreamCallback) -> CaptureCallback {
    match callback {
        StreamCallback::Capture(capture) => capture,
        StreamCallback::Playback(_) => panic!("a sending stream captures"),
    }
}

fn playback(callback: StreamCallback) -> PlaybackCallback {
    match callback {
        StreamCallback::Playback(playback) => playback,
        StreamCallback::Capture(_) => panic!("a returning stream plays"),
    }
}

#[test]
fn silence_is_the_zero_sample() {
    assert_eq!(SILENCE, 0.0f32.to_bits());
    assert_eq!(f32::from_bits(SILENCE), 0.0);
}

#[test]
fn the_queues_start_out_full_of_silence() {
    let (mut input_producer, mut input_consumer, mut output_producer, mut output_consumer) =
        create(128);
    assert_eq!(input_producer.capacity(), 512);
    assert_eq!(output_producer.capacity(), 512);
    assert_eq!(input_consumer.len(), 512);
    assert_eq!(output_consumer.len(), 512);
    assert!(input_producer.is_full());
    assert_eq!(input_producer.push(1), Err(1));
    assert_eq!(output_producer.push(1), Err(1));
    assert_eq!(drain(&mut input_consumer), vec![SILENCE; 512]);
    assert_eq!(drain(&mut output_consumer), vec![SILENCE; 512]);
}

#[test]
fn the_two_queues_are_apart() {
    let (mut input_producer, mut input_consumer, _output_producer, mut output_consumer) = create(1);
    assert_eq!(input_consumer.pop(), Some(SILENCE));
    assert_eq!(input_producer.push(7), Ok(()));
    assert_eq!(drain(&mut input_consumer), vec![0, 0, 0, 7]);
    assert_eq!(drain(&mut output_consumer), vec![0, 0, 0, 0]);
}

#[test]
fn queues_of_no_capacity() {
    let (mut input_producer, mut input_consumer, _, _) = create(0);
    assert_eq!(input_producer.capacity(), 0);
    assert_eq!(input_consumer.pop(), None);
    assert_eq!(input_producer.push(1), Err(1));
}

#[test]
fn a_queue_gives_back_what_it_was_given_in_order() {
    let (producer, mut consumer) = empty_queue(8);
    let range = ChannelRange { start: 0, end: 1, channels: 1 };
    let mut input = CaptureCallback::new(range, producer);
    assert_eq!(input.process(&[1, 2, 3]), 0);
    assert_eq!(consumer.pop(), Some(1));
    assert_eq!(input.process(&[4, 5]), 0);
    assert_eq!(consumer.pop(), Some(2));
    assert_eq!(consumer.pop(), Some(3));
    assert_eq!(input.process(&[6, 7, 8, 9, 10, 11]), 0);
    assert_eq!(drain(&mut consumer), vec![4, 5, 6, 7, 8, 9, 10, 11]);
    assert_eq!(consumer.pop(), None);
}

#[test]
fn a_full_queue_refuses_and_an_emptied_one_accepts_again() {
    let (producer, mut consumer) = empty_queue(4);
    let range = ChannelRange { start: 0, end: 1, channels: 1 };
    let mut input = CaptureCallback::new(range, producer);
    assert_eq!(input.process(&[1, 2, 3, 4]), 0);
    assert_eq!(input.process(&[5]), 1);
    assert_eq!(input.process(&[6, 7]), 2);
    assert_eq!(consumer.pop(), Some(1));
    assert_eq!(input.process(&[8, 9]), 1);
    assert_eq!(drain(&mut consumer), vec![2, 3, 4, 8]);
}

#[test]
fn capture_end_to_end() {
    let interface = interface(1, false, 0, 0);
    let (input_producer, mut input_consumer, _output_producer, output_consumer) = create(128);
    assert_eq!(drain(&mut input_consumer), vec![SILENCE; 512]);
    let mut stream = capture(interface.build_streams(&Mode::Send, input_producer, output_consumer));
    let samples = known_samples(512);
    assert!(samples.iter().all(|s| *s != SILENCE));
    for block in samples.chunks(128) {
        assert_eq!(stream.process(block), 0);
    }
    assert_eq!(drain(&mut input_consumer), samples);
}

#[test]
fn capture_is_confined_to_the_configured_channel() {
    let interface = interface(2, false, 1, 0);
    let (input_producer, mut input_consumer, _output_producer, output_consumer) = create(128);
    drain(&mut input_consumer);
    let mut stream = capture(interface.build_streams(&Mode::Send, input_producer, output_consumer));
    let samples = known_samples(1024);
    for block in samples.chunks(256) {
        assert_eq!(stream.process(block), 0);
    }
    let expected: Vec<u32> = samples.iter().skip(1).step_by(2).copied().collect();
    assert_eq!(expected.len(), 512);
    assert_eq!(drain(&mut input_consumer), expected);
}

#[test]
fn capture_of_two_channels_out_of_four() {
    let interface = interface(4, true, 1, 0);
    let (input_producer, mut input_consumer, _output_producer, output_consumer) = create(128);
    drain(&mut input_consumer);
    let mut stream = capture(interface.build_streams(&Mode::Send, input_producer, output_consumer));
    let block: Vec<u32> = (100..116).collect();
    assert_eq!(stream.process(&block), 0);
    assert_eq!(drain(&mut input_consumer), vec![101, 102, 105, 106, 109, 110, 113, 114]);
}

#[test]
fn capture_starts_every_block_at_the_first_channel() {
    let (producer, mut consumer) = empty_queue(16);
    let range = ChannelRange { start: 0, end: 1, channels: 2 };
    let mut stream = CaptureCallback::new(range, producer);
    assert_eq!(stream.process(&[1, 2, 3]), 0);
    assert_eq!(stream.process(&[4, 5, 6]), 0);
    assert_eq!(drain(&mut consumer), vec![1, 3, 4, 6]);
}

#[test]
fn capture_drops_what_the_queue_has_no_room_for() {
    let interface = interface(1, false, 0, 0);
    let (input_producer, mut input_consumer, _output_producer, output_consumer) = create(128);
    let mut stream = capture(interface.build_streams(&Mode::Send, input_producer, output_consumer));
    // the queue is still full of silence
    assert_eq!(stream.process(&known_samples(128)), 128);
    assert_eq!(input_consumer.pop(), Some(SILENCE));
    assert_eq!(input_consumer.pop(), Some(SILENCE));
    assert_eq!(stream.process(&[11, 12, 13]), 1);
    let rest = drain(&mut input_consumer);
    assert_eq!(rest.len(), 512);
    assert_eq!(&rest[..510], &vec![SILENCE; 510][..]);
    assert_eq!(&rest[510..], &[11, 12]);
}

#[test]
fn capture_with_an_empty_range_or_block() {
    let (producer, mut consumer) = empty_queue(4);
    let mut stream = CaptureCallback::new(ChannelRange { start: 1, end: 1, channels: 2 }, producer);
    assert_eq!(stream.process(&[1, 2, 3, 4]), 0);
    assert_eq!(stream.process(&[]), 0);
    assert_eq!(consumer.pop(), None);
}

#[test]
fn capture_on_a_device_that_reports_no_channels() {
    let (producer, mut consumer) = empty_queue(4);
    let mut stream = CaptureCallback::new(ChannelRange { start: 0, end: 1, channels: 0 }, producer);
    assert_eq!(stream.process(&[1, 2, 3]), 0);
    assert_eq!(drain(&mut consumer), vec![1, 2, 3]);
}

#[test]
fn playback_fills_its_channels_and_silences_the_others() {
    let interface = interface(2, false, 0, 1);
    let (input_producer, _input_consumer, mut output_producer, mut output_consumer) = create(128);
    drain(&mut output_consumer);
    assert_eq!(output_producer.push_slice(&[21, 22, 23, 24]), 4);
    let mut stream =
        playback(interface.build_streams(&Mode::Return, input_producer, output_consumer));
    let mut block = vec![99u32; 8];
    assert_eq!(stream.process(&mut block), 0);
    assert_eq!(block, vec![0, 21, 0, 22, 0, 23, 0, 24]);
}

#[test]
fn playback_substitutes_silence_when_the_queue_runs_dry() {
    let (mut producer, consumer) = empty_queue(8);
    let mut stream = PlaybackCallback::new(ChannelRange { start: 0, end: 2, channels: 2 }, consumer);
    assert_eq!(producer.push_slice(&[5, 6, 7]), 3);
    let mut block = vec![99u32; 6];
    assert_eq!(stream.process(&mut block), 3);
    assert_eq!(block, vec![5, 6, 7, 0, 0, 0]);
    let mut block = vec![99u32; 2];
    assert_eq!(stream.process(&mut block), 2);
    assert_eq!(block, vec![0, 0]);
    assert_eq!(producer.push_slice(&[8]), 1);
    let mut block = vec![99u32; 2];
    assert_eq!(stream.process(&mut block), 1);
    assert_eq!(block, vec![8, 0]);
}

#[test]
fn playback_plays_the_initial_silence_first() {
    let interface = interface(1, false, 0, 0);
    let (input_producer, _input_consumer, _output_producer, output_consumer) = create(128);
    let mut stream =
        playback(interface.build_streams(&Mode::Return, input_producer, output_consumer));
    let mut block = vec![99u32; 512];
    assert_eq!(stream.process(&mut block), 0);
    assert_eq!(block, vec![SILENCE; 512]);
    let mut block = vec![99u32; 4];
    assert_eq!(stream.process(&mut block), 4);
    assert_eq!(block, vec![SILENCE; 4]);
}

#[test]
fn the_mode_decides_the_side_of_the_stream() {
    let interface = interface(2, true, 0, 0);
    let (input_producer, _ic, _op, output_consumer) = create(4);
    assert!(matches!(
        interface.build_streams(&Mode::Send, input_producer, output_consumer),
        StreamCallback::Capture(_)
    ));
    let (input_producer, _ic, _op, output_consumer) = create(4);
    assert!(matches!(
        interface.build_streams(&Mode::Return, input_producer, output_consumer),
        StreamCallback::Playback(_)
    ));
}

fn session() -> AudioConfig {
    AudioConfig::new("host".to_string(), "card".to_string(), "card".to_string(), 44100, 4, false, 0, 0)
}

#[test]
fn the_send_loop_waits_for_a_whole_frame() {
    let (mut producer, mut consumer) = empty_queue(16);
    let mut client = UdpClient::new(0, session());
    assert!(client.send_frame(&mut consumer).is_none());
    assert_eq!(producer.push_slice(&[1, 2, 3]), 3);
    assert!(client.send_frame(&mut consumer).is_none());
    assert_eq!(consumer.len(), 3);
    assert_eq!(producer.push_slice(&[4, 5]), 2);
    let burst = client.send_frame(&mut consumer).unwrap();
    assert_eq!(consumer.len(), 1);
    let packet = Packet::from_buffer(&burst).unwrap();
    assert_eq!(packet.sequence_number, 1);
    assert_eq!(packet.audio_samples, vec![1, 2, 3, 4]);
    assert!(client.send_frame(&mut consumer).is_none());
    assert_eq!(drain(&mut consumer), vec![5]);
}

#[test]
fn the_send_loop_goes_by_what_the_queue_was_seen_to_hold() {
    let (mut producer, mut consumer) = empty_queue(16);
    assert_eq!(producer.push_slice(&[1, 2, 3, 4, 5]), 5);
    let mut client = UdpClient::new(0, session());
    assert!(client.send_frame_if_held(0, &mut consumer).is_none());
    assert!(client.send_frame_if_held(3, &mut consumer).is_none());
    assert_eq!(consumer.len(), 5);
    let burst = client.send_frame_if_held(4, &mut consumer).unwrap();
    let packet = Packet::from_buffer(&burst).unwrap();
    assert_eq!(packet.sequence_number, 1);
    assert_eq!(packet.audio_samples, vec![1, 2, 3, 4]);
    // the queue gives less than it was said to hold: silence fills the frame
    let burst = client.send_frame_if_held(9, &mut consumer).unwrap();
    assert_eq!(burst.len(), 2 * (17 + 16));
    let packet = Packet::from_buffer(&burst).unwrap();
    assert_eq!(packet.sequence_number, 2);
    assert_eq!(packet.audio_samples, vec![5, SILENCE, SILENCE, SILENCE]);
    assert_eq!(consumer.len(), 0);
}

#[test]
fn frames_without_samples_are_always_whole() {
    let config = AudioConfig::new(
        "host".to_string(),
        "card".to_string(),
        "card".to_string(),
        44100,
        0,
        true,
        0,
        0,
    );
    let (mut producer, mut consumer) = empty_queue(4);
    let mut client = UdpClient::new(65535, config);
    let burst = client.send_frame(&mut consumer).unwrap();
    assert_eq!(burst.len(), 17);
    let packet = Packet::from_buffer(&burst).unwrap();
    assert_eq!(packet.sequence_number, 0);
    assert_eq!(packet.buffer_size, 0);
    assert_eq!(packet.channel_count, 2);
    assert!(packet.audio_samples.is_empty());
    assert_eq!(producer.push_slice(&[1, 2]), 2);
    let burst = client.send_frame(&mut consumer).unwrap();
    assert_eq!(burst.len(), 2 * 17);
    assert_eq!(drain(&mut consumer), vec![1, 2]);
}

#[test]
fn the_send_loop_sends_the_initial_silence_first() {
    let (_input_producer, mut input_consumer, _op, _oc) = create(4);
    let mut client = UdpClient::new(2000, session());
    for n in 1..=4u16 {
        let burst = client.send_frame(&mut input_consumer).unwrap();
        let packet = Packet::from_buffer(&burst).unwrap();
        assert_eq!(packet.sequence_number, 2000 + n);
        assert_eq!(packet.audio_samples, vec![SILENCE; 4]);
    }
    assert!(client.send_frame(&mut input_consumer).is_none());
}

#[test]
fn the_receive_loop_places_the_delivered_samples_in_order() {
    let mut sender = UdpClient::new(65534, session());
    sender.send(&[0, 0, 0, 0]);
    sender.send(&[0, 0, 0, 0]);
    let one = sender.send(&[1, 2, 3, 4]);
    let _two = sender.send(&[5, 6, 7, 8]);
    let three = sender.send(&[9, 10, 11, 12]);
    let (mut producer, mut consumer) = empty_queue(16);
    let mut receiver = UdpClient::new(0, session());
    assert_eq!(receiver.deliver(&one, &mut producer), 4);
    assert_eq!(receiver.deliver(&three, &mut producer), 8);
    assert_eq!(receiver.deliver(&three, &mut producer), 0);
    assert_eq!(receiver.deliver(&three[1..], &mut producer), 0);
    assert_eq!(drain(&mut consumer), (1..=12).collect::<Vec<u32>>());
}

#[test]
fn the_receive_loop_drops_what_the_queue_has_no_room_for() {
    let mut sender = UdpClient::new(65534, session());
    sender.send(&[0, 0, 0, 0]);
    sender.send(&[0, 0, 0, 0]);
    let one = sender.send(&[1, 2, 3, 4]);
    let (mut producer, mut consumer) = empty_queue(3);
    let mut receiver = UdpClient::new(0, session());
    assert_eq!(receiver.deliver(&one, &mut producer), 3);
    assert_eq!(drain(&mut consumer), vec![1, 2, 3]);
}

#[test]
fn from_capture_to_playback() {
    let interface = interface(1, false, 0, 0);
    let config = || {
        AudioConfig::new(
            "host".to_string(),
            "card".to_string(),
            "card".to_string(),
            44100,
            128,
            false,
            0,
            0,
        )
    };
    let (input_producer, mut input_consumer, _, unused_consumer) = create(128);
    let (unused_producer, _, mut output_producer, mut output_consumer) = create(128);
    drain(&mut input_consumer);
    drain(&mut output_consumer);
    let mut microphone =
        capture(interface.build_streams(&Mode::Send, input_producer, unused_consumer));
    let mut speaker =
        playback(interface.build_streams(&Mode::Return, unused_producer, output_consumer));
    let mut sender = UdpClient::new(65534, config());
    sender.send(&vec![SILENCE; 128]);
    sender.send(&vec![SILENCE; 128]);
    let mut receiver = UdpClient::new(0, config());
    let samples = known_samples(384);
    let mut heard: Vec<f32> = Vec::new();
    for (turn, block) in samples.chunks(128).enumerate() {
        assert_eq!(microphone.process(block), 0);
        let burst = sender.send_frame(&mut input_consumer).unwrap();
        if turn == 1 {
            continue; // this datagram is lost
        }
        receiver.deliver(&burst, &mut output_producer);
        let mut out = vec![SILENCE; if turn == 0 { 128 } else { 256 }];
        assert_eq!(speaker.process(&mut out), 0);
        heard.extend(out.iter().map(|s| f32::from_bits(*s)));
    }
    let expected: Vec<f32> = samples.iter().map(|s| f32::from_bits(*s)).collect();
    assert_eq!(heard, expected);
}
