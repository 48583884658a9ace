use p2p_audio::audio::AudioConfig;
use p2p_audio::udp::client::UdpClient;
use p2p_audio::udp::recovery::{recover, REDUNDANCY};
use p2p_audio::udp::sequence::{next_sequence, pending, sequence_delta};
use p2p_audio::udp::packet::{MessageType, Packet};

fn mono(buffer_size: u32) -> AudioConfig {
    AudioConfig::new(
        "host".to_string(),
        "in".to_string(),
        "out".to_string(),
        44100,
        buffer_size,
        false,
        0,
        0,
    )
}

fn stereo(buffer_size: u32) -> AudioConfig {
    AudioConfig::new(
        "host".to_string(),
        "in".to_string(),
        "out".to_string(),
        48000,
        buffer_size,
        true,
        0,
        0,
    )
}

/// The frame that goes out under the given sequence number in these tests.
fn frame(sequence_number: u16, size: usize) -> Vec<u32> {
    (0..size).map(|i| (sequence_number as f32 + i as f32 / 1024.0).to_bits()).collect()
}

/// A sender that has sent two frames already, so that its bursts are whole,
/// and whose next frame goes out under the sequence number 1.
fn warm_sender(config: AudioConfig) -> UdpClient {
    let size = config.get_frame_size();
    let mut sender = UdpClient::new(65534, config);
    sender.send(&frame(65535, size));
    sender.send(&frame(0, size));
    sender
}

fn numbers(packets: &[Packet]) -> Vec<u16> {
    packets.iter().map(|p| p.sequence_number).collect()
}

fn packet(sequence_number: u16) -> Packet {
    Packet::new(MessageType::Audio, sequence_number, 0, 3, 44100, 1, 1, vec![sequence_number as u32])
}

#[test]
fn redundancy_depth_is_three() {
    assert_eq!(REDUNDANCY, 3);
}

#[test]
fn sequence_numbers_wrap() {
    assert_eq!(next_sequence(0), 1);
    assert_eq!(next_sequence(65534), 65535);
    assert_eq!(next_sequence(65535), 0);
}

#[test]
fn wraparound_is_strictly_increasing() {
    let numbers = [65534u16, 65535, 0, 1];
    for pair in numbers.windows(2) {
        assert_eq!(sequence_delta(pair[0], pair[1]), 1);
        assert_eq!(sequence_delta(pair[1], pair[0]), -1);
        assert_eq!(next_sequence(pair[0]), pair[1]);
    }
    assert_eq!(sequence_delta(65534, 1), 3);
    assert_eq!(sequence_delta(1, 65534), -3);
}

#[test]
fn sequence_delta_is_a_signed_sixteen_bit_difference() {
    assert_eq!(sequence_delta(5, 5), 0);
    assert_eq!(sequence_delta(0, 32767), 32767);
    assert_eq!(sequence_delta(0, 32768), -32768);
    assert_eq!(sequence_delta(0, 65535), -1);
    assert_eq!(sequence_delta(100, 40), -60);
    assert_eq!(sequence_delta(40, 100), 60);
    for from in [0u16, 1, 1000, 32767, 32768, 65535] {
        for to in [0u16, 2, 999, 32766, 40000, 65535] {
            assert_eq!(sequence_delta(from, to), to.wrapping_sub(from) as i16);
        }
    }
}

#[test]
fn successor_is_one_step_newer_everywhere() {
    for s in 0..=u16::MAX {
        assert_eq!(sequence_delta(s, next_sequence(s)), 1);
    }
}

#[test]
fn pending_counts_what_was_missed() {
    assert_eq!(pending(None, 7, 3), 1);
    assert_eq!(pending(Some(6), 7, 3), 1);
    assert_eq!(pending(Some(5), 7, 3), 2);
    assert_eq!(pending(Some(4), 7, 3), 3);
    assert_eq!(pending(Some(3), 7, 3), 3);
    assert_eq!(pending(Some(7), 7, 3), 0);
    assert_eq!(pending(Some(8), 7, 3), 0);
    assert_eq!(pending(Some(65535), 1, 3), 2);
    assert_eq!(pending(Some(5), 7, 1), 1);
    assert_eq!(pending(Some(5), 7, 0), 0);
    assert_eq!(pending(None, 7, 0), 0);
}

#[test]
fn recover_returns_the_missed_packets_oldest_first() {
    let (delivered, last) = recover(7, Some(5), vec![packet(7), packet(6), packet(5)]);
    assert_eq!(numbers(&delivered), vec![6, 7]);
    assert_eq!(last, Some(7));
}

#[test]
fn recover_without_a_gap_returns_the_newest_only() {
    let (delivered, last) = recover(7, Some(6), vec![packet(7), packet(6), packet(5)]);
    assert_eq!(numbers(&delivered), vec![7]);
    assert_eq!(last, Some(7));
}

#[test]
fn recover_at_the_start_returns_the_newest_only() {
    let (delivered, last) = recover(7, None, vec![packet(7), packet(6), packet(5)]);
    assert_eq!(numbers(&delivered), vec![7]);
    assert_eq!(last, Some(7));
}

#[test]
fn recover_beyond_the_window_returns_the_whole_burst() {
    let (delivered, last) = recover(9, Some(2), vec![packet(9), packet(8), packet(7)]);
    assert_eq!(numbers(&delivered), vec![7, 8, 9]);
    assert_eq!(last, Some(9));
}

#[test]
fn recover_ignores_what_is_not_newer() {
    let (delivered, last) = recover(7, Some(7), vec![packet(7), packet(6), packet(5)]);
    assert!(delivered.is_empty());
    assert_eq!(last, Some(7));
    let (delivered, last) = recover(6, Some(7), vec![packet(6), packet(5), packet(4)]);
    assert!(delivered.is_empty());
    assert_eq!(last, Some(7));
}

#[test]
fn recover_of_an_empty_burst() {
    let (delivered, last) = recover(7, Some(5), Vec::new());
    assert!(delivered.is_empty());
    assert_eq!(last, Some(5));
    let (delivered, last) = recover(7, None, Vec::new());
    assert!(delivered.is_empty());
    assert_eq!(last, None);
}

#[test]
fn recover_across_the_wrap() {
    let (delivered, last) = recover(1, Some(65534), vec![packet(1), packet(0), packet(65535)]);
    assert_eq!(numbers(&delivered), vec![65535, 0, 1]);
    assert_eq!(last, Some(1));
}

#[test]
fn supports_frames_that_thirty_two_bits_count() {
    assert!(UdpClient::supports(&mono(128)));
    assert!(UdpClient::supports(&stereo(128)));
    assert!(UdpClient::supports(&mono(0)));
    assert_eq!(
        UdpClient::supports(&stereo(u32::MAX)),
        false,
        "a stereo frame of this size has more samples than 32 bits count"
    );
}

#[test]
fn packet_sizes() {
    let client = UdpClient::new(0, mono(128));
    assert_eq!(client.get_packet_size(), 17 + 128 * 4);
    assert_eq!(client.get_redundant_packet_size(), 3 * (17 + 128 * 4));
    let client = UdpClient::new(0, stereo(64));
    assert_eq!(client.get_packet_size(), 17 + 64 * 2 * 4);
    assert_eq!(client.get_redundant_packet_size(), 3 * (17 + 64 * 2 * 4));
}

#[test]
fn send_frames_the_samples_as_the_next_packet() {
    let mut sender = UdpClient::new(2000, stereo(2));
    let samples = vec![1.0f32.to_bits(), 2.0f32.to_bits(), 3.0f32.to_bits(), 4.0f32.to_bits()];
    let burst = sender.send(&samples);
    assert_eq!(burst.len(), 17 + 16);
    let packet = Packet::from_buffer(&burst).unwrap();
    assert_eq!(packet.message_type, MessageType::Audio);
    assert_eq!(packet.sequence_number, 2001);
    assert_eq!(packet.timestamp, 0);
    assert_eq!(packet.redundancy, 3);
    assert_eq!(packet.sample_rate, 48000);
    assert_eq!(packet.channel_count, 2);
    assert_eq!(packet.buffer_size, 2);
    assert_eq!(packet.audio_samples, samples);
}

#[test]
fn bursts_grow_to_three_packets_newest_first() {
    let config = mono(4);
    let size = 17 + 4 * 4;
    let mut sender = UdpClient::new(10, config);
    let first = sender.send(&frame(11, 4));
    assert_eq!(first.len(), size);
    let second = sender.send(&frame(12, 4));
    assert_eq!(second.len(), 2 * size);
    let third = sender.send(&frame(13, 4));
    assert_eq!(third.len(), 3 * size);
    let fourth = sender.send(&frame(14, 4));
    assert_eq!(fourth.len(), 3 * size);
    let embedded: Vec<Packet> =
        (0..3).map(|i| Packet::from_buffer(&fourth[i * size..(i + 1) * size]).unwrap()).collect();
    assert_eq!(numbers(&embedded), vec![14, 13, 12]);
    for p in &embedded {
        assert_eq!(p.audio_samples, frame(p.sequence_number, 4));
    }
    assert_eq!(&fourth[size..], &third[..2 * size]);
}

#[test]
fn send_wraps_the_sequence_number() {
    let mut sender = UdpClient::new(65534, mono(1));
    let a = sender.send(&[1]);
    let b = sender.send(&[2]);
    let c = sender.send(&[3]);
    assert_eq!(Packet::from_buffer(&a).unwrap().sequence_number, 65535);
    assert_eq!(Packet::from_buffer(&b).unwrap().sequence_number, 0);
    assert_eq!(Packet::from_buffer(&c).unwrap().sequence_number, 1);
}

#[test]
fn redundancy_recovers_one_lost_datagram() {
    let config = mono(8);
    let mut sender = warm_sender(mono(8));
    let mut receiver = UdpClient::new(0, config);
    let bursts: Vec<Vec<u8>> = (1..=4u16).map(|n| sender.send(&frame(n, 8))).collect();
    let mut delivered: Vec<Packet> = Vec::new();
    let first = receiver.recv(&bursts[0]);
    assert_eq!(numbers(&first), vec![1]);
    delivered.extend(first);
    // the second datagram is lost
    let third = receiver.recv(&bursts[2]);
    assert_eq!(numbers(&third), vec![2, 3]);
    delivered.extend(third);
    let fourth = receiver.recv(&bursts[3]);
    assert_eq!(numbers(&fourth), vec![4]);
    delivered.extend(fourth);
    assert_eq!(numbers(&delivered), vec![1, 2, 3, 4]);
    for p in &delivered {
        assert_eq!(p.audio_samples, frame(p.sequence_number, 8));
    }
}

#[test]
fn two_lost_datagrams_are_still_within_the_window() {
    let mut sender = warm_sender(mono(8));
    let mut receiver = UdpClient::new(0, mono(8));
    let bursts: Vec<Vec<u8>> = (1..=4u16).map(|n| sender.send(&frame(n, 8))).collect();
    let mut delivered = receiver.recv(&bursts[0]);
    // the second and the third datagram are lost; the fourth still holds
    // their packets
    delivered.extend(receiver.recv(&bursts[3]));
    assert_eq!(numbers(&delivered), vec![1, 2, 3, 4]);
    for p in &delivered {
        assert_eq!(p.audio_samples, frame(p.sequence_number, 8));
    }
}

#[test]
fn loss_beyond_the_window_leaves_a_gap_and_keeps_the_order() {
    let mut sender = warm_sender(mono(8));
    let mut receiver = UdpClient::new(0, mono(8));
    let bursts: Vec<Vec<u8>> = (1..=6u16).map(|n| sender.send(&frame(n, 8))).collect();
    let mut delivered = receiver.recv(&bursts[0]);
    // the datagrams 2, 3 and 4 are lost: packet 2 has left the window
    delivered.extend(receiver.recv(&bursts[4]));
    delivered.extend(receiver.recv(&bursts[5]));
    assert_eq!(numbers(&delivered), vec![1, 3, 4, 5, 6]);
    for pair in delivered.windows(2) {
        assert!(sequence_delta(pair[0].sequence_number, pair[1].sequence_number) > 0);
    }
}

#[test]
fn recovery_across_the_wrap() {
    let config = mono(2);
    let mut sender = UdpClient::new(65530, mono(2));
    let mut receiver = UdpClient::new(0, config);
    let bursts: Vec<Vec<u8>> = (0..8).map(|_| sender.send(&[7, 8])).collect();
    // bursts carry 65531, 65532, 65533, 65534, 65535, 0, 1, 2
    let mut delivered = receiver.recv(&bursts[3]);
    delivered.extend(receiver.recv(&bursts[5]));
    delivered.extend(receiver.recv(&bursts[7]));
    assert_eq!(numbers(&delivered), vec![65534, 65535, 0, 1, 2]);
}

#[test]
fn nothing_is_delivered_twice() {
    let mut sender = warm_sender(mono(8));
    let mut receiver = UdpClient::new(0, mono(8));
    let one = sender.send(&frame(1, 8));
    let two = sender.send(&frame(2, 8));
    assert_eq!(numbers(&receiver.recv(&two)), vec![2]);
    assert!(receiver.recv(&two).is_empty());
    assert!(receiver.recv(&one).is_empty());
    let three = sender.send(&frame(3, 8));
    assert_eq!(numbers(&receiver.recv(&three)), vec![3]);
}

#[test]
fn the_first_datagram_delivers_its_newest_packet_only() {
    let mut sender = warm_sender(stereo(4));
    let mut receiver = UdpClient::new(0, stereo(4));
    let burst = sender.send(&frame(1, 8));
    let delivered = receiver.recv(&burst);
    assert_eq!(numbers(&delivered), vec![1]);
    assert_eq!(delivered[0].audio_samples, frame(1, 8));
    assert_eq!(delivered[0].channel_count, 2);
    assert_eq!(delivered[0].buffer_size, 4);
}

#[test]
fn a_datagram_of_the_wrong_length_is_discarded() {
    let mut sender = UdpClient::new(0, mono(8));
    let mut receiver = UdpClient::new(0, mono(8));
    let short = sender.send(&frame(1, 8));
    assert_eq!(short.len(), 17 + 32);
    assert!(receiver.recv(&short).is_empty());
    assert!(receiver.recv(&[]).is_empty());
    let two = sender.send(&frame(2, 8));
    assert!(receiver.recv(&two).is_empty());
    let whole = sender.send(&frame(3, 8));
    let mut long = whole.clone();
    long.push(0);
    assert!(receiver.recv(&long).is_empty());
    assert!(receiver.recv(&whole[..whole.len() - 1]).is_empty());
    // none of them has moved the receiver: the whole burst counts as its first
    assert_eq!(numbers(&receiver.recv(&whole)), vec![3]);
}

#[test]
fn a_datagram_with_an_unknown_message_type_is_discarded() {
    let mut sender = warm_sender(mono(8));
    let mut receiver = UdpClient::new(0, mono(8));
    let size = 17 + 32;
    let one = sender.send(&frame(1, 8));
    assert_eq!(numbers(&receiver.recv(&one)), vec![1]);
    let three = {
        sender.send(&frame(2, 8));
        sender.send(&frame(3, 8))
    };
    let mut bad_newest = three.clone();
    bad_newest[0] = 9;
    assert!(receiver.recv(&bad_newest).is_empty());
    let mut bad_needed = three.clone();
    bad_needed[size] = 9;
    assert!(receiver.recv(&bad_needed).is_empty());
    // a packet that is not needed is not looked at
    let mut bad_unneeded = three.clone();
    bad_unneeded[2 * size] = 9;
    assert_eq!(numbers(&receiver.recv(&bad_unneeded)), vec![2, 3]);
}

#[test]
fn a_datagram_of_another_frame_size_is_discarded() {
    let mut sender = warm_sender(mono(6));
    let mut receiver = UdpClient::new(0, mono(8));
    let burst = sender.send(&frame(1, 6));
    assert!(receiver.recv(&burst).is_empty());
    // three packets of two samples in the length of one burst of this session
    let mut forged = Vec::new();
    for n in [3u16, 2, 1] {
        let mut bytes =
            Packet::new(MessageType::Audio, n, 0, 3, 44100, 1, 2, vec![1, 2]).to_buffer();
        bytes.resize(17 + 32, 0);
        forged.extend(bytes);
    }
    assert_eq!(forged.len(), 3 * (17 + 32));
    assert!(receiver.recv(&forged).is_empty());
}

#[test]
fn a_client_sends_and_receives_independently() {
    let mut a = warm_sender(mono(2));
    let mut b = warm_sender(mono(2));
    let from_a = a.send(&[1, 2]);
    let from_b = b.send(&[3, 4]);
    let at_b = b.recv(&from_a);
    let at_a = a.recv(&from_b);
    assert_eq!(at_b[0].audio_samples, vec![1, 2]);
    assert_eq!(at_a[0].audio_samples, vec![3, 4]);
    let next = a.send(&[5, 6]);
    assert_eq!(Packet::from_buffer(&next).unwrap().sequence_number, 2);
}

#[test]
fn frame_ready_compares_with_the_frame_size() {
    let client = UdpClient::new(0, stereo(64));
    assert!(!client.frame_ready(0));
    assert!(!client.frame_ready(127));
    assert!(client.frame_ready(128));
    assert!(client.frame_ready(129));
}
