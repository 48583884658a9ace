//! The redundant transport client: every outbound frame travels in three
//! consecutive bursts, and the receiver rebuilds what it missed from the
//! older packets that each burst still carries.

use vstd::prelude::*;
use std::collections::VecDeque;
use vstd::slice::{slice_subrange, slice_to_vec};
use ringbuf::{Consumer, Producer};
use crate::ringbuffer::{available, pop_slice, push_slice};
use crate::ringbuffer::{consumer_taken, producer_accepted, producer_capacity, spec_silence, SILENCE};
use crate::audio::AudioConfig;
use crate::udp::packet::{MessageType, Packet, PacketView, HEADER_SIZE};
use crate::udp::recovery::{recover, REDUNDANCY};
use crate::udp::recovery::{spec_burst, spec_embedded_packet, spec_fits, spec_packet_size};
use crate::udp::recovery::{spec_readable, spec_receive, spec_samples, spec_views};
use crate::udp::recovery::{lemma_burst_layout, lemma_receive_burst, lemma_recovered_in_order};
use crate::udp::packet::lemma_decode_encode;
use crate::udp::sequence::{next_sequence, pending};
use crate::udp::sequence::{spec_earlier_sequence, spec_next_sequence, spec_pending, spec_sequence_delta};

verus! {

/// Where the datagram socket binds and connects.
pub struct UdpClientConfig {
    pub remote: String,
    pub port: String,
}

impl UdpClientConfig {
    pub fn new(port: &str, remote: &str) -> (config: Self)
        ensures
            config.port@ == port@,
            config.remote@ == remote@,
    {
        Self { port: port.to_owned(), remote: remote.to_owned() }
    }
}

/// The state of a [`UdpClient`].
pub struct UdpClientView {
    /// The sequence number of the packet sent last.
    pub send_sequence_number: u16,
    /// The sequence number of the packet delivered last, once there is one.
    pub last_delivered: Option<u16>,
    /// How many packets a whole burst carries.
    pub redundancy: u16,
    /// The packets sent most recently, newest first.
    pub queue: Seq<PacketView>,
    pub config: AudioConfig,
}

impl UdpClientView {
    /// The packet that the next frame goes out in.
    pub open spec fn outbound(self, samples: Seq<u32>) -> PacketView {
        PacketView {
            message_type: MessageType::Audio,
            sequence_number: spec_next_sequence(self.send_sequence_number),
            timestamp: 0,
            redundancy: REDUNDANCY as u8,
            sample_rate: self.config.sample_rate,
            channel_count: self.config.spec_channel_count(),
            buffer_size: self.config.buffer_size,
            audio_samples: samples,
        }
    }

    /// The state after sending one frame: the new packet stands at the front
    /// of the queue, and the oldest one has left if the queue was full.
    pub open spec fn send(self, samples: Seq<u32>) -> UdpClientView {
        let kept = if self.queue.len() >= REDUNDANCY {
            REDUNDANCY - 1
        } else {
            self.queue.len() as int
        };
        UdpClientView {
            send_sequence_number: spec_next_sequence(self.send_sequence_number),
            last_delivered: self.last_delivered,
            redundancy: self.redundancy,
            queue: seq![self.outbound(samples)] + self.queue.take(kept),
            config: self.config,
        }
    }

    /// The state after one inbound datagram.
    pub open spec fn receive(self, datagram: Seq<u8>) -> UdpClientView {
        UdpClientView {
            send_sequence_number: self.send_sequence_number,
            last_delivered: spec_receive(
                self.last_delivered,
                datagram,
                spec_packet_size(&self.config),
            ).1,
            redundancy: self.redundancy,
            queue: self.queue,
            config: self.config,
        }
    }

    /// The queue holds at most `REDUNDANCY` packets of the configured shape,
    /// numbered backwards from the one sent last.
    pub open spec fn wf(self) -> bool {
        &&& UdpClient::spec_supports(&self.config)
        &&& self.redundancy == REDUNDANCY
        &&& self.queue.len() <= REDUNDANCY
        &&& forall|i: int|
            0 <= i < self.queue.len() ==> {
                &&& spec_fits(#[trigger] self.queue[i], &self.config)
                &&& self.queue[i].sequence_number == spec_earlier_sequence(
                    self.send_sequence_number,
                    i,
                )
            }
    }
}

/// One endpoint of the redundant transport, without its socket: it turns
/// frames into bursts and datagrams into delivered packets.
#[derive(Clone)]
pub struct UdpClient {
    send_sequence_number: u16,
    recv_sequence_number: Option<u16>,
    redundancy: u16,
    send_packet_queue: VecDeque<Packet>,
    audio_config: AudioConfig,
}

impl View for UdpClient {
    type V = UdpClientView;

    closed spec fn view(&self) -> UdpClientView {
        UdpClientView {
            send_sequence_number: self.send_sequence_number,
            last_delivered: self.recv_sequence_number,
            redundancy: self.redundancy,
            queue: spec_views(self.send_packet_queue@),
            config: self.audio_config,
        }
    }
}

impl UdpClient {
    /// Whether one burst of this configuration has a length that the machine
    /// can hold.
    pub open spec fn spec_supports(config: &AudioConfig) -> bool {
        &&& config.spec_frame_size() <= u32::MAX
        &&& REDUNDANCY * spec_packet_size(config) <= usize::MAX
    }

    /// The state is well formed.
    pub open spec fn wf(&self) -> bool {
        self@.wf()
    }

    pub fn supports(config: &AudioConfig) -> (ok: bool)
        ensures
            ok == Self::spec_supports(config),
    {
        let frames: u64 = config.buffer_size as u64;
        let channels: u64 = config.get_channel_count() as u64;
        assert(frames * channels <= 2 * 0xffff_ffff) by (nonlinear_arith)
            requires
                frames <= 0xffff_ffff,
                channels <= 2,
        ;
        let frame: u64 = frames * channels;
        let burst: u64 = REDUNDANCY as u64 * (HEADER_SIZE as u64 + 4 * frame);
        frame <= u32::MAX as u64 && burst <= usize::MAX as u64
    }

    /// A client that has sent `sequence_number` last and delivered nothing
    /// yet.
    pub fn new(sequence_number: u16, audio_config: AudioConfig) -> (client: Self)
        requires
            Self::spec_supports(&audio_config),
        ensures
            client.wf(),
            client@ == (UdpClientView {
                send_sequence_number: sequence_number,
                last_delivered: None,
                redundancy: REDUNDANCY,
                queue: Seq::empty(),
                config: audio_config,
            }),
    {
        let client = Self {
            send_sequence_number: sequence_number,
            recv_sequence_number: None,
            redundancy: REDUNDANCY,
            send_packet_queue: VecDeque::with_capacity(REDUNDANCY as usize),
            audio_config,
        };
        assert(client@.queue =~= Seq::empty());
        client
    }

    /// The length in bytes of one packet of this session.
    pub fn get_packet_size(&self) -> (size: usize)
        requires
            self.wf(),
        ensures
            size == spec_packet_size(&self@.config),
    {
        Packet::get_header_size() + (self.audio_config.get_frame_size() * 4)
    }

    /// The length in bytes of one burst of this session.
    pub fn get_redundant_packet_size(&self) -> (size: usize)
        requires
            self.wf(),
        ensures
            size == REDUNDANCY * spec_packet_size(&self@.config),
    {
        self.get_packet_size() * self.redundancy as usize
    }

    /// Frames one block of samples as the next packet, puts it at the front
    /// of the redundancy queue, and returns the burst to send: every queued
    /// packet, newest first.
    pub fn send(&mut self, samples: &[u32]) -> (burst: Vec<u8>)
        requires
            old(self).wf(),
            samples@.len() == old(self)@.config.spec_frame_size(),
        ensures
            final(self).wf(),
            final(self)@ == old(self)@.send(samples@),
            burst@ == spec_burst(final(self)@.queue),
    {
        let capacity = self.get_redundant_packet_size();
        self.send_sequence_number = next_sequence(self.send_sequence_number);
        let packet = Packet::new(
            MessageType::Audio,
            self.send_sequence_number,
            0,
            REDUNDANCY as u8,
            self.audio_config.sample_rate,
            self.audio_config.get_channel_count(),
            self.audio_config.buffer_size,
            slice_to_vec(samples),
        );
        assert(packet@ == old(self)@.outbound(samples@));
        if self.send_packet_queue.len() == REDUNDANCY as usize {
            self.send_packet_queue.pop_back();
        }
        self.send_packet_queue.push_front(packet);
        assert(self@.queue =~= old(self)@.send(samples@).queue);
        assert(self@.wf()) by {
            assert forall|i: int| 0 <= i < self@.queue.len() implies {
                &&& spec_fits(#[trigger] self@.queue[i], &self@.config)
                &&& self@.queue[i].sequence_number == spec_earlier_sequence(
                    self@.send_sequence_number,
                    i,
                )
            } by {
                if i > 0 {
                    assert(self@.queue[i] == old(self)@.queue[i - 1]);
                }
            }
        }
        let mut burst: Vec<u8> = Vec::with_capacity(capacity);
        let mut i: usize = 0;
        while i < self.send_packet_queue.len()
            invariant
                i <= self.send_packet_queue@.len(),
                burst@ == spec_burst(spec_views(self.send_packet_queue@).take(i as int)),
            decreases self.send_packet_queue@.len() - i,
        {
            let mut bytes = self.send_packet_queue[i].to_buffer();
            proof {
                let views = spec_views(self.send_packet_queue@);
                assert(views.take(i + 1).drop_last() =~= views.take(i as int));
                assert(views.take(i + 1).last() == self.send_packet_queue@[i as int]@);
            }
            burst.append(&mut bytes);
            i += 1;
        }
        assert(spec_views(self.send_packet_queue@).take(i as int) =~= spec_views(
            self.send_packet_queue@,
        ));
        burst
    }

    /// Whether a queue that holds `available` samples holds a whole frame.
    pub fn frame_ready(&self, available: usize) -> (ready: bool)
        requires
            self.wf(),
        ensures
            ready == (available >= self@.config.spec_frame_size()),
    {
        available >= self.audio_config.get_frame_size()
    }

    /// One turn of the send loop. When the capture queue holds a whole frame,
    /// takes one frame out of it and returns the burst to send for it;
    /// otherwise takes nothing and returns `None`. Frames without samples are
    /// always whole.
    /// Should the queue give fewer samples than it was seen to hold, the
    /// frame is filled up with silence.
    pub fn send_frame(&mut self, input_consumer: &mut Consumer<u32>) -> (burst: Option<Vec<u8>>)
        requires
            old(self).wf(),
        ensures
            final(self).wf(),
            old(self)@.config.spec_frame_size() == 0 ==> burst is Some,
            match burst {
                None => {
                    &&& final(self)@ == old(self)@
                    &&& consumer_taken(*final(input_consumer)) == consumer_taken(
                        *old(input_consumer),
                    )
                },
                Some(bytes) => {
                    let before = consumer_taken(*old(input_consumer));
                    let after = consumer_taken(*final(input_consumer));
                    let taken = after.skip(before.len() as int);
                    let frame_size = old(self)@.config.spec_frame_size();
                    &&& after == before + taken
                    &&& taken.len() <= frame_size
                    &&& final(self)@ == old(self)@.send(
                        taken + spec_silence(frame_size - taken.len()),
                    )
                    &&& bytes@ == spec_burst(final(self)@.queue)
                },
            },
    {
        let held = available(input_consumer);
        self.send_frame_if_held(held, input_consumer)
    }

    /// One turn of the send loop, given how many samples the capture queue
    /// was seen to hold. When that is a whole frame, takes one frame out of
    /// the queue and returns the burst to send for it; otherwise takes nothing
    /// and returns `None`.
    ///
    /// Should the queue give fewer samples than it was seen to hold, the
    /// frame is filled up with silence.
    pub fn send_frame_if_held(&mut self, held: usize, input_consumer: &mut Consumer<u32>) -> (burst:
        Option<Vec<u8>>)
        requires
            old(self).wf(),
        ensures
            final(self).wf(),
            burst is Some <==> held >= old(self)@.config.spec_frame_size(),
            match burst {
                None => {
                    &&& final(self)@ == old(self)@
                    &&& consumer_taken(*final(input_consumer)) == consumer_taken(
                        *old(input_consumer),
                    )
                },
                Some(bytes) => {
                    let before = consumer_taken(*old(input_consumer));
                    let after = consumer_taken(*final(input_consumer));
                    let taken = after.skip(before.len() as int);
                    let frame_size = old(self)@.config.spec_frame_size();
                    &&& after == before + taken
                    &&& taken.len() <= frame_size
                    &&& final(self)@ == old(self)@.send(
                        taken + spec_silence(frame_size - taken.len()),
                    )
                    &&& bytes@ == spec_burst(final(self)@.queue)
                },
            },
    {
        if !self.frame_ready(held) {
            return None;
        }
        let frame_size = self.audio_config.get_frame_size();
        let mut frame: Vec<u32> = vec![SILENCE; frame_size];
        let ghost before = consumer_taken(*input_consumer);
        let count = pop_slice(input_consumer, frame.as_mut_slice());
        proof {
            let after = consumer_taken(*input_consumer);
            let taken = after.skip(before.len() as int);
            assert(taken =~= frame@.take(count as int));
            assert(frame@ =~= taken + spec_silence(frame_size - taken.len())) by {
                assert forall|k: int| count <= k < frame_size implies frame@[k] == SILENCE by {
                    assert(frame@[k] == frame@.skip(count as int)[k - count]);
                }
            }
        }
        Some(self.send(frame.as_slice()))
    }

    /// One turn of the receive loop: takes one inbound datagram and places
    /// the samples of the packets it delivers, oldest packet first, in the
    /// playback queue. Returns how many samples the queue took; the rest is
    /// dropped.
    pub fn deliver(&mut self, datagram: &[u8], output_producer: &mut Producer<u32>) -> (placed:
        usize)
        requires
            old(self).wf(),
        ensures
            final(self).wf(),
            final(self)@ == old(self)@.receive(datagram@),
            producer_capacity(*final(output_producer)) == producer_capacity(*old(output_producer)),
            ({
                let samples = spec_samples(
                    spec_receive(
                        old(self)@.last_delivered,
                        datagram@,
                        spec_packet_size(&old(self)@.config),
                    ).0,
                );
                &&& placed <= samples.len()
                &&& producer_accepted(*final(output_producer)) == producer_accepted(
                    *old(output_producer),
                ) + samples.take(placed as int)
                &&& producer_accepted(*old(output_producer)).len() + samples.len()
                    <= producer_capacity(*old(output_producer)) ==> placed == samples.len()
            }),
    {
        let packets = self.recv(datagram);
        let mut samples: Vec<u32> = Vec::new();
        let mut i: usize = 0;
        while i < packets.len()
            invariant
                i <= packets@.len(),
                samples@ == spec_samples(spec_views(packets@).take(i as int)),
            decreases packets@.len() - i,
        {
            let payload = &packets[i].audio_samples;
            let ghost earlier = samples@;
            let mut k: usize = 0;
            while k < payload.len()
                invariant
                    k <= payload@.len(),
                    samples@ == earlier + payload@.take(k as int),
                decreases payload@.len() - k,
            {
                samples.push(payload[k]);
                k += 1;
                assert(samples@ =~= earlier + payload@.take(k as int));
            }
            proof {
                let views = spec_views(packets@);
                assert(payload@.take(k as int) =~= payload@);
                assert(views.take(i + 1).drop_last() =~= views.take(i as int));
                assert(views.take(i + 1).last().audio_samples == payload@);
            }
            i += 1;
        }
        assert(spec_views(packets@).take(i as int) =~= spec_views(packets@));
        push_slice(output_producer, samples.as_slice())
    }

    /// Decodes the `i`-th packet embedded in a datagram, if it is readable.
    fn read_embedded(datagram: &[u8], packet_size: usize, i: usize) -> (r: Option<Packet>)
        requires
            packet_size >= HEADER_SIZE,
            i < REDUNDANCY,
            datagram@.len() == REDUNDANCY * packet_size,
        ensures
            match r {
                Some(packet) => {
                    &&& spec_readable(datagram@, packet_size as int, i as int)
                    &&& packet@ == spec_embedded_packet(datagram@, packet_size as int, i as int)
                },
                None => !spec_readable(datagram@, packet_size as int, i as int),
            },
    {
        let total = datagram.len();
        assert(i * packet_size + packet_size <= REDUNDANCY * packet_size) by (nonlinear_arith)
            requires
                i < REDUNDANCY,
        ;
        assert((i + 1) * packet_size == i * packet_size + packet_size) by (nonlinear_arith);
        let start = i * packet_size;
        let bytes = slice_subrange(datagram, start, start + packet_size);
        if Packet::declared_size(bytes) != packet_size as u64 {
            return None;
        }
        match Packet::from_buffer(bytes) {
            Ok(packet) => Some(packet),
            Err(_) => None,
        }
    }

    /// Takes one inbound datagram and returns the packets it delivers, oldest
    /// first: the newest packet and as many of the older ones embedded behind
    /// it as were missed since the last delivery.
    ///
    /// A datagram that is not exactly one burst long, that is not newer than
    /// what was delivered, or in which a needed packet is not readable,
    /// delivers nothing and changes nothing.
    pub fn recv(&mut self, datagram: &[u8]) -> (delivered: Vec<Packet>)
        requires
            old(self).wf(),
        ensures
            final(self).wf(),
            final(self)@ == old(self)@.receive(datagram@),
            spec_views(delivered@) == spec_receive(
                old(self)@.last_delivered,
                datagram@,
                spec_packet_size(&old(self)@.config),
            ).0,
    {
        let packet_size = self.get_packet_size();
        if datagram.len() != self.get_redundant_packet_size() {
            let nothing: Vec<Packet> = Vec::new();
            assert(spec_views(nothing@) =~= Seq::empty());
            return nothing;
        }
        let first = match Self::read_embedded(datagram, packet_size, 0) {
            Some(first) => first,
            None => {
                let nothing: Vec<Packet> = Vec::new();
                assert(spec_views(nothing@) =~= Seq::empty());
                return nothing;
            },
        };
        let newest = first.sequence_number;
        let count = pending(self.recv_sequence_number, newest, REDUNDANCY as usize);
        if count == 0 {
            let nothing: Vec<Packet> = Vec::new();
            assert(spec_views(nothing@) =~= Seq::empty());
            return nothing;
        }
        let mut embedded: Vec<Packet> = Vec::with_capacity(count);
        embedded.push(first);
        let mut i: usize = 1;
        while i < count
            invariant
                1 <= i <= count <= REDUNDANCY,
                packet_size >= HEADER_SIZE,
                datagram@.len() == REDUNDANCY * packet_size,
                *self == *old(self),
                self.wf(),
                packet_size == spec_packet_size(&self@.config),
                newest == spec_embedded_packet(datagram@, packet_size as int, 0).sequence_number,
                count == spec_pending(self@.last_delivered, newest, REDUNDANCY as int),
                embedded@.len() == i,
                forall|k: int|
                    0 <= k < i ==> {
                        &&& spec_readable(datagram@, packet_size as int, k)
                        &&& (#[trigger] embedded@[k])@ == spec_embedded_packet(
                            datagram@,
                            packet_size as int,
                            k,
                        )
                    },
            decreases count - i,
        {
            match Self::read_embedded(datagram, packet_size, i) {
                Some(packet) => {
                    embedded.push(packet);
                },
                None => {
                    let nothing: Vec<Packet> = Vec::new();
                    assert(spec_views(nothing@) =~= Seq::empty());
                    return nothing;
                },
            }
            i += 1;
        }
        let (delivered, last) = recover(newest, self.recv_sequence_number, embedded);
        self.recv_sequence_number = last;
        proof {
            assert(embedded@.take(count as int) =~= embedded@);
            assert(delivered@ == embedded@.reverse());
            assert forall|k: int| 0 <= k < count implies spec_readable(
                datagram@,
                packet_size as int,
                k,
            ) by {
                assert(embedded@[k]@ == spec_embedded_packet(datagram@, packet_size as int, k));
            }
            assert(delivered@.len() == count);
            assert forall|j: int| 0 <= j < count implies (#[trigger] delivered@[j])@
                == spec_embedded_packet(datagram@, packet_size as int, count - 1 - j) by {
                assert(delivered@[j] == embedded@[count - 1 - j]);
            }
            assert(spec_views(delivered@) =~= spec_receive(
                old(self)@.last_delivered,
                datagram@,
                spec_packet_size(&old(self)@.config),
            ).0);
        }
        delivered
    }
}

/// Loss within the window is made good. A receiver that is at most
/// `REDUNDANCY` packets behind a sender with a full queue gets, from the
/// sender's next burst alone, every packet it missed: they are delivered as
/// they were queued, in sequence order, the first one directly after the
/// last delivered packet and the last one the newest.
pub proof fn lemma_gap_recovered(sender: UdpClientView, last: u16)
    requires
        sender.wf(),
        sender.queue.len() == REDUNDANCY,
        1 <= spec_sequence_delta(last, sender.send_sequence_number) <= REDUNDANCY,
    ensures
        ({
            let gap = spec_sequence_delta(last, sender.send_sequence_number);
            let received = spec_receive(
                Some(last),
                spec_burst(sender.queue),
                spec_packet_size(&sender.config),
            );
            &&& received.1 == Some(sender.send_sequence_number)
            &&& received.0.len() == gap
            &&& forall|j: int|
                0 <= j < gap ==> {
                    &&& (#[trigger] received.0[j]) == sender.queue[gap - 1 - j]
                    &&& spec_sequence_delta(last, received.0[j].sequence_number) == j + 1
                }
        }),
{
    let newest = sender.send_sequence_number;
    assert(sender.queue[0].sequence_number == spec_earlier_sequence(newest, 0));
    lemma_receive_burst(Some(last), sender.queue, &sender.config);
    lemma_recovered_in_order(last, newest, sender.queue);
}

/// Loss beyond the window is not made good, and nothing comes out of order.
/// A receiver that is more than `REDUNDANCY` packets behind gets the whole
/// burst, oldest packet first, each one step after the one before; the
/// packets older than the burst are missing, so the first one delivered lies
/// more than one step after the last delivered packet.
pub proof fn lemma_gap_beyond_window(sender: UdpClientView, last: u16)
    requires
        sender.wf(),
        sender.queue.len() == REDUNDANCY,
        spec_sequence_delta(last, sender.send_sequence_number) > REDUNDANCY,
    ensures
        ({
            let gap = spec_sequence_delta(last, sender.send_sequence_number);
            let received = spec_receive(
                Some(last),
                spec_burst(sender.queue),
                spec_packet_size(&sender.config),
            );
            &&& received.1 == Some(sender.send_sequence_number)
            &&& received.0.len() == REDUNDANCY
            &&& forall|j: int|
                0 <= j < REDUNDANCY ==> {
                    &&& (#[trigger] received.0[j]) == sender.queue[REDUNDANCY - 1 - j]
                    &&& spec_sequence_delta(last, received.0[j].sequence_number) == gap
                        - REDUNDANCY + 1 + j
                }
        }),
{
    let newest = sender.send_sequence_number;
    assert(sender.queue[0].sequence_number == spec_earlier_sequence(newest, 0));
    lemma_receive_burst(Some(last), sender.queue, &sender.config);
    lemma_recovered_in_order(last, newest, sender.queue);
}

/// Nothing is delivered twice. A burst whose newest packet is not newer than
/// the last delivered one delivers nothing and leaves the receiver as it was.
pub proof fn lemma_stale_burst_ignored(sender: UdpClientView, last: u16)
    requires
        sender.wf(),
        sender.queue.len() == REDUNDANCY,
        spec_sequence_delta(last, sender.send_sequence_number) <= 0,
    ensures
        spec_receive(Some(last), spec_burst(sender.queue), spec_packet_size(&sender.config)) == (
            Seq::<PacketView>::empty(),
            Some(last),
        ),
{
    let newest = sender.send_sequence_number;
    assert(sender.queue[0].sequence_number == spec_earlier_sequence(newest, 0));
    lemma_receive_burst(Some(last), sender.queue, &sender.config);
    assert(sender.queue.take(0).reverse() =~= Seq::<PacketView>::empty());
}

/// The first burst that a receiver gets delivers its newest packet and no
/// other.
pub proof fn lemma_first_burst(sender: UdpClientView)
    requires
        sender.wf(),
        sender.queue.len() == REDUNDANCY,
    ensures
        spec_receive(None, spec_burst(sender.queue), spec_packet_size(&sender.config)) == (
            seq![sender.queue[0]],
            Some(sender.send_sequence_number),
        ),
{
    let newest = sender.send_sequence_number;
    assert(sender.queue[0].sequence_number == spec_earlier_sequence(newest, 0));
    lemma_receive_burst(None, sender.queue, &sender.config);
    assert(sender.queue.take(1).reverse() =~= seq![sender.queue[0]]);
}

/// A sender's first bursts, which do not yet hold `REDUNDANCY` packets, are
/// shorter than a whole burst, and a receiver discards them.
pub proof fn lemma_short_burst_discarded(sender: UdpClientView, last: Option<u16>)
    requires
        sender.wf(),
        sender.queue.len() < REDUNDANCY,
    ensures
        spec_receive(last, spec_burst(sender.queue), spec_packet_size(&sender.config)) == (
            Seq::<PacketView>::empty(),
            last,
        ),
{
    let packet_size = spec_packet_size(&sender.config);
    assert forall|i: int| 0 <= i < sender.queue.len() implies (#[trigger] sender.queue[i]).encode().len()
        == packet_size by {
        assert(spec_fits(sender.queue[i], &sender.config));
        lemma_decode_encode(sender.queue[i]);
    }
    lemma_burst_layout(sender.queue, packet_size);
    assert(sender.queue.len() * packet_size < REDUNDANCY * packet_size) by (nonlinear_arith)
        requires
            sender.queue.len() < REDUNDANCY,
            packet_size >= HEADER_SIZE,
    ;
}

} // verus!
