//! Bursts and what a receiver makes of them: which of the packets embedded
//! in a datagram are delivered, and in what order.

use vstd::prelude::*;
use crate::audio::AudioConfig;
use crate::udp::packet::{Packet, PacketView, HEADER_SIZE};
use crate::udp::packet::{spec_decode, spec_declared_samples, lemma_decode_encode};
use crate::udp::sequence::{pending, spec_earlier_sequence, spec_pending, spec_sequence_delta};

verus! {

/// How many consecutive bursts carry each packet.
pub const REDUNDANCY: u16 = 3;

/// Picks, from the packets embedded in one burst (newest first), those that
/// were not delivered yet and returns them oldest first, with the sequence
/// number that is now the last delivered one.
///
/// A burst that is not newer than the last delivered packet yields nothing
/// and leaves the last delivered sequence number as it was.
pub fn recover(newest: u16, last: Option<u16>, embedded: Vec<Packet>) -> (r: (
    Vec<Packet>,
    Option<u16>,
))
    ensures
        r.0@ == embedded@.take(spec_pending(last, newest, embedded@.len() as int)).reverse(),
        r.1 == if spec_pending(last, newest, embedded@.len() as int) > 0 {
            Some(newest)
        } else {
            last
        },
{
    let count = pending(last, newest, embedded.len());
    let mut rest = embedded;
    rest.truncate(count);
    let ghost needed = rest@;
    let mut delivered: Vec<Packet> = Vec::with_capacity(count);
    while rest.len() > 0
        invariant
            needed.len() == count,
            rest@ == needed.take(rest@.len() as int),
            rest@.len() <= count,
            delivered@.len() == count - rest@.len(),
            forall|j: int| 0 <= j < delivered@.len() ==> delivered@[j] == needed[count - 1 - j],
        decreases rest.len(),
    {
        let packet = rest.pop().unwrap();
        delivered.push(packet);
    }
    assert(delivered@ =~= needed.reverse());
    let last_delivered = if count > 0 {
        Some(newest)
    } else {
        last
    };
    (delivered, last_delivered)
}

/// The mathematical content of each packet of a sequence.
pub open spec fn spec_views(packets: Seq<Packet>) -> Seq<PacketView> {
    Seq::new(packets.len(), |i: int| packets[i]@)
}

/// The bytes of one packet of a session with this configuration.
pub open spec fn spec_packet_size(config: &AudioConfig) -> int {
    HEADER_SIZE + 4 * config.spec_frame_size()
}

/// Whether a packet is one that a session with this configuration sends:
/// a frame of the configured shape.
pub open spec fn spec_fits(packet: PacketView, config: &AudioConfig) -> bool {
    &&& packet.buffer_size == config.buffer_size
    &&& packet.channel_count == config.spec_channel_count()
    &&& packet.audio_samples.len() == config.spec_frame_size()
}

/// One burst on the wire: the encodings of the queued packets, one after the
/// other, in queue order (newest first).
pub open spec fn spec_burst(queue: Seq<PacketView>) -> Seq<u8>
    decreases queue.len(),
{
    if queue.len() == 0 {
        Seq::empty()
    } else {
        spec_burst(queue.drop_last()) + queue.last().encode()
    }
}

/// The bytes of the `i`-th packet embedded in a datagram.
pub open spec fn spec_embedded(datagram: Seq<u8>, packet_size: int, i: int) -> Seq<u8> {
    datagram.subrange(i * packet_size, (i + 1) * packet_size)
}

/// Whether the `i`-th embedded packet announces exactly one frame of this
/// session and names a known message type.
pub open spec fn spec_readable(datagram: Seq<u8>, packet_size: int, i: int) -> bool {
    let bytes = spec_embedded(datagram, packet_size, i);
    &&& HEADER_SIZE + 4 * spec_declared_samples(bytes) == packet_size
    &&& spec_decode(bytes) is Ok
}

/// The `i`-th embedded packet.
pub open spec fn spec_embedded_packet(datagram: Seq<u8>, packet_size: int, i: int) -> PacketView {
    spec_decode(spec_embedded(datagram, packet_size, i))->Ok_0
}

/// What one inbound datagram delivers, oldest packet first, and the last
/// delivered sequence number after it.
///
/// A datagram of the wrong length, or one in which a packet that would be
/// delivered is not readable, is discarded: nothing is delivered and the
/// last delivered sequence number stays.
pub open spec fn spec_receive(last: Option<u16>, datagram: Seq<u8>, packet_size: int) -> (
    Seq<PacketView>,
    Option<u16>,
) {
    if datagram.len() != REDUNDANCY * packet_size || !spec_readable(datagram, packet_size, 0) {
        (Seq::empty(), last)
    } else {
        let newest = spec_embedded_packet(datagram, packet_size, 0).sequence_number;
        let count = spec_pending(last, newest, REDUNDANCY as int);
        if count > 0 && forall|i: int| 0 <= i < count ==> spec_readable(datagram, packet_size, i) {
            (
                Seq::new(
                    count as nat,
                    |j: int| spec_embedded_packet(datagram, packet_size, count - 1 - j),
                ),
                Some(newest),
            )
        } else {
            (Seq::empty(), last)
        }
    }
}

/// In a burst of packets that each take `packet_size` bytes, the `i`-th
/// embedded packet is the encoding of the `i`-th queued packet.
pub proof fn lemma_burst_layout(queue: Seq<PacketView>, packet_size: int)
    requires
        forall|i: int| 0 <= i < queue.len() ==> (#[trigger] queue[i]).encode().len() == packet_size,
    ensures
        spec_burst(queue).len() == queue.len() * packet_size,
        forall|i: int|
            0 <= i < queue.len() ==> #[trigger] spec_embedded(spec_burst(queue), packet_size, i)
                == queue[i].encode(),
    decreases queue.len(),
{
    if queue.len() > 0 {
        let front = queue.drop_last();
        let burst = spec_burst(queue);
        lemma_burst_layout(front, packet_size);
        assert(queue.last().encode().len() == packet_size);
        assert(front.len() * packet_size + packet_size == queue.len() * packet_size)
            by (nonlinear_arith)
            requires
                front.len() + 1 == queue.len(),
        ;
        assert forall|i: int| 0 <= i < queue.len() implies #[trigger] spec_embedded(
            burst,
            packet_size,
            i,
        ) == queue[i].encode() by {
            assert((i + 1) * packet_size == i * packet_size + packet_size) by (nonlinear_arith);
            assert(0 <= i * packet_size) by (nonlinear_arith)
                requires
                    0 <= i,
                    0 <= packet_size,
            ;
            if i < front.len() {
                assert((i + 1) * packet_size <= front.len() * packet_size) by (nonlinear_arith)
                    requires
                        i + 1 <= front.len(),
                        0 <= packet_size,
                ;
                assert(spec_embedded(burst, packet_size, i) =~= spec_embedded(
                    spec_burst(front),
                    packet_size,
                    i,
                ));
                assert(front[i] == queue[i]);
            } else {
                assert(i * packet_size == front.len() * packet_size);
                assert(spec_embedded(burst, packet_size, i) =~= queue.last().encode());
            }
        }
    }
}

/// An embedded packet that is the encoding of a packet of the session's
/// shape is readable, and reads as that packet.
pub proof fn lemma_embedded_readable(
    datagram: Seq<u8>,
    i: int,
    packet: PacketView,
    config: &AudioConfig,
)
    requires
        spec_fits(packet, config),
        spec_embedded(datagram, spec_packet_size(config), i) == packet.encode(),
    ensures
        packet.encode().len() == spec_packet_size(config),
        spec_readable(datagram, spec_packet_size(config), i),
        spec_embedded_packet(datagram, spec_packet_size(config), i) == packet,
{
    lemma_decode_encode(packet);
}

/// What the receiver makes of a whole burst: of `REDUNDANCY` packets of the
/// session's shape it delivers the pending ones, oldest first, exactly as
/// they were queued.
pub proof fn lemma_receive_burst(last: Option<u16>, queue: Seq<PacketView>, config: &AudioConfig)
    requires
        queue.len() == REDUNDANCY,
        forall|i: int| 0 <= i < queue.len() ==> spec_fits(#[trigger] queue[i], config),
    ensures
        ({
            let newest = queue[0].sequence_number;
            let count = spec_pending(last, newest, REDUNDANCY as int);
            let received = spec_receive(last, spec_burst(queue), spec_packet_size(config));
            &&& received.0 == queue.take(count).reverse()
            &&& received.1 == if count > 0 {
                Some(newest)
            } else {
                last
            }
        }),
{
    let packet_size = spec_packet_size(config);
    let datagram = spec_burst(queue);
    let newest = queue[0].sequence_number;
    let count = spec_pending(last, newest, REDUNDANCY as int);
    assert forall|i: int| 0 <= i < queue.len() implies (#[trigger] queue[i]).encode().len()
        == packet_size by {
        assert(spec_fits(queue[i], config));
        lemma_decode_encode(queue[i]);
    }
    lemma_burst_layout(queue, packet_size);
    assert forall|i: int| 0 <= i < queue.len() implies {
        &&& spec_readable(datagram, packet_size, i)
        &&& #[trigger] spec_embedded_packet(datagram, packet_size, i) == queue[i]
    } by {
        assert(spec_fits(queue[i], config));
        assert(spec_embedded(datagram, packet_size, i) == queue[i].encode());
        lemma_embedded_readable(datagram, i, queue[i], config);
    }
    lemma_receive_readable(last, datagram, packet_size, queue);
}

/// What the receiver makes of a datagram of the right length in which every
/// embedded packet is readable.
proof fn lemma_receive_readable(
    last: Option<u16>,
    datagram: Seq<u8>,
    packet_size: int,
    queue: Seq<PacketView>,
)
    requires
        queue.len() == REDUNDANCY,
        datagram.len() == REDUNDANCY * packet_size,
        forall|i: int|
            0 <= i < queue.len() ==> {
                &&& spec_readable(datagram, packet_size, i)
                &&& #[trigger] spec_embedded_packet(datagram, packet_size, i) == queue[i]
            },
    ensures
        ({
            let newest = queue[0].sequence_number;
            let count = spec_pending(last, newest, REDUNDANCY as int);
            let received = spec_receive(last, datagram, packet_size);
            &&& received.0 == queue.take(count).reverse()
            &&& received.1 == if count > 0 {
                Some(newest)
            } else {
                last
            }
        }),
{
    let newest = queue[0].sequence_number;
    let count = spec_pending(last, newest, REDUNDANCY as int);
    let received = spec_receive(last, datagram, packet_size);
    assert(spec_embedded_packet(datagram, packet_size, 0) == queue[0]);
    assert(spec_readable(datagram, packet_size, 0));
    assert forall|i: int| 0 <= i < count implies spec_readable(datagram, packet_size, i) by {
        assert(spec_embedded_packet(datagram, packet_size, i) == queue[i]);
    }
    if count > 0 {
        assert(received.0.len() == count);
        assert forall|j: int| 0 <= j < count implies received.0[j] == queue.take(
            count,
        ).reverse()[j] by {
            assert(spec_embedded_packet(datagram, packet_size, count - 1 - j) == queue[count - 1
                - j]);
        }
        assert(received.0 =~= queue.take(count).reverse());
    } else {
        assert(received.0 =~= queue.take(count).reverse());
    }
}

/// The packets picked from a burst that is numbered backwards from its newest
/// packet come out in sequence order, each one step after the one before, and
/// all of them newer than the last delivered one. When the gap is no longer
/// than the burst, the first one follows the last delivered packet directly,
/// so nothing is missing; otherwise the oldest part of the gap is lost.
pub proof fn lemma_recovered_in_order(last: u16, newest: u16, embedded: Seq<PacketView>)
    requires
        embedded.len() < 0x8000,
        forall|i: int|
            0 <= i < embedded.len() ==> (#[trigger] embedded[i]).sequence_number
                == spec_earlier_sequence(newest, i),
    ensures
        ({
            let gap = spec_sequence_delta(last, newest);
            let count = spec_pending(Some(last), newest, embedded.len() as int);
            let delivered = embedded.take(count).reverse();
            &&& delivered.len() == count
            &&& forall|j: int|
                0 <= j < count ==> spec_sequence_delta(
                    last,
                    (#[trigger] delivered[j]).sequence_number,
                ) == gap - count + 1 + j
        }),
{
    let gap = spec_sequence_delta(last, newest);
    let count = spec_pending(Some(last), newest, embedded.len() as int);
    let delivered = embedded.take(count).reverse();
    assert forall|j: int| 0 <= j < count implies spec_sequence_delta(
        last,
        (#[trigger] delivered[j]).sequence_number,
    ) == gap - count + 1 + j by {
        let i = count - 1 - j;
        assert(delivered[j] == embedded[i]);
        assert(embedded[i].sequence_number == spec_earlier_sequence(newest, i));
    }
}

/// The samples of a sequence of packets, one payload after the other.
pub open spec fn spec_samples(packets: Seq<PacketView>) -> Seq<u32>
    decreases packets.len(),
{
    if packets.len() == 0 {
        Seq::empty()
    } else {
        spec_samples(packets.drop_last()) + packets.last().audio_samples
    }
}

} // verus!
