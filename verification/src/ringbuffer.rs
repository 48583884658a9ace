//! The lock-free sample queues between the audio callbacks and the transport
//! loops.
//!
//! Each queue is a ring buffer whose two halves, a producer and a consumer,
//! live on different threads. Nothing one half can observe about the queue's
//! fill level stays true while the other half runs, so the contracts below
//! speak of what each half has done itself: the samples a producer has handed
//! in, and the samples a consumer has taken out.

use vstd::prelude::*;
use ringbuf::{Consumer, Producer, RingBuffer};

verus! {

/// The sample that stands for silence: the bit pattern of `0.0`.
pub const SILENCE: u32 = 0;

/// `ringbuf::RingBuffer`: a ring buffer before it is split. Nothing of its
/// inside is visible here.
#[verifier::external_type_specification]
#[verifier::external_body]
#[verifier::reject_recursive_types(T)]
pub struct ExRingBuffer<T: Sized>(RingBuffer<T>);

/// `ringbuf::Producer`: the half of a ring buffer that puts samples in.
/// Nothing of its inside is visible here.
#[verifier::external_type_specification]
#[verifier::external_body]
#[verifier::reject_recursive_types(T)]
pub struct ExProducer<T>(Producer<T>);

/// `ringbuf::Consumer`: the half of a ring buffer that takes samples out.
/// Nothing of its inside is visible here.
#[verifier::external_type_specification]
#[verifier::external_body]
#[verifier::reject_recursive_types(T)]
pub struct ExConsumer<T>(Consumer<T>);

/// The number of samples that a ring buffer was made to hold.
pub uninterp spec fn ring_capacity(ring: RingBuffer<u32>) -> nat;

/// The number of samples that the buffer behind a producer was made to hold.
pub uninterp spec fn producer_capacity(producer: Producer<u32>) -> nat;

/// Every sample that a producer has placed in its buffer since the buffer
/// was split, oldest first.
pub uninterp spec fn producer_accepted(producer: Producer<u32>) -> Seq<u32>;

/// Every sample that a consumer has taken out of its buffer since the buffer
/// was split, oldest first.
pub uninterp spec fn consumer_taken(consumer: Consumer<u32>) -> Seq<u32>;

/// `count` samples of silence.
pub open spec fn spec_silence(count: int) -> Seq<u32> {
    Seq::new(count as nat, |i: int| SILENCE)
}

/// `RingBuffer::new`: an empty buffer of the given capacity. The buffer
/// allocates one slot more than its capacity, which must fit in memory.
#[verifier::external_body]
pub(crate) fn ring_new(capacity: usize) -> (ring: RingBuffer<u32>)
    requires
        4 * (capacity + 1) <= isize::MAX,
    ensures
        ring_capacity(ring) == capacity,
{
    RingBuffer::new(capacity)
}

/// `RingBuffer::split`: the two halves of a buffer. A buffer cannot be filled
/// before it is split, so neither half has moved a sample yet.
#[verifier::external_body]
pub(crate) fn ring_split(ring: RingBuffer<u32>) -> (halves: (Producer<u32>, Consumer<u32>))
    ensures
        producer_capacity(halves.0) == ring_capacity(ring),
        producer_accepted(halves.0) == Seq::<u32>::empty(),
        consumer_taken(halves.1) == Seq::<u32>::empty(),
{
    ring.split()
}

/// `Producer::push`: places the sample in the buffer, or hands it back when
/// the buffer is full. The buffer holds no more than the producer has placed
/// in it, so while fewer samples than its capacity were placed the push
/// succeeds, whatever the consumer does meanwhile.
#[verifier::external_body]
pub(crate) fn push(producer: &mut Producer<u32>, sample: u32) -> (r: Result<(), u32>)
    ensures
        producer_capacity(*final(producer)) == producer_capacity(*old(producer)),
        match r {
            Ok(_) => producer_accepted(*final(producer)) == producer_accepted(*old(producer)).push(
                sample,
            ),
            Err(rejected) => rejected == sample && producer_accepted(*final(producer))
                == producer_accepted(*old(producer)),
        },
        producer_accepted(*old(producer)).len() < producer_capacity(*old(producer)) ==> r is Ok,
{
    producer.push(sample)
}

/// `Producer::push_slice`: places as many samples from the front of the slice
/// as the buffer has room for, and returns how many. All of them are placed
/// when, counted with what the producer placed before, they do not exceed
/// the capacity.
#[verifier::external_body]
pub(crate) fn push_slice(producer: &mut Producer<u32>, samples: &[u32]) -> (count: usize)
    ensures
        producer_capacity(*final(producer)) == producer_capacity(*old(producer)),
        count <= samples@.len(),
        producer_accepted(*final(producer)) == producer_accepted(*old(producer)) + samples@.take(
            count as int,
        ),
        producer_accepted(*old(producer)).len() + samples@.len() <= producer_capacity(
            *old(producer),
        ) ==> count == samples@.len(),
{
    producer.push_slice(samples)
}

/// `Consumer::pop`: takes the oldest sample out of the buffer, if there is
/// one.
#[verifier::external_body]
pub(crate) fn pop(consumer: &mut Consumer<u32>) -> (r: Option<u32>)
    ensures
        match r {
            Some(sample) => consumer_taken(*final(consumer)) == consumer_taken(
                *old(consumer),
            ).push(sample),
            None => consumer_taken(*final(consumer)) == consumer_taken(*old(consumer)),
        },
{
    consumer.pop()
}

/// `Consumer::pop_slice`: takes the oldest samples out of the buffer into the
/// front of `samples`, as many as there are and fit, and returns how many.
/// The rest of `samples` stays as it was.
#[verifier::external_body]
pub(crate) fn pop_slice(consumer: &mut Consumer<u32>, samples: &mut [u32]) -> (count: usize)
    ensures
        final(samples)@.len() == old(samples)@.len(),
        count <= old(samples)@.len(),
        consumer_taken(*final(consumer)) == consumer_taken(*old(consumer)) + final(samples)@.take(
            count as int,
        ),
        final(samples)@.skip(count as int) == old(samples)@.skip(count as int),
{
    consumer.pop_slice(samples)
}

/// `Consumer::len`: how many samples the buffer held at some moment during
/// the call. The producer may have added more since.
#[verifier::external_body]
pub(crate) fn available(consumer: &Consumer<u32>) -> (count: usize)
{
    consumer.len()
}

/// Makes the two queues of a session, one for capture and one for playback:
/// each holds four frames of `packet_buffer_size` samples and starts out full
/// of silence, so that its consumer has something to take before the first
/// real samples arrive.
pub fn create(packet_buffer_size: usize) -> (queues: (
    Producer<u32>,
    Consumer<u32>,
    Producer<u32>,
    Consumer<u32>,
))
    requires
        4 * (4 * packet_buffer_size + 1) <= isize::MAX,
    ensures
        producer_capacity(queues.0) == 4 * packet_buffer_size,
        producer_accepted(queues.0) == spec_silence(4 * packet_buffer_size),
        consumer_taken(queues.1) == Seq::<u32>::empty(),
        producer_capacity(queues.2) == 4 * packet_buffer_size,
        producer_accepted(queues.2) == spec_silence(4 * packet_buffer_size),
        consumer_taken(queues.3) == Seq::<u32>::empty(),
{
    let ringbuffer_size = packet_buffer_size * 4;
    let (mut input_producer, input_consumer) = ring_split(ring_new(ringbuffer_size));
    let (mut output_producer, output_consumer) = ring_split(ring_new(ringbuffer_size));
    fill_with_silence(&mut input_producer, ringbuffer_size);
    fill_with_silence(&mut output_producer, ringbuffer_size);
    (input_producer, input_consumer, output_producer, output_consumer)
}

/// Fills a producer that has placed nothing yet with `count` samples of
/// silence.
fn fill_with_silence(producer: &mut Producer<u32>, count: usize)
    requires
        producer_accepted(*old(producer)) == Seq::<u32>::empty(),
        count <= producer_capacity(*old(producer)),
    ensures
        producer_capacity(*final(producer)) == producer_capacity(*old(producer)),
        producer_accepted(*final(producer)) == spec_silence(count as int),
{
    let mut i: usize = 0;
    assert(producer_accepted(*producer) =~= spec_silence(0));
    while i < count
        invariant
            i <= count <= producer_capacity(*producer),
            producer_capacity(*producer) == producer_capacity(*old(producer)),
            producer_accepted(*producer) == spec_silence(i as int),
        decreases count - i,
    {
        let pushed = push(producer, SILENCE);
        assert(pushed is Ok);
        i += 1;
        assert(producer_accepted(*producer) =~= spec_silence(i as int));
    }
}

} // verus!
