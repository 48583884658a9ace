//! The audio callbacks: on every hardware tick they move the samples of the
//! stream's channels between an interleaved block and a sample queue,
//! without ever waiting for the other side of the queue.

use vstd::prelude::*;
use ringbuf::{Consumer, Producer};
use crate::ringbuffer::{consumer_taken, producer_accepted, producer_capacity, pop, push, SILENCE};

verus! {

/// The channels of an interleaved block of samples that belong to a stream:
/// of every `channels` consecutive samples, those at the positions from
/// `start` up to but not including `end`.
#[derive(Clone, Copy, Debug, PartialEq, Eq, Structural)]
pub struct ChannelRange {
    pub start: u32,
    pub end: u32,
    pub channels: u32,
}

impl ChannelRange {
    /// The channel that the `i`-th sample of a block belongs to.
    pub open spec fn spec_position(self, i: int) -> int {
        if self.channels <= 1 {
            0
        } else {
            i % (self.channels as int)
        }
    }

    /// Whether the `i`-th sample of a block belongs to the stream.
    pub open spec fn spec_selects(self, i: int) -> bool {
        self.start <= self.spec_position(i) < self.end
    }
}

/// Of the first `n` samples of a block, those that belong to the stream and
/// were kept, in order.
pub open spec fn spec_picked(data: Seq<u32>, kept: Seq<bool>, range: ChannelRange, n: int) -> Seq<
    u32,
>
    decreases n,
{
    if n <= 0 {
        Seq::empty()
    } else if range.spec_selects(n - 1) && kept[n - 1] {
        spec_picked(data, kept, range, n - 1).push(data[n - 1])
    } else {
        spec_picked(data, kept, range, n - 1)
    }
}

/// How many of the first `n` samples of a block belong to the stream and
/// were not kept.
pub open spec fn spec_missed(kept: Seq<bool>, range: ChannelRange, n: int) -> int
    decreases n,
{
    if n <= 0 {
        0
    } else if range.spec_selects(n - 1) && !kept[n - 1] {
        spec_missed(kept, range, n - 1) + 1
    } else {
        spec_missed(kept, range, n - 1)
    }
}

/// How many of the first `n` samples of a block belong to the stream.
pub open spec fn spec_selected_count(range: ChannelRange, n: int) -> int
    decreases n,
{
    if n <= 0 {
        0
    } else if range.spec_selects(n - 1) {
        spec_selected_count(range, n - 1) + 1
    } else {
        spec_selected_count(range, n - 1)
    }
}

/// All the samples of a block that belong to the stream, in order.
pub open spec fn spec_selected(data: Seq<u32>, range: ChannelRange) -> Seq<u32> {
    spec_picked(data, Seq::new(data.len(), |i: int| true), range, data.len() as int)
}

/// The channel of the next sample is the next channel, or the first one
/// again after the last.
pub proof fn lemma_next_position(range: ChannelRange, i: int)
    requires
        0 <= i,
    ensures
        0 <= range.spec_position(i),
        range.channels > 1 ==> range.spec_position(i) < range.channels,
        range.spec_position(i + 1) == if range.spec_position(i) + 1 >= range.channels {
            0
        } else {
            range.spec_position(i) + 1
        },
{
    let width = range.channels as int;
    if width > 1 {
        assert((i + 1) % width == if i % width + 1 == width {
            0
        } else {
            i % width + 1
        }) by (nonlinear_arith)
            requires
                width > 1,
                i >= 0,
        ;
    }
}

/// What was picked from the first `n` samples depends on those samples and
/// their marks alone.
pub proof fn lemma_picked_prefix(
    data: Seq<u32>,
    kept: Seq<bool>,
    other_data: Seq<u32>,
    other_kept: Seq<bool>,
    range: ChannelRange,
    n: int,
)
    requires
        forall|k: int| 0 <= k < n ==> data[k] == other_data[k] && kept[k] == other_kept[k],
    ensures
        spec_picked(data, kept, range, n) == spec_picked(other_data, other_kept, range, n),
        spec_missed(kept, range, n) == spec_missed(other_kept, range, n),
    decreases n,
{
    if n > 0 {
        lemma_picked_prefix(data, kept, other_data, other_kept, range, n - 1);
    }
}

/// A longer block holds no fewer samples of the stream.
pub proof fn lemma_selected_count_grows(range: ChannelRange, shorter: int, longer: int)
    requires
        shorter <= longer,
    ensures
        0 <= spec_selected_count(range, shorter) <= spec_selected_count(range, longer),
    decreases longer,
{
    if longer > 0 {
        if shorter < longer {
            lemma_selected_count_grows(range, shorter, longer - 1);
        } else {
            lemma_selected_count_grows(range, shorter - 1, longer - 1);
        }
    }
}

/// On a device with a single channel, a stream that starts at that channel
/// holds every sample of a block.
pub proof fn lemma_single_channel_selects_all(data: Seq<u32>, range: ChannelRange)
    requires
        range.channels <= 1,
        range.start == 0,
        range.end >= 1,
    ensures
        spec_selected(data, range) == data,
        spec_selected_count(range, data.len() as int) == data.len(),
{
    let all = Seq::new(data.len(), |i: int| true);
    lemma_single_channel_prefix(data, all, range, data.len() as int);
    assert(data.take(data.len() as int) =~= data);
}

proof fn lemma_single_channel_prefix(data: Seq<u32>, all: Seq<bool>, range: ChannelRange, n: int)
    requires
        range.channels <= 1,
        range.start == 0,
        range.end >= 1,
        0 <= n <= data.len(),
        all == Seq::new(data.len(), |i: int| true),
    ensures
        spec_picked(data, all, range, n) == data.take(n),
        spec_selected_count(range, n) == n,
    decreases n,
{
    if n > 0 {
        lemma_single_channel_prefix(data, all, range, n - 1);
        assert(data.take(n - 1).push(data[n - 1]) =~= data.take(n));
    } else {
        assert(data.take(0) =~= Seq::<u32>::empty());
    }
}

/// The capture side of a stream: on every hardware callback it moves the
/// samples of its channels from the interleaved input block into the queue
/// to the network, and drops what the queue has no room for.
pub struct CaptureCallback {
    range: ChannelRange,
    producer: Producer<u32>,
}

impl CaptureCallback {
    pub closed spec fn spec_range(&self) -> ChannelRange {
        self.range
    }

    pub closed spec fn spec_producer(&self) -> Producer<u32> {
        self.producer
    }

    /// What one callback has done, given which samples of the block the
    /// queue had room for: the producer has placed those of them that belong
    /// to the stream, in order, and the others of the stream were dropped.
    pub open spec fn spec_outcome(
        before: Producer<u32>,
        after: Producer<u32>,
        data: Seq<u32>,
        range: ChannelRange,
        dropped: int,
        kept: Seq<bool>,
    ) -> bool {
        &&& kept.len() == data.len()
        &&& producer_accepted(after) == producer_accepted(before) + spec_picked(
            data,
            kept,
            range,
            data.len() as int,
        )
        &&& dropped == spec_missed(kept, range, data.len() as int)
    }

    pub fn new(range: ChannelRange, producer: Producer<u32>) -> (callback: Self)
        ensures
            callback.spec_range() == range,
            callback.spec_producer() == producer,
    {
        CaptureCallback { range, producer }
    }

    /// Handles one input block and returns how many samples of the stream
    /// were dropped because the queue was full. Nothing is dropped while the
    /// queue's capacity is not used up by what the producer has placed.
    pub fn process(&mut self, data: &[u32]) -> (dropped: usize)
        ensures
            final(self).spec_range() == old(self).spec_range(),
            producer_capacity(final(self).spec_producer()) == producer_capacity(
                old(self).spec_producer(),
            ),
            exists|kept: Seq<bool>| #[trigger]
                Self::spec_outcome(
                    old(self).spec_producer(),
                    final(self).spec_producer(),
                    data@,
                    old(self).spec_range(),
                    dropped as int,
                    kept,
                ),
            dropped == 0 ==> producer_accepted(final(self).spec_producer()) == producer_accepted(
                old(self).spec_producer(),
            ) + spec_selected(data@, old(self).spec_range()),
            producer_accepted(old(self).spec_producer()).len() + spec_selected_count(
                old(self).spec_range(),
                data@.len() as int,
            ) <= producer_capacity(old(self).spec_producer()) ==> dropped == 0,
    {
        let ghost before = self.producer;
        let ghost range = self.range;
        let ghost all = Seq::new(data@.len(), |i: int| true);
        let ghost mut kept: Seq<bool> = Seq::new(data@.len(), |i: int| true);
        let mut dropped: usize = 0;
        let mut position: u32 = 0;
        let mut i: usize = 0;
        assert(producer_accepted(self.producer) =~= producer_accepted(before) + spec_picked(
            data@,
            kept,
            range,
            0,
        ));
        while i < data.len()
            invariant
                i <= data@.len(),
                self.range == range,
                position == range.spec_position(i as int),
                kept.len() == data@.len(),
                all == Seq::new(data@.len(), |i: int| true),
                dropped <= i,
                dropped == spec_missed(kept, range, i as int),
                producer_capacity(self.producer) == producer_capacity(before),
                producer_accepted(self.producer) == producer_accepted(before) + spec_picked(
                    data@,
                    kept,
                    range,
                    i as int,
                ),
                dropped == 0 ==> spec_picked(data@, kept, range, i as int) == spec_picked(
                    data@,
                    all,
                    range,
                    i as int,
                ),
                producer_accepted(self.producer).len() == producer_accepted(before).len()
                    + spec_selected_count(range, i as int) - dropped,
                producer_accepted(before).len() + spec_selected_count(range, data@.len() as int)
                    <= producer_capacity(before) ==> dropped == 0,
            decreases data@.len() - i,
        {
            let ghost earlier = kept;
            let ghost placed = producer_accepted(self.producer);
            let mut fits = true;
            if position >= self.range.start && position < self.range.end {
                fits = push(&mut self.producer, data[i]).is_ok();
                if !fits {
                    dropped += 1;
                }
            }
            proof {
                kept = earlier.update(i as int, fits);
                lemma_picked_prefix(data@, earlier, data@, kept, range, i as int);
                lemma_selected_count_grows(range, i + 1, data@.len() as int);
                assert(producer_accepted(self.producer) =~= producer_accepted(before) + spec_picked(
                    data@,
                    kept,
                    range,
                    i + 1,
                ));
            }
            position += 1;
            if position >= self.range.channels {
                position = 0;
            }
            proof {
                lemma_next_position(range, i as int);
            }
            i += 1;
        }
        assert(Self::spec_outcome(
            old(self).spec_producer(),
            self.spec_producer(),
            data@,
            old(self).spec_range(),
            dropped as int,
            kept,
        ));
        dropped
    }
}

/// The playback side of a stream: on every hardware callback it fills the
/// samples of its channels in the interleaved output block from the queue
/// from the network, and writes silence everywhere else and wherever the
/// queue has run dry.
pub struct PlaybackCallback {
    range: ChannelRange,
    consumer: Consumer<u32>,
}

impl PlaybackCallback {
    pub closed spec fn spec_range(&self) -> ChannelRange {
        self.range
    }

    pub closed spec fn spec_consumer(&self) -> Consumer<u32> {
        self.consumer
    }

    /// What one callback has done, given at which samples of the block the
    /// queue had a sample to give: the consumer has taken exactly the samples
    /// that now stand at those places of the stream, in order, and the other
    /// places of the stream hold silence.
    pub open spec fn spec_outcome(
        before: Consumer<u32>,
        after: Consumer<u32>,
        data: Seq<u32>,
        range: ChannelRange,
        underruns: int,
        kept: Seq<bool>,
    ) -> bool {
        &&& kept.len() == data.len()
        &&& consumer_taken(after) == consumer_taken(before) + spec_picked(
            data,
            kept,
            range,
            data.len() as int,
        )
        &&& underruns == spec_missed(kept, range, data.len() as int)
        &&& forall|i: int|
            0 <= i < data.len() && range.spec_selects(i) && !kept[i] ==> #[trigger] data[i]
                == SILENCE
    }

    pub fn new(range: ChannelRange, consumer: Consumer<u32>) -> (callback: Self)
        ensures
            callback.spec_range() == range,
            callback.spec_consumer() == consumer,
    {
        PlaybackCallback { range, consumer }
    }

    /// Fills one output block and returns how many samples of the stream
    /// had to be silence because the queue was empty.
    pub fn process(&mut self, data: &mut [u32]) -> (underruns: usize)
        ensures
            final(self).spec_range() == old(self).spec_range(),
            final(data)@.len() == old(data)@.len(),
            forall|i: int|
                0 <= i < final(data)@.len() && !old(self).spec_range().spec_selects(i)
                    ==> #[trigger] final(data)@[i] == SILENCE,
            exists|kept: Seq<bool>| #[trigger]
                Self::spec_outcome(
                    old(self).spec_consumer(),
                    final(self).spec_consumer(),
                    final(data)@,
                    old(self).spec_range(),
                    underruns as int,
                    kept,
                ),
            underruns == 0 ==> consumer_taken(final(self).spec_consumer()) == consumer_taken(
                old(self).spec_consumer(),
            ) + spec_selected(final(data)@, old(self).spec_range()),
    {
        let ghost before = self.consumer;
        let ghost range = self.range;
        let ghost all = Seq::new(data@.len(), |i: int| true);
        let ghost mut kept: Seq<bool> = Seq::new(data@.len(), |i: int| true);
        let length = data.len();
        let mut underruns: usize = 0;
        let mut position: u32 = 0;
        let mut i: usize = 0;
        assert(consumer_taken(self.consumer) =~= consumer_taken(before) + spec_picked(
            data@,
            kept,
            range,
            0,
        ));
        while i < length
            invariant
                i <= length,
                length == data@.len(),
                data@.len() == old(data)@.len(),
                self.range == range,
                position == range.spec_position(i as int),
                kept.len() == data@.len(),
                all == Seq::new(data@.len(), |i: int| true),
                underruns <= i,
                underruns == spec_missed(kept, range, i as int),
                consumer_taken(self.consumer) == consumer_taken(before) + spec_picked(
                    data@,
                    kept,
                    range,
                    i as int,
                ),
                underruns == 0 ==> spec_picked(data@, kept, range, i as int) == spec_picked(
                    data@,
                    all,
                    range,
                    i as int,
                ),
                forall|k: int| 0 <= k < i && !range.spec_selects(k) ==> #[trigger] data@[k] == SILENCE,
                forall|k: int|
                    0 <= k < i && range.spec_selects(k) && !kept[k] ==> #[trigger] data@[k]
                        == SILENCE,
            decreases length - i,
        {
            let ghost earlier = kept;
            let ghost earlier_data = data@;
            let mut had = true;
            if position >= self.range.start && position < self.range.end {
                match pop(&mut self.consumer) {
                    Some(sample) => {
                        data[i] = sample;
                    },
                    None => {
                        had = false;
                        underruns += 1;
                        data[i] = SILENCE;
                    },
                }
            } else {
                data[i] = SILENCE;
            }
            proof {
                kept = earlier.update(i as int, had);
                lemma_picked_prefix(earlier_data, earlier, data@, kept, range, i as int);
                lemma_picked_prefix(earlier_data, all, data@, all, range, i as int);
                assert(consumer_taken(self.consumer) =~= consumer_taken(before) + spec_picked(
                    data@,
                    kept,
                    range,
                    i + 1,
                ));
            }
            position += 1;
            if position >= self.range.channels {
                position = 0;
            }
            proof {
                lemma_next_position(range, i as int);
            }
            i += 1;
        }
        assert(Self::spec_outcome(
            old(self).spec_consumer(),
            self.spec_consumer(),
            final(data)@,
            old(self).spec_range(),
            underruns as int,
            kept,
        ));
        underruns
    }
}

/// The callback that a stream registers with the audio driver.
pub enum StreamCallback {
    Capture(CaptureCallback),
    Playback(PlaybackCallback),
}

} // verus!
