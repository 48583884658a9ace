//! The wire packet: a fixed 17-byte header followed by the samples of one
//! frame, every multi-byte integer in big-endian order.
//!
//! | offset | size | field            |
//! |--------|------|------------------|
//! | 0      | 1    | message type     |
//! | 1      | 2    | sequence number  |
//! | 3      | 4    | timestamp        |
//! | 7      | 1    | redundancy depth |
//! | 8      | 4    | sample rate      |
//! | 12     | 1    | channel count    |
//! | 13     | 4    | buffer size      |
//! | 17     | 4×N  | N samples        |

use vstd::prelude::*;
use crate::wire::{spec_u16_be, spec_u32_be, spec_u16_at, spec_u32_at};
use crate::wire::{lemma_u16_field, lemma_u32_field};
use crate::wire::{push_u16_be, push_u32_be, read_u16_be, read_u32_be};

verus! {

/// Length in bytes of the fixed packet header.
pub const HEADER_SIZE: usize = 17;

/// The kind of payload a packet carries.
#[derive(Copy, Clone, Debug, PartialEq, Eq, Structural)]
pub enum MessageType {
    Audio,
}

impl MessageType {
    /// The message type that a header byte stands for, if any.
    pub open spec fn spec_from_u8(v: u8) -> Option<MessageType> {
        if v == 0 {
            Some(MessageType::Audio)
        } else {
            None
        }
    }

    /// The header byte that stands for this message type.
    pub open spec fn spec_to_u8(self) -> u8 {
        match self {
            MessageType::Audio => 0,
        }
    }

    pub fn from_u8(v: u8) -> (r: Option<MessageType>)
        ensures
            r == Self::spec_from_u8(v),
    {
        match v {
            0 => Some(MessageType::Audio),
            _ => None,
        }
    }

    pub fn to_u8(self) -> (v: u8)
        ensures
            v == self.spec_to_u8(),
            Self::spec_from_u8(v) == Some(self),
    {
        match self {
            MessageType::Audio => 0,
        }
    }
}

/// Why a buffer could not be decoded.
#[derive(Copy, Clone, Debug, PartialEq, Eq, Structural)]
pub enum PacketError {
    /// The first byte names no known message type.
    InvalidMessageType,
}

/// One audio chunk in flight. Each sample is the bit pattern of a 32-bit
/// IEEE-754 number.
#[derive(Clone)]
pub struct Packet {
    pub message_type: MessageType,
    pub sequence_number: u16,
    pub timestamp: u32,
    pub redundancy: u8,
    pub sample_rate: u32,
    pub channel_count: u32,
    pub buffer_size: u32,
    pub audio_samples: Vec<u32>,
}

/// The mathematical content of a [`Packet`].
pub struct PacketView {
    pub message_type: MessageType,
    pub sequence_number: u16,
    pub timestamp: u32,
    pub redundancy: u8,
    pub sample_rate: u32,
    pub channel_count: u32,
    pub buffer_size: u32,
    pub audio_samples: Seq<u32>,
}

impl View for Packet {
    type V = PacketView;

    open spec fn view(&self) -> PacketView {
        PacketView {
            message_type: self.message_type,
            sequence_number: self.sequence_number,
            timestamp: self.timestamp,
            redundancy: self.redundancy,
            sample_rate: self.sample_rate,
            channel_count: self.channel_count,
            buffer_size: self.buffer_size,
            audio_samples: self.audio_samples@,
        }
    }
}

impl PacketView {
    /// A packet is well formed when its payload holds exactly
    /// `buffer_size * channel_count` samples and its channel count fits the
    /// single header byte that carries it.
    pub open spec fn wf(self) -> bool {
        &&& self.channel_count <= 0xff
        &&& self.audio_samples.len() == self.buffer_size * self.channel_count
    }

    /// The 17 header bytes.
    pub open spec fn header(self) -> Seq<u8> {
        seq![self.message_type.spec_to_u8()] + spec_u16_be(self.sequence_number) + spec_u32_be(
            self.timestamp,
        ) + seq![self.redundancy] + spec_u32_be(self.sample_rate) + seq![
            (self.channel_count % 0x100) as u8,
        ] + spec_u32_be(self.buffer_size)
    }

    /// The whole packet on the wire: header, then every sample.
    #[verifier::opaque]
    pub open spec fn encode(self) -> Seq<u8> {
        self.header() + spec_payload(self.audio_samples)
    }
}

/// The samples on the wire: four big-endian bytes each, in order.
pub open spec fn spec_payload(samples: Seq<u32>) -> Seq<u8> {
    Seq::new(4 * samples.len(), |i: int| spec_u32_be(samples[i / 4])[i % 4])
}

/// The number of samples that the header in `bytes` announces.
pub open spec fn spec_declared_samples(bytes: Seq<u8>) -> int {
    spec_u32_at(bytes, 13) * bytes[12]
}

/// Whether `bytes` holds a whole header and all the samples it announces.
pub open spec fn spec_complete(bytes: Seq<u8>) -> bool {
    &&& bytes.len() >= HEADER_SIZE
    &&& bytes.len() >= HEADER_SIZE + 4 * spec_declared_samples(bytes)
}

/// What a complete buffer decodes to. Bytes after the announced samples are
/// not read.
#[verifier::opaque]
pub open spec fn spec_decode(bytes: Seq<u8>) -> Result<PacketView, PacketError> {
    match MessageType::spec_from_u8(bytes[0]) {
        None => Err(PacketError::InvalidMessageType),
        Some(message_type) => Ok(
            PacketView {
                message_type,
                sequence_number: spec_u16_at(bytes, 1),
                timestamp: spec_u32_at(bytes, 3),
                redundancy: bytes[7],
                sample_rate: spec_u32_at(bytes, 8),
                channel_count: bytes[12] as u32,
                buffer_size: spec_u32_at(bytes, 13),
                audio_samples: Seq::new(
                    spec_declared_samples(bytes) as nat,
                    |i: int| spec_u32_at(bytes, HEADER_SIZE + 4 * i),
                ),
            },
        ),
    }
}

/// Appending one sample appends its four bytes.
pub proof fn lemma_payload_push(samples: Seq<u32>, sample: u32)
    ensures
        spec_payload(samples.push(sample)) == spec_payload(samples) + spec_u32_be(sample),
{
    let left = spec_payload(samples.push(sample));
    let right = spec_payload(samples) + spec_u32_be(sample);
    assert(left.len() == right.len());
    assert forall|i: int| 0 <= i < left.len() implies left[i] == right[i] by {
        if i < 4 * samples.len() {
            assert(samples.push(sample)[i / 4] == samples[i / 4]);
        } else {
            assert(i / 4 == samples.len());
            assert(i % 4 == i - 4 * samples.len());
        }
    }
    assert(left =~= right);
}

/// Where each field sits in the header.
pub proof fn lemma_header_layout(p: PacketView)
    ensures
        p.header().len() == HEADER_SIZE,
        p.header()[0] == p.message_type.spec_to_u8(),
        p.header().subrange(1, 3) == spec_u16_be(p.sequence_number),
        p.header().subrange(3, 7) == spec_u32_be(p.timestamp),
        p.header()[7] == p.redundancy,
        p.header().subrange(8, 12) == spec_u32_be(p.sample_rate),
        p.header()[12] == (p.channel_count % 0x100) as u8,
        p.header().subrange(13, 17) == spec_u32_be(p.buffer_size),
{
    let kind = seq![p.message_type.spec_to_u8()];
    let number = spec_u16_be(p.sequence_number);
    let stamp = spec_u32_be(p.timestamp);
    let depth = seq![p.redundancy];
    let rate = spec_u32_be(p.sample_rate);
    let channels = seq![(p.channel_count % 0x100) as u8];
    let frames = spec_u32_be(p.buffer_size);
    lemma_concat_layout(kind, number, stamp, depth, rate, channels, frames);
}

/// Where each part sits in a concatenation of seven parts of the header's
/// lengths.
proof fn lemma_concat_layout(
    a: Seq<u8>,
    b: Seq<u8>,
    c: Seq<u8>,
    d: Seq<u8>,
    e: Seq<u8>,
    f: Seq<u8>,
    g: Seq<u8>,
)
    requires
        a.len() == 1,
        b.len() == 2,
        c.len() == 4,
        d.len() == 1,
        e.len() == 4,
        f.len() == 1,
        g.len() == 4,
    ensures
        ({
            let all = a + b + c + d + e + f + g;
            &&& all.len() == 17
            &&& all[0] == a[0]
            &&& all.subrange(1, 3) == b
            &&& all.subrange(3, 7) == c
            &&& all[7] == d[0]
            &&& all.subrange(8, 12) == e
            &&& all[12] == f[0]
            &&& all.subrange(13, 17) == g
        }),
{
    let all = a + b + c + d + e + f + g;
    assert(all.subrange(1, 3) =~= b);
    assert(all.subrange(3, 7) =~= c);
    assert(all.subrange(8, 12) =~= e);
    assert(all.subrange(13, 17) =~= g);
}

/// The sample at index `i` of a payload that starts at `base` reads back.
pub proof fn lemma_payload_sample(bytes: Seq<u8>, base: int, samples: Seq<u32>, i: int)
    requires
        0 <= base,
        base + 4 * samples.len() <= bytes.len(),
        bytes.subrange(base, base + 4 * samples.len()) == spec_payload(samples),
        0 <= i < samples.len(),
    ensures
        spec_u32_at(bytes, base + 4 * i) == samples[i],
{
    let payload = bytes.subrange(base, base + 4 * samples.len());
    let field = bytes.subrange(base + 4 * i, base + 4 * i + 4);
    assert forall|k: int| 0 <= k < 4 implies field[k] == spec_u32_be(samples[i])[k] by {
        assert(field[k] == payload[4 * i + k]);
        assert((4 * i + k) / 4 == i);
        assert((4 * i + k) % 4 == k);
    }
    assert(field =~= spec_u32_be(samples[i]));
    lemma_u32_field(bytes, base + 4 * i, samples[i]);
}

/// Decoding the encoding of a well-formed packet gives the packet back, field
/// for field.
pub proof fn lemma_decode_encode(p: PacketView)
    requires
        p.wf(),
    ensures
        spec_complete(p.encode()),
        p.encode().len() == HEADER_SIZE + 4 * p.audio_samples.len(),
        spec_declared_samples(p.encode()) == p.audio_samples.len(),
        spec_decode(p.encode()) == Ok::<PacketView, PacketError>(p),
{
    reveal(PacketView::encode);
    reveal(spec_decode);
    let bytes = p.encode();
    let header = p.header();
    let payload = spec_payload(p.audio_samples);
    lemma_header_layout(p);
    assert(bytes.subrange(0, 17) =~= header);
    assert(bytes.subrange(17, 17 + 4 * p.audio_samples.len() as int) =~= payload);
    assert(bytes[0] == header[0] && bytes[7] == header[7] && bytes[12] == header[12]);
    assert(bytes.subrange(1, 3) =~= header.subrange(1, 3));
    assert(bytes.subrange(3, 7) =~= header.subrange(3, 7));
    assert(bytes.subrange(8, 12) =~= header.subrange(8, 12));
    assert(bytes.subrange(13, 17) =~= header.subrange(13, 17));
    lemma_u16_field(bytes, 1, p.sequence_number);
    lemma_u32_field(bytes, 3, p.timestamp);
    lemma_u32_field(bytes, 8, p.sample_rate);
    lemma_u32_field(bytes, 13, p.buffer_size);
    assert(spec_declared_samples(bytes) == p.audio_samples.len());
    let decoded = spec_decode(bytes)->Ok_0;
    assert forall|i: int| 0 <= i < p.audio_samples.len() implies decoded.audio_samples[i]
        == p.audio_samples[i] by {
        lemma_payload_sample(bytes, 17, p.audio_samples, i);
    }
    assert(decoded.audio_samples =~= p.audio_samples);
}

impl Packet {
    pub fn new(
        message_type: MessageType,
        sequence_number: u16,
        timestamp: u32,
        redundancy: u8,
        sample_rate: u32,
        channel_count: u32,
        buffer_size: u32,
        audio_samples: Vec<u32>,
    ) -> (packet: Packet)
        ensures
            packet.message_type == message_type,
            packet.sequence_number == sequence_number,
            packet.timestamp == timestamp,
            packet.redundancy == redundancy,
            packet.sample_rate == sample_rate,
            packet.channel_count == channel_count,
            packet.buffer_size == buffer_size,
            packet.audio_samples == audio_samples,
    {
        Packet {
            message_type,
            sequence_number,
            timestamp,
            redundancy,
            sample_rate,
            channel_count,
            buffer_size,
            audio_samples,
        }
    }

    pub fn get_header_size() -> (size: usize)
        ensures
            size == HEADER_SIZE,
    {
        HEADER_SIZE
    }

    /// The header bytes of this packet.
    pub fn get_header_buffer(&self) -> (header: Vec<u8>)
        ensures
            header@ == self@.header(),
    {
        let mut header: Vec<u8> = Vec::with_capacity(HEADER_SIZE);
        header.push(self.message_type.to_u8());
        push_u16_be(&mut header, self.sequence_number);
        push_u32_be(&mut header, self.timestamp);
        header.push(self.redundancy);
        push_u32_be(&mut header, self.sample_rate);
        header.push((self.channel_count % 0x100) as u8);
        push_u32_be(&mut header, self.buffer_size);
        assert(header@ =~= self@.header());
        header
    }

    /// The length in bytes of a packet with this header: the header itself
    /// and four bytes for each of `buffer_size * channel_count` samples.
    pub fn get_buffer_size(&self) -> (size: usize)
        requires
            HEADER_SIZE + 4 * (self.buffer_size * self.channel_count) <= usize::MAX,
        ensures
            size == HEADER_SIZE + 4 * (self.buffer_size * self.channel_count),
            self@.wf() ==> size == self@.encode().len(),
    {
        proof {
            reveal(PacketView::encode);
            lemma_header_layout(self@);
            assert(self.buffer_size * self.channel_count >= 0) by (nonlinear_arith);
        }
        let samples: usize = (self.buffer_size as usize) * (self.channel_count as usize);
        HEADER_SIZE + 4 * samples
    }

    /// Encodes this packet: the header, then every sample it holds.
    pub fn to_buffer(&self) -> (buffer: Vec<u8>)
        ensures
            buffer@ == self@.encode(),
    {
        proof {
            reveal(PacketView::encode);
        }
        let mut buffer: Vec<u8> = self.get_header_buffer();
        let mut i: usize = 0;
        while i < self.audio_samples.len()
            invariant
                i <= self.audio_samples.len(),
                buffer@ == self@.header() + spec_payload(self.audio_samples@.take(i as int)),
            decreases self.audio_samples.len() - i,
        {
            proof {
                lemma_payload_push(self.audio_samples@.take(i as int), self.audio_samples@[i as int]);
                assert(self.audio_samples@.take(i as int).push(self.audio_samples@[i as int])
                    =~= self.audio_samples@.take(i + 1));
            }
            push_u32_be(&mut buffer, self.audio_samples[i]);
            i += 1;
        }
        assert(self.audio_samples@.take(i as int) =~= self.audio_samples@);
        buffer
    }

    /// The length in bytes that the header at the front of `buffer` announces
    /// for its packet: the header and four bytes for each sample.
    pub fn declared_size(buffer: &[u8]) -> (size: u64)
        requires
            buffer@.len() >= HEADER_SIZE,
        ensures
            size == HEADER_SIZE + 4 * spec_declared_samples(buffer@),
    {
        let channel_count: u64 = buffer[12] as u64;
        let buffer_size: u64 = read_u32_be(buffer, 13) as u64;
        assert(buffer_size * channel_count <= 0xffff_ffff * 0xff) by (nonlinear_arith)
            requires
                buffer_size <= 0xffff_ffff,
                channel_count <= 0xff,
        ;
        HEADER_SIZE as u64 + 4 * (buffer_size * channel_count)
    }

    /// Whether `buffer` holds a whole header and all the samples that the
    /// header announces, so that it can be decoded.
    pub fn is_complete(buffer: &[u8]) -> (complete: bool)
        ensures
            complete == spec_complete(buffer@),
    {
        buffer.len() >= HEADER_SIZE && buffer.len() as u64 >= Packet::declared_size(buffer)
    }

    /// Decodes one packet from the front of `buffer`. The caller has checked
    /// that the buffer is complete; bytes after the announced samples are not
    /// read.
    pub fn from_buffer(buffer: &[u8]) -> (r: Result<Packet, PacketError>)
        requires
            spec_complete(buffer@),
        ensures
            match r {
                Ok(packet) => spec_decode(buffer@) == Ok::<PacketView, PacketError>(packet@),
                Err(e) => spec_decode(buffer@) == Err::<PacketView, PacketError>(e),
            },
            r is Ok ==> r->Ok_0@.wf(),
    {
        proof {
            reveal(spec_decode);
        }
        let message_type = match MessageType::from_u8(buffer[0]) {
            Some(message_type) => message_type,
            None => {
                return Err(PacketError::InvalidMessageType);
            },
        };
        let sequence_number = read_u16_be(buffer, 1);
        let timestamp = read_u32_be(buffer, 3);
        let redundancy = buffer[7];
        let sample_rate = read_u32_be(buffer, 8);
        let channel_count: u32 = buffer[12] as u32;
        let buffer_size = read_u32_be(buffer, 13);
        assert(buffer_size * channel_count >= 0) by (nonlinear_arith);
        let count: usize = (buffer_size as usize) * (channel_count as usize);
        let mut audio_samples: Vec<u32> = Vec::with_capacity(count);
        let mut i: usize = 0;
        while i < count
            invariant
                i <= count,
                HEADER_SIZE + 4 * count <= buffer@.len() <= usize::MAX,
                audio_samples@ == Seq::new(
                    i as nat,
                    |k: int| spec_u32_at(buffer@, HEADER_SIZE + 4 * k),
                ),
            decreases count - i,
        {
            let sample = read_u32_be(buffer, HEADER_SIZE + 4 * i);
            audio_samples.push(sample);
            i += 1;
            assert(audio_samples@ =~= Seq::new(
                i as nat,
                |k: int| spec_u32_at(buffer@, HEADER_SIZE + 4 * k),
            ));
        }
        Ok(
            Packet {
                message_type,
                sequence_number,
                timestamp,
                redundancy,
                sample_rate,
                channel_count,
                buffer_size,
                audio_samples,
            },
        )
    }
}

} // verus!
