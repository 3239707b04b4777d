//! PCM samples as bytes: how the device sends them and how the host puts them
//! back together.
//!
//! Samples travel as little-endian pairs of bytes. The transport hands the host
//! chunks of any length, so a chunk may end between the two bytes of a sample;
//! the odd byte is carried over to the next chunk.

use vstd::prelude::*;

verus! {

/// The low byte of a sample.
pub open spec fn low_byte(sample: i16) -> u8 {
    ((sample as int) % 0x1_0000 % 0x100) as u8
}

/// The high byte of a sample.
pub open spec fn high_byte(sample: i16) -> u8 {
    ((sample as int) % 0x1_0000 / 0x100) as u8
}

/// The sample that a low and a high byte make: the two's complement reading of
/// their 16 bits.
pub open spec fn sample_of(low: u8, high: u8) -> i16 {
    if high < 0x80 {
        (0x100 * high + low) as i16
    } else {
        (0x100 * high + low - 0x1_0000) as i16
    }
}

/// Samples as bytes.
pub open spec fn encoded(samples: Seq<i16>) -> Seq<u8> {
    Seq::new(
        2 * samples.len(),
        |i: int|
            if i % 2 == 0 {
                low_byte(samples[i / 2])
            } else {
                high_byte(samples[i / 2])
            },
    )
}

/// The whole samples in some bytes; an odd last byte is left over.
pub open spec fn decoded(bytes: Seq<u8>) -> Seq<i16> {
    Seq::new(bytes.len() / 2, |i: int| sample_of(bytes[2 * i], bytes[2 * i + 1]))
}

/// What is left of some bytes after the whole samples.
pub open spec fn left_over(bytes: Seq<u8>) -> Option<u8> {
    if bytes.len() % 2 == 0 {
        None
    } else {
        Some(bytes.last())
    }
}

/// A carried byte in front of the bytes that follow it.
pub open spec fn joined(carry: Option<u8>, bytes: Seq<u8>) -> Seq<u8> {
    match carry {
        None => bytes,
        Some(low) => seq![low] + bytes,
    }
}

/// The sample that a low and a high byte make.
pub fn sample_from_le(low: u8, high: u8) -> (sample: i16)
    ensures
        sample == sample_of(low, high),
{
    let word: i32 = 0x100 * (high as i32) + low as i32;
    if high < 0x80 {
        word as i16
    } else {
        (word - 0x1_0000) as i16
    }
}

/// A buffer of samples as bytes to send.
pub fn bytes_of(samples: &[i16]) -> (bytes: Vec<u8>)
    ensures
        bytes@ == encoded(samples@),
{
    let mut bytes: Vec<u8> = Vec::new();
    for i in 0..samples.len()
        invariant
            bytes@ == encoded(samples@.take(i as int)),
    {
        let sample: i32 = samples[i] as i32;
        let word: i32 = if sample < 0 {
            sample + 0x1_0000
        } else {
            sample
        };
        bytes.push((word % 0x100) as u8);
        bytes.push((word / 0x100) as u8);
    }
    bytes
}

/// Puts samples together from chunks of bytes.
pub struct Decoder {
    carry: Option<u8>,
    total: u64,
}

impl Decoder {
    /// The low byte of a sample whose high byte has not come yet.
    pub closed spec fn carry(&self) -> Option<u8> {
        self.carry
    }

    /// Samples put together so far.
    pub closed spec fn total(&self) -> u64 {
        self.total
    }

    /// A decoder before the first chunk.
    pub fn new() -> (d: Decoder)
        ensures
            d.carry() is None,
            d.total() == 0,
    {
        Decoder { carry: None, total: 0 }
    }

    /// How many samples have been put together.
    pub fn count(&self) -> (n: u64)
        ensures
            n == self.total(),
    {
        self.total
    }

    /// The samples that a chunk completes. The count of samples must not leave
    /// 64 bits.
    pub fn feed(&mut self, bytes: &[u8]) -> (samples: Vec<i16>)
        requires
            old(self).total() + decoded(joined(old(self).carry(), bytes@)).len() <= u64::MAX,
        ensures
            samples@ == decoded(joined(old(self).carry(), bytes@)),
            final(self).carry() == left_over(joined(old(self).carry(), bytes@)),
            final(self).total() == old(self).total() + samples@.len(),
    {
        let ghost all = joined(self.carry, bytes@);
        let ghost offset: int = all.len() - bytes@.len();
        let mut samples: Vec<i16> = Vec::new();
        let len: usize = bytes.len();
        let mut at: usize = 0;
        if len == 0 {
            return samples;
        }
        if let Some(low) = self.carry {
            samples.push(sample_from_le(low, bytes[0]));
            at = 1;
            self.carry = None;
        }
        while len - at >= 2
            invariant
                self.carry is None,
                self.total == old(self).total,
                len == bytes@.len(),
                at <= len,
                all == joined(old(self).carry, bytes@),
                offset == all.len() - bytes@.len(),
                (at + offset) % 2 == 0,
                samples@.len() == (at + offset) / 2,
                samples@ == decoded(all.take(at + offset)),
            decreases len - at,
        {
            samples.push(sample_from_le(bytes[at], bytes[at + 1]));
            at = at + 2;
        }
        if at < len {
            self.carry = Some(bytes[at]);
        }
        self.total = self.total + samples.len() as u64;
        samples
    }
}

/// A sample can be read back from its two bytes.
pub proof fn law_sample_survives(sample: i16)
    ensures
        sample_of(low_byte(sample), high_byte(sample)) == sample,
{
}

/// Any two bytes are those of the sample that they make.
pub proof fn law_bytes_survive(low: u8, high: u8)
    ensures
        low_byte(sample_of(low, high)) == low,
        high_byte(sample_of(low, high)) == high,
{
}

/// What is decoded from encoded samples are the samples, with nothing left over.
pub proof fn law_decoding_undoes_encoding(samples: Seq<i16>)
    ensures
        decoded(encoded(samples)) == samples,
        left_over(encoded(samples)) is None,
{
    assert forall|i: int| 0 <= i < samples.len() implies #[trigger] decoded(encoded(samples))[i]
        == samples[i] by {
        law_sample_survives(samples[i]);
    }
}

/// A chunk with nothing in it changes nothing.
pub proof fn law_empty_chunk_changes_nothing(carry: Option<u8>)
    ensures
        decoded(joined(carry, Seq::empty())) == Seq::<i16>::empty(),
        left_over(joined(carry, Seq::empty())) == carry,
{
}

/// All chunks one after the other.
pub open spec fn flat(chunks: Seq<Seq<u8>>) -> Seq<u8>
    decreases chunks.len(),
{
    if chunks.len() == 0 {
        Seq::empty()
    } else {
        flat(chunks.drop_last()) + chunks.last()
    }
}

/// What a decoder carries after some chunks.
pub open spec fn carry_after(chunks: Seq<Seq<u8>>) -> Option<u8>
    decreases chunks.len(),
{
    if chunks.len() == 0 {
        None
    } else {
        left_over(joined(carry_after(chunks.drop_last()), chunks.last()))
    }
}

/// All samples that a decoder gives for some chunks.
pub open spec fn samples_after(chunks: Seq<Seq<u8>>) -> Seq<i16>
    decreases chunks.len(),
{
    if chunks.len() == 0 {
        Seq::empty()
    } else {
        samples_after(chunks.drop_last()) + decoded(
            joined(carry_after(chunks.drop_last()), chunks.last()),
        )
    }
}

/// How the transport cuts the bytes makes no difference: chunk by chunk, a
/// decoder gives the samples of the whole and carries what the whole leaves over.
pub proof fn law_chunks_make_no_difference(chunks: Seq<Seq<u8>>)
    ensures
        samples_after(chunks) == decoded(flat(chunks)),
        carry_after(chunks) == left_over(flat(chunks)),
    decreases chunks.len(),
{
    if chunks.len() > 0 {
        let front = chunks.drop_last();
        law_chunks_make_no_difference(front);
        let before = flat(front);
        let rest = joined(left_over(before), chunks.last());
        let whole = before + chunks.last();
        assert(decoded(before) + decoded(rest) =~= decoded(whole));
    }
}

/// Whatever samples are sent and however their bytes are cut, the samples that
/// arrive are those that were sent.
pub proof fn law_samples_arrive_unchanged(samples: Seq<i16>, chunks: Seq<Seq<u8>>)
    requires
        flat(chunks) == encoded(samples),
    ensures
        samples_after(chunks) == samples,
        carry_after(chunks) is None,
{
    law_chunks_make_no_difference(chunks);
    law_decoding_undoes_encoding(samples);
}

/// Sample `i` of some bytes is made of bytes `2 * i` and `2 * i + 1`, the low one
/// first: it is their 16-bit number, or that less 2^16.
pub proof fn law_samples_are_little_endian(bytes: Seq<u8>, i: int)
    requires
        0 <= i < bytes.len() as int / 2,
    ensures
        2 * decoded(bytes).len() <= bytes.len() < 2 * decoded(bytes).len() + 2,
        decoded(bytes)[i] == bytes[2 * i] + 0x100 * bytes[2 * i + 1] || decoded(bytes)[i]
            == bytes[2 * i] + 0x100 * bytes[2 * i + 1] - 0x1_0000,
{
}

/// Sample `i` is sent as bytes `2 * i` and `2 * i + 1`, the low one first.
pub proof fn law_bytes_are_little_endian(samples: Seq<i16>, i: int)
    requires
        0 <= i < samples.len(),
    ensures
        encoded(samples).len() == 2 * samples.len(),
        encoded(samples)[2 * i] + 0x100 * encoded(samples)[2 * i + 1] == samples[i] || encoded(
            samples,
        )[2 * i] + 0x100 * encoded(samples)[2 * i + 1] == samples[i] + 0x1_0000,
{
}

/// What is left over is the last byte, if the bytes are odd in number; a carried byte
/// stands in front of those that follow it.
pub proof fn law_odd_bytes_are_carried(bytes: Seq<u8>, low: u8, i: int)
    requires
        0 <= i < bytes.len(),
    ensures
        left_over(bytes) is Some <==> bytes.len() % 2 == 1,
        left_over(bytes) matches Some(byte) ==> byte == bytes[bytes.len() - 1],
        joined(None, bytes) == bytes,
        joined(Some(low), bytes).len() == bytes.len() + 1,
        joined(Some(low), bytes)[0] == low,
        joined(Some(low), bytes)[i + 1] == bytes[i],
{
}

} // verus!
